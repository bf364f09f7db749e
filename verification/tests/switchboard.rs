use litesvm::LiteSVM;
use shadow_oracle::providers::switchboard::SwitchboardAggregator;
use shadow_oracle::{
    Address, ClockReading, Decimal, PriceConf, ShadowOracle, ShadowOracleError, Switchboard,
};
use solana_clock::Clock;

fn usd(amount: Decimal) -> f64 {
    amount.mantissa() as f64 / 10f64.powi(amount.scale() as i32)
}

fn hundred() -> PriceConf {
    PriceConf::new_usd(Decimal::new(100, 0), Decimal::new(1, 1))
}

#[test]
fn switchboard_test_create_price_feed() {
    let mut svm = LiteSVM::new().with_sysvars();
    let mut sb = Switchboard::new(&mut svm);

    let feed = sb.create_price_feed(hundred()).unwrap();

    let (price, _) = sb.get_price(&feed).unwrap();
    assert!((usd(price) - 100.0).abs() < 0.001);
}

#[test]
fn switchboard_test_update_price() {
    let mut svm = LiteSVM::new().with_sysvars();
    let mut sb = Switchboard::new(&mut svm);

    let feed = sb.create_price_feed(hundred()).unwrap();
    sb.set_price_usd(&feed, Decimal::new(150, 0), Decimal::new(2, 1)).unwrap();

    let (price, _) = sb.get_price_usd(&feed).unwrap();
    assert!((usd(price) - 150.0).abs() < 0.001);
}

#[test]
fn switchboard_test_standard_feeds() {
    let mut svm = LiteSVM::new().with_sysvars();
    let mut sb = Switchboard::new(&mut svm);

    let feeds = sb.create_standard_feeds().unwrap();

    let (sol_price, _) = sb.get_price_usd(&feeds.sol).unwrap();
    assert!((usd(sol_price) - 100.0).abs() < 0.001);
}

#[test]
fn switchboard_test_simulate_crash() {
    let mut svm = LiteSVM::new().with_sysvars();
    let mut sb = Switchboard::new(&mut svm);

    let feed = sb.create_price_feed(hundred()).unwrap();
    sb.simulate_crash(&feed, Decimal::new(50, 0)).unwrap();

    let (price, _) = sb.get_price_usd(&feed).unwrap();
    assert!((usd(price) - 50.0).abs() < 0.001);
}

#[test]
fn test_timestamp_uses_svm_clock() {
    let mut svm = LiteSVM::new().with_sysvars();

    let initial_clock = svm.get_sysvar::<Clock>();
    let initial_timestamp = initial_clock.unix_timestamp;

    let mut sb = Switchboard::new(&mut svm);
    let feed = sb.create_price_feed(hundred()).unwrap();

    let feed_timestamp = sb.get_timestamp(&feed).unwrap();
    assert_eq!(feed_timestamp, initial_timestamp);
}

#[test]
fn test_slot_uses_svm_clock() {
    let mut svm = LiteSVM::new().with_sysvars();

    let initial_clock = svm.get_sysvar::<Clock>();
    let initial_slot = initial_clock.slot;

    let mut sb = Switchboard::new(&mut svm);
    let feed = sb.create_price_feed(hundred()).unwrap();

    let feed_slot = sb.get_slot(&feed).unwrap();
    assert_eq!(feed_slot, initial_slot);
}

#[test]
fn test_make_stale() {
    let mut svm = LiteSVM::new().with_sysvars();

    let clock = svm.get_sysvar::<Clock>();
    let current_time = clock.unix_timestamp;

    let mut sb = Switchboard::new(&mut svm);
    let feed = sb.create_price_feed(hundred()).unwrap();

    // Make the feed 5 minutes stale
    sb.make_stale(&feed, 300).unwrap();

    let feed_timestamp = sb.get_timestamp(&feed).unwrap();
    assert_eq!(feed_timestamp, current_time - 300);
}

#[test]
fn test_create_stale_feed_with_stale_by() {
    let mut svm = LiteSVM::new().with_sysvars();

    let clock = svm.get_sysvar::<Clock>();
    let current_time = clock.unix_timestamp;

    let mut sb = Switchboard::new(&mut svm);

    // Create a feed that's already 5 minutes old
    let stale_conf = hundred().stale_by(300, current_time);
    let feed = sb.create_price_feed(stale_conf).unwrap();

    let feed_timestamp = sb.get_timestamp(&feed).unwrap();
    assert_eq!(feed_timestamp, current_time - 300);
}

fn sandbox_at(slot: u64, time: i64) -> LiteSVM {
    let mut svm = LiteSVM::new();
    let mut clock = svm.get_sysvar::<Clock>();
    clock.slot = slot;
    clock.unix_timestamp = time;
    svm.set_sysvar(&clock);
    svm
}

#[test]
fn switchboard_make_stale_keeps_everything_else() {
    let mut svm = sandbox_at(55, 1_700_000_000);
    let address = Address::new([8u8; 32]);
    {
        let mut sb = Switchboard::new(&mut svm);
        sb.create_price_feed_at(address, hundred()).unwrap();
        let before = sb.get_price(&address).unwrap();
        sb.make_stale(&address, 3600).unwrap();
        assert_eq!(sb.get_timestamp(&address), Some(1_699_996_400));
        assert_eq!(sb.get_price(&address), Some(before));
        assert_eq!(sb.get_slot(&address), Some(55));
        // a negative age puts the feed in the future
        sb.make_stale(&address, -60).unwrap();
        assert_eq!(sb.get_timestamp(&address), Some(1_700_000_060));
    }
    let data = svm.get_account(&solana_pubkey::Pubkey::new_from_array([8u8; 32])).unwrap().data;
    assert_eq!(i64::from_le_bytes(data[1161..1169].try_into().unwrap()), 1_700_000_060);
    assert_eq!(i128::from_le_bytes(data[1169..1185].try_into().unwrap()), 10_000_000_000);
}

#[test]
fn switchboard_crash_halves_and_widens_five_times() {
    let mut svm = sandbox_at(1, 1);
    let mut sb = Switchboard::new(&mut svm);
    let feed = sb.create_price_feed(hundred()).unwrap();
    sb.simulate_crash(&feed, Decimal::new(50, 0)).unwrap();
    let (price, deviation) = sb.get_price(&feed).unwrap();
    assert_eq!((price.mantissa(), price.scale()), (500_000_000_000, 10));
    assert_eq!((deviation.mantissa(), deviation.scale()), (50_000_000, 8));
}

#[test]
fn switchboard_depeg_deviation() {
    let mut svm = sandbox_at(1, 1);
    let mut sb = Switchboard::new(&mut svm);
    let feed = sb.create_price_feed(PriceConf::stablecoin()).unwrap();
    sb.simulate_depeg(&feed, Decimal::new(95, 2)).unwrap();
    let (price, deviation) = sb.get_price(&feed).unwrap();
    assert_eq!(price, Decimal::new(95, 2));
    // |1 - 0.95| * 0.1 + 0.001 = 0.006
    assert_eq!((deviation.mantissa(), deviation.scale()), (6, 3));
}

#[test]
fn switchboard_unknown_feed() {
    let mut svm = sandbox_at(1, 1);
    let mut sb = Switchboard::new(&mut svm);
    let nowhere = Address::new([7u8; 32]);
    let text = solana_pubkey::Pubkey::new_from_array([7u8; 32]).to_string();
    assert_eq!(sb.get_price(&nowhere), None);
    assert_eq!(sb.get_price_usd(&nowhere), None);
    assert_eq!(sb.get_timestamp(&nowhere), None);
    assert_eq!(sb.get_slot(&nowhere), None);
    match sb.make_stale(&nowhere, 1) {
        Err(ShadowOracleError::PriceFeedNotFound(address)) => assert_eq!(address, text),
        other => panic!("{:?}", other),
    }
    assert!(matches!(
        sb.set_price(&nowhere, Decimal::new(1, 0), Decimal::new(1, 0)),
        Err(ShadowOracleError::PriceFeedNotFound(_))
    ));
    assert!(matches!(
        sb.simulate_crash(&nowhere, Decimal::new(1, 0)),
        Err(ShadowOracleError::PriceFeedNotFound(_))
    ));
    assert!(matches!(
        sb.simulate_depeg(&nowhere, Decimal::new(1, 0)),
        Err(ShadowOracleError::PriceFeedNotFound(_))
    ));
}

#[test]
fn switchboard_needs_a_clock() {
    let mut svm = LiteSVM::default();
    let mut sb = Switchboard::new(&mut svm);
    assert!(matches!(
        sb.create_price_feed(hundred()),
        Err(ShadowOracleError::ProviderNotAvailable(_))
    ));
}

#[test]
fn switchboard_write_at_the_rent_variable_is_taken() {
    // the head of the aggregator's bytes reads as a rent variable, so the sandbox takes it
    let rent: solana_pubkey::Pubkey = "SysvarRent111111111111111111111111111111111".parse().unwrap();
    let mut svm = sandbox_at(1, 1);
    {
        let mut sb = Switchboard::new(&mut svm);
        let address = Address::new(rent.to_bytes());
        sb.create_price_feed_at(address, hundred()).unwrap();
        assert!(sb.get_price(&address).is_some());
    }
    assert_eq!(svm.get_account(&rent).unwrap().data.len(), 3851);
}

#[test]
fn switchboard_record_bytes_at_fixed_offsets() {
    let clock = ClockReading { slot: 9, unix_timestamp: -7 };
    let conf = PriceConf::new_usd(Decimal::new(-25, 1), Decimal::new(5, 2)).with_decimals(4);
    let mut aggregator = SwitchboardAggregator::from_conf(&conf, &clock);
    assert_eq!(aggregator.round_id, 1);
    let data = aggregator.to_bytes();
    assert_eq!(data.len(), 3851);
    assert_eq!(&data[0..8], &[217, 230, 65, 101, 201, 162, 27, 125]);
    assert!(data[8..1144].iter().all(|b| *b == 0));
    assert_eq!(u32::from_le_bytes(data[1144..1148].try_into().unwrap()), 3);
    assert_eq!(u32::from_le_bytes(data[1148..1152].try_into().unwrap()), 0);
    assert_eq!(data[1152], 1);
    assert_eq!(u64::from_le_bytes(data[1153..1161].try_into().unwrap()), 9);
    assert_eq!(i64::from_le_bytes(data[1161..1169].try_into().unwrap()), -7);
    assert_eq!(i128::from_le_bytes(data[1169..1185].try_into().unwrap()), -25_000);
    assert_eq!(u32::from_le_bytes(data[1185..1189].try_into().unwrap()), 4);
    assert!(data[1189..1201].iter().all(|b| *b == 0));
    assert_eq!(i128::from_le_bytes(data[1201..1217].try_into().unwrap()), 500);
    assert_eq!(u32::from_le_bytes(data[1217..1221].try_into().unwrap()), 4);
    assert!(data[1221..].iter().all(|b| *b == 0));

    let later = ClockReading { slot: 10, unix_timestamp: 3 };
    aggregator.set_price(Decimal::new(1, 0), Decimal::new(2, 0), &later);
    assert_eq!((aggregator.round_id, aggregator.slot, aggregator.timestamp), (2, 10, 3));
    assert_eq!(aggregator.price, Decimal::new(1, 0));
    assert_eq!(aggregator.std_deviation, Decimal::new(2, 0));
}

#[test]
fn oracle_hands_out_each_registry() {
    let mut svm = LiteSVM::new();
    let mut oracle = ShadowOracle::new(&mut svm);
    let sol = oracle.pyth().create_price_feed(hundred()).unwrap();
    let btc = oracle.switchboard().create_price_feed(PriceConf::standard_btc()).unwrap();
    let eth = oracle.chainlink().create_price_feed(PriceConf::standard_eth()).unwrap();
    // a registry keeps what it created itself, not what an earlier one did
    assert_eq!(oracle.pyth().get_price(&sol), None);
    for address in [sol, btc, eth] {
        assert!(svm
            .get_account(&solana_pubkey::Pubkey::new_from_array(address.to_bytes()))
            .is_some());
    }
}

#[test]
fn switchboard_each_round_adds_one() {
    let mut svm = sandbox_at(3, 4);
    let mut sb = Switchboard::new(&mut svm);
    let feed = sb.create_price_feed(hundred()).unwrap();
    assert_eq!(sb.get_round(&feed), Some(1));
    sb.set_price(&feed, Decimal::new(101, 0), Decimal::new(1, 1)).unwrap();
    assert_eq!(sb.get_round(&feed), Some(2));
    sb.simulate_crash(&feed, Decimal::new(10, 0)).unwrap();
    assert_eq!(sb.get_round(&feed), Some(3));
    sb.make_stale(&feed, 10).unwrap();
    assert_eq!(sb.get_round(&feed), Some(3));
    assert_eq!(sb.read_clock().map(|c| (c.slot, c.unix_timestamp)), Some((3, 4)));
    assert_eq!(sb.get_round(&Address::new([0u8; 32])), None);
}

#[test]
fn switchboard_crash_widens_five_times_where_digits_must_go() {
    // 200 dollars held at sixteen digits: five times as much needs one digit less
    let mut svm = sandbox_at(1, 1);
    let mut sb = Switchboard::new(&mut svm);
    let feed = sb.create_price_feed(hundred()).unwrap();
    sb.set_price(&feed, Decimal::new(1, 0), Decimal::new(2_000_000_000_000_000_000, 16)).unwrap();
    sb.simulate_crash(&feed, Decimal::new(50, 0)).unwrap();
    let (price, deviation) = sb.get_price(&feed).unwrap();
    assert_eq!((price.mantissa(), price.scale()), (50, 2));
    assert_eq!((deviation.mantissa(), deviation.scale()), (1_000_000_000_000_000_000, 15));
    assert_eq!(sb.get_round(&feed), Some(3));
}

#[test]
fn switchboard_standard_feeds_at_given_addresses() {
    let mut svm = sandbox_at(8, 9);
    let mut sb = Switchboard::new(&mut svm);
    let at = shadow_oracle::StandardFeeds {
        sol: Address::new([1u8; 32]),
        btc: Address::new([2u8; 32]),
        eth: Address::new([3u8; 32]),
        usdc: Address::new([4u8; 32]),
        usdt: Address::new([5u8; 32]),
    };
    let made = sb.create_standard_feeds_at(at).unwrap();
    assert_eq!(made.eth, at.eth);
    let (price, deviation) = sb.get_price(&at.btc).unwrap();
    assert_eq!((price.mantissa(), price.scale()), (4_300_000_000_000, 8));
    assert_eq!((deviation.mantissa(), deviation.scale()), (1_000_000_000, 8));
    assert_eq!(sb.get_slot(&at.usdt), Some(8));
    assert_eq!(sb.get_timestamp(&at.usdt), Some(9));
    let mut bare = LiteSVM::default();
    let mut none = Switchboard::new(&mut bare);
    assert!(matches!(
        none.create_standard_feeds_at(at),
        Err(ShadowOracleError::ProviderNotAvailable(_))
    ));
}

use litesvm::LiteSVM;
use shadow_oracle::providers::chainlink::ChainlinkFeed;
use shadow_oracle::{
    Address, Chainlink, ClockReading, Decimal, PriceConf, ShadowOracleError,
};
use solana_clock::Clock;

fn usd(amount: Decimal) -> f64 {
    amount.mantissa() as f64 / 10f64.powi(amount.scale() as i32)
}

fn hundred() -> PriceConf {
    PriceConf::new_usd(Decimal::new(100, 0), Decimal::new(1, 1))
}

#[test]
fn chainlink_test_create_price_feed() {
    let mut svm = LiteSVM::new().with_sysvars();
    let mut cl = Chainlink::new(&mut svm);

    let feed = cl.create_price_feed(hundred()).unwrap();

    let price = cl.get_price(&feed).unwrap();
    assert!((usd(price) - 100.0).abs() < 0.001);
}

#[test]
fn chainlink_test_update_price() {
    let mut svm = LiteSVM::new().with_sysvars();
    let mut cl = Chainlink::new(&mut svm);

    let feed = cl.create_price_feed(hundred()).unwrap();
    cl.set_price(&feed, Decimal::new(150, 0)).unwrap();

    let price = cl.get_price(&feed).unwrap();
    assert!((usd(price) - 150.0).abs() < 0.001);
}

#[test]
fn test_round_increment() {
    let mut svm = LiteSVM::new().with_sysvars();
    let mut cl = Chainlink::new(&mut svm);

    let feed = cl.create_price_feed(hundred()).unwrap();
    assert_eq!(cl.get_latest_round(&feed), Some(1));

    cl.set_price(&feed, Decimal::new(110, 0)).unwrap();
    assert_eq!(cl.get_latest_round(&feed), Some(2));

    cl.set_price(&feed, Decimal::new(120, 0)).unwrap();
    assert_eq!(cl.get_latest_round(&feed), Some(3));
}

#[test]
fn chainlink_test_standard_feeds() {
    let mut svm = LiteSVM::new().with_sysvars();
    let mut cl = Chainlink::new(&mut svm);

    let feeds = cl.create_standard_feeds().unwrap();

    let sol_price = cl.get_price(&feeds.sol).unwrap();
    assert!((usd(sol_price) - 100.0).abs() < 0.001);

    let usdc_price = cl.get_price(&feeds.usdc).unwrap();
    assert!((usd(usdc_price) - 1.0).abs() < 0.001);
}

#[test]
fn chainlink_test_simulate_crash() {
    let mut svm = LiteSVM::new().with_sysvars();
    let mut cl = Chainlink::new(&mut svm);

    let feed = cl.create_price_feed(hundred()).unwrap();
    cl.simulate_crash(&feed, Decimal::new(50, 0)).unwrap();

    let price = cl.get_price(&feed).unwrap();
    assert!((usd(price) - 50.0).abs() < 0.001);
}

#[test]
fn test_decimals() {
    let mut svm = LiteSVM::new().with_sysvars();
    let mut cl = Chainlink::new(&mut svm);

    let conf = hundred().with_decimals(6);
    let feed = cl.create_price_feed(conf).unwrap();

    assert_eq!(cl.get_decimals(&feed), Some(6));

    let answer = cl.get_latest_answer(&feed).unwrap();
    assert_eq!(answer, 100_000_000); // 100 * 10^6
}

#[test]
fn chainlink_crash_is_exactly_half() {
    let mut svm = LiteSVM::new();
    let mut cl = Chainlink::new(&mut svm);
    let feed = cl.create_price_feed(hundred()).unwrap();
    cl.simulate_crash(&feed, Decimal::new(50, 0)).unwrap();
    let price = cl.get_price(&feed).unwrap();
    // 100.00000000 times 0.50: the product keeps the digits of both
    assert_eq!((price.mantissa(), price.scale()), (500_000_000_000, 10));
    assert_eq!(cl.get_latest_answer(&feed), Some(5_000_000_000));
    assert_eq!(cl.get_latest_round(&feed), Some(2));
    let (usd_price, zero) = cl.get_price_usd(&feed).unwrap();
    assert_eq!(usd_price, price);
    assert_eq!((zero.mantissa(), zero.scale()), (0, 0));
}

#[test]
fn chainlink_crash_keeps_the_digits_it_needs() {
    // one dollar held without fractional digits, crashed by half, is half a dollar
    let mut svm = LiteSVM::new();
    let mut cl = Chainlink::new(&mut svm);
    let feed = cl.create_price_feed(PriceConf::stablecoin().with_expo(0).with_decimals(2)).unwrap();
    cl.set_price(&feed, Decimal::new(1, 0)).unwrap();
    cl.simulate_crash(&feed, Decimal::new(50, 0)).unwrap();
    let price = cl.get_price(&feed).unwrap();
    assert_eq!((price.mantissa(), price.scale()), (50, 2));
    assert_eq!(cl.get_latest_answer(&feed), Some(50));
}

#[test]
fn chainlink_standard_feeds_at_given_addresses() {
    let mut svm = LiteSVM::new();
    let mut clock = svm.get_sysvar::<Clock>();
    clock.slot = 5;
    clock.unix_timestamp = 6;
    svm.set_sysvar(&clock);
    let mut cl = Chainlink::new(&mut svm);
    let at = shadow_oracle::StandardFeeds {
        sol: Address::new([1u8; 32]),
        btc: Address::new([2u8; 32]),
        eth: Address::new([3u8; 32]),
        usdc: Address::new([4u8; 32]),
        usdt: Address::new([5u8; 32]),
    };
    let made = cl.create_standard_feeds_at(at).unwrap();
    assert_eq!(made.sol, at.sol);
    assert_eq!(made.usdt, at.usdt);
    assert_eq!(cl.get_latest_answer(&at.sol), Some(10_000_000_000));
    assert_eq!(cl.get_latest_answer(&at.btc), Some(4_300_000_000_000));
    assert_eq!(cl.get_latest_answer(&at.eth), Some(220_000_000_000));
    assert_eq!(cl.get_latest_answer(&at.usdc), Some(100_000_000));
    assert_eq!(cl.get_latest_answer(&at.usdt), Some(100_000_000));
    assert_eq!(cl.get_latest_round(&at.eth), Some(1));
    // where two addresses are the same, the later feed stands there
    let twice = shadow_oracle::StandardFeeds { btc: at.sol, ..at };
    cl.create_standard_feeds_at(twice).unwrap();
    assert_eq!(cl.get_latest_answer(&at.sol), Some(4_300_000_000_000));
}

#[test]
fn chainlink_depeg_and_usd_alias_set_the_price() {
    let mut svm = LiteSVM::new();
    let mut cl = Chainlink::new(&mut svm);
    let feed = cl.create_price_feed(PriceConf::stablecoin()).unwrap();
    cl.simulate_depeg(&feed, Decimal::new(95, 2)).unwrap();
    assert_eq!(cl.get_price(&feed), Some(Decimal::new(95, 2)));
    assert_eq!(cl.get_latest_answer(&feed), Some(95_000_000));
    cl.set_price_usd(&feed, Decimal::new(101, 2), Decimal::new(7, 0)).unwrap();
    assert_eq!(cl.get_price(&feed), Some(Decimal::new(101, 2)));
    assert_eq!(cl.get_latest_round(&feed), Some(3));
}

#[test]
fn chainlink_unknown_feed() {
    let mut svm = LiteSVM::new();
    let mut cl = Chainlink::new(&mut svm);
    let nowhere = Address::new([7u8; 32]);
    let text = solana_pubkey::Pubkey::new_from_array([7u8; 32]).to_string();
    assert_eq!(cl.get_price(&nowhere), None);
    assert!(cl.get_price_usd(&nowhere).is_none());
    assert_eq!(cl.get_latest_answer(&nowhere), None);
    assert_eq!(cl.get_decimals(&nowhere), None);
    assert_eq!(cl.get_latest_round(&nowhere), None);
    match cl.set_price(&nowhere, Decimal::new(1, 0)) {
        Err(ShadowOracleError::PriceFeedNotFound(address)) => assert_eq!(address, text),
        other => panic!("{:?}", other),
    }
    assert!(matches!(
        cl.simulate_crash(&nowhere, Decimal::new(50, 0)),
        Err(ShadowOracleError::PriceFeedNotFound(_))
    ));
    assert!(matches!(
        cl.simulate_depeg(&nowhere, Decimal::new(1, 0)),
        Err(ShadowOracleError::PriceFeedNotFound(_))
    ));
}

#[test]
fn chainlink_needs_a_clock() {
    // a sandbox without system variables has no clock to read
    let mut svm = LiteSVM::default();
    let mut cl = Chainlink::new(&mut svm);
    match cl.create_price_feed(hundred()) {
        Err(ShadowOracleError::ProviderNotAvailable(what)) => assert_eq!(what, "clock sysvar"),
        other => panic!("{:?}", other),
    }
    assert!(matches!(
        cl.create_standard_feeds(),
        Err(ShadowOracleError::ProviderNotAvailable(_))
    ));
    let at = shadow_oracle::StandardFeeds {
        sol: Address::new([1u8; 32]),
        btc: Address::new([2u8; 32]),
        eth: Address::new([3u8; 32]),
        usdc: Address::new([4u8; 32]),
        usdt: Address::new([5u8; 32]),
    };
    match cl.create_standard_feeds_at(at) {
        Err(ShadowOracleError::ProviderNotAvailable(what)) => assert_eq!(what, "clock sysvar"),
        other => panic!("{:?}", other),
    }
    assert_eq!(cl.get_price(&at.sol), None);
}

#[test]
fn chainlink_reads_the_sandbox_clock() {
    let mut svm = LiteSVM::new();
    let mut clock = svm.get_sysvar::<Clock>();
    clock.slot = 77;
    clock.unix_timestamp = 1_700_000_000;
    svm.set_sysvar(&clock);
    let address = Address::new([4u8; 32]);
    {
        let mut cl = Chainlink::new(&mut svm);
        cl.create_price_feed_at(address, hundred()).unwrap();
    }
    let account = svm.get_account(&solana_pubkey::Pubkey::new_from_array([4u8; 32])).unwrap();
    let program: solana_pubkey::Pubkey =
        shadow_oracle::providers::chainlink::CHAINLINK_PROGRAM_ID.parse().unwrap();
    assert_eq!(account.owner, program);
    let data = account.data;
    assert_eq!(data.len(), 960);
    assert_eq!(u64::from_le_bytes(data[192..200].try_into().unwrap()), 77);
    assert_eq!(u32::from_le_bytes(data[200..204].try_into().unwrap()), 1_700_000_000);
}

#[test]
fn chainlink_clock_of_the_sandbox() {
    let mut svm = LiteSVM::default();
    assert!(Chainlink::new(&mut svm).read_clock().is_none());
    let mut svm = LiteSVM::new();
    let clock = svm.get_sysvar::<Clock>();
    let reading = Chainlink::new(&mut svm).read_clock().unwrap();
    assert_eq!((reading.slot, reading.unix_timestamp), (clock.slot, clock.unix_timestamp));
}

#[test]
fn chainlink_record_bytes_follow_the_cursor() {
    let clock = ClockReading { slot: 12, unix_timestamp: 1_700_000_000 };
    let conf = PriceConf::new_usd(Decimal::new(-25, 1), Decimal::new(0, 0)).with_decimals(6);
    let mut feed = ChainlinkFeed::from_conf(&conf, &clock);
    assert_eq!(feed.round_id, 1);
    assert_eq!(feed.slot, 12);
    assert_eq!(feed.timestamp, 1_700_000_000);
    assert_eq!(feed.get_answer(), -2_500_000);

    let check = |feed: &ChainlinkFeed, cursor: usize| {
        let data = feed.to_bytes();
        assert_eq!(data.len(), 960);
        assert_eq!(data[0], 1);
        assert_eq!(data[1], 1);
        assert!(data[2..130].iter().all(|b| *b == 0));
        assert_eq!(data[130], 6);
        assert_eq!(u32::from_le_bytes(data[131..135].try_into().unwrap()), 1000);
        assert_eq!(u32::from_le_bytes(data[135..139].try_into().unwrap()), feed.round_id);
        assert_eq!(data[139], 0);
        assert_eq!(data[140], 0);
        assert_eq!(data[141], 1);
        assert_eq!(u32::from_le_bytes(data[142..146].try_into().unwrap()), 16);
        assert!(data[146..150].iter().all(|b| *b == 0));
        assert_eq!(u32::from_le_bytes(data[150..154].try_into().unwrap()), cursor as u32);
        assert!(data[154..192].iter().all(|b| *b == 0));
        let at = 192 + cursor * 48;
        assert!(data[192..at].iter().all(|b| *b == 0));
        assert_eq!(u64::from_le_bytes(data[at..at + 8].try_into().unwrap()), feed.slot);
        assert_eq!(
            u32::from_le_bytes(data[at + 8..at + 12].try_into().unwrap()),
            feed.timestamp
        );
        assert!(data[at + 12..at + 16].iter().all(|b| *b == 0));
        assert_eq!(
            i128::from_le_bytes(data[at + 16..at + 32].try_into().unwrap()),
            feed.get_answer()
        );
        assert_eq!(data[at + 32], 3);
        assert_eq!(data[at + 33], 3);
        assert!(data[at + 34..].iter().all(|b| *b == 0));
    };
    check(&feed, 0);
    let later = ClockReading { slot: 13, unix_timestamp: 1_700_000_001 };
    feed.set_price(Decimal::new(3, 0), &later);
    assert_eq!((feed.round_id, feed.slot, feed.timestamp), (2, 13, 1_700_000_001));
    check(&feed, 1);
    feed.round_id = 16;
    check(&feed, 15);
    feed.round_id = 17;
    check(&feed, 0);
    feed.round_id = 0;
    check(&feed, 15);
}

#[test]
fn chainlink_time_keeps_the_low_32_bits() {
    let clock = ClockReading { slot: 1, unix_timestamp: -1 };
    let feed = ChainlinkFeed::from_conf(&PriceConf::stablecoin(), &clock);
    assert_eq!(feed.timestamp, u32::MAX);
    let feed = ChainlinkFeed::from_conf(
        &PriceConf::stablecoin().stale_by(0, (1i64 << 32) + 5),
        &clock,
    );
    assert_eq!(feed.timestamp, 5);
}

use litesvm::LiteSVM;
use shadow_oracle::providers::pyth::{pyth_status, PythPriceAccount};
use shadow_oracle::{Address, Decimal, PriceConf, PriceStatus, Pyth, ShadowOracleError};

fn usd(amount: Decimal) -> f64 {
    amount.mantissa() as f64 / 10f64.powi(amount.scale() as i32)
}

#[test]
fn pyth_test_create_price_feed() {
    let mut svm = LiteSVM::default();
    let mut pyth = Pyth::new(&mut svm);

    let feed = pyth
        .create_price_feed(PriceConf::new_usd(Decimal::new(100, 0), Decimal::new(1, 1)))
        .unwrap();

    let (price, conf) = pyth.get_price(&feed).unwrap();
    assert_eq!(price, 10000000000);
    assert_eq!(conf, 10000000);
}

#[test]
fn pyth_test_update_price() {
    let mut svm = LiteSVM::default();
    let mut pyth = Pyth::new(&mut svm);

    let feed = pyth
        .create_price_feed(PriceConf::new_usd(Decimal::new(100, 0), Decimal::new(1, 1)))
        .unwrap();
    pyth.set_price_usd(&feed, Decimal::new(150, 0), Decimal::new(2, 1)).unwrap();

    let (price, _) = pyth.get_price_usd(&feed).unwrap();
    assert!((usd(price) - 150.0).abs() < 0.001);
}

#[test]
fn pyth_test_standard_feeds() {
    let mut svm = LiteSVM::default();
    let mut pyth = Pyth::new(&mut svm);

    let feeds = pyth.create_standard_feeds().unwrap();

    let (sol_price, _) = pyth.get_price_usd(&feeds.sol).unwrap();
    assert!((usd(sol_price) - 100.0).abs() < 0.001);

    let (usdc_price, _) = pyth.get_price_usd(&feeds.usdc).unwrap();
    assert!((usd(usdc_price) - 1.0).abs() < 0.001);
}

#[test]
fn pyth_test_simulate_crash() {
    let mut svm = LiteSVM::default();
    let mut pyth = Pyth::new(&mut svm);

    let feed = pyth
        .create_price_feed(PriceConf::new_usd(Decimal::new(100, 0), Decimal::new(1, 1)))
        .unwrap();
    pyth.simulate_crash(&feed, Decimal::new(50, 0)).unwrap();

    let (price, _) = pyth.get_price_usd(&feed).unwrap();
    assert!((usd(price) - 50.0).abs() < 0.001);
}

#[test]
fn test_simulate_depeg() {
    let mut svm = LiteSVM::default();
    let mut pyth = Pyth::new(&mut svm);

    let feed = pyth.create_price_feed(PriceConf::stablecoin()).unwrap();
    pyth.simulate_depeg(&feed, Decimal::new(95, 2)).unwrap();

    let (price, _) = pyth.get_price_usd(&feed).unwrap();
    assert!((usd(price) - 0.95).abs() < 0.001);
}

#[test]
fn pyth_scenario_create_update_crash_depeg() {
    let mut svm = LiteSVM::default();
    let mut pyth = Pyth::new(&mut svm);
    let feed = pyth
        .create_price_feed(PriceConf::new_usd(Decimal::new(100, 0), Decimal::new(1, 1)))
        .unwrap();
    assert_eq!(pyth.get_price(&feed), Some((10_000_000_000, 10_000_000)));

    pyth.set_price_usd(&feed, Decimal::new(150, 0), Decimal::new(2, 1)).unwrap();
    assert_eq!(pyth.get_price(&feed), Some((15_000_000_000, 20_000_000)));

    pyth.simulate_crash(&feed, Decimal::new(50, 0)).unwrap();
    assert_eq!(pyth.get_price(&feed), Some((7_500_000_000, 100_000_000)));

    let peg = pyth.create_price_feed(PriceConf::stablecoin()).unwrap();
    pyth.simulate_depeg(&peg, Decimal::new(95, 2)).unwrap();
    assert_eq!(pyth.get_price(&peg), Some((95_000_000, 600_000)));
}

#[test]
fn pyth_crash_lowers_price_and_widens_confidence() {
    let mut svm = LiteSVM::default();
    let mut pyth = Pyth::new(&mut svm);
    let feed = pyth.create_price_feed(PriceConf::standard_btc()).unwrap();
    let (price, conf) = pyth.get_price(&feed).unwrap();
    // 12.5 per cent
    pyth.simulate_crash(&feed, Decimal::new(125, 1)).unwrap();
    let (after_price, after_conf) = pyth.get_price(&feed).unwrap();
    assert!(after_price < price);
    assert!(after_conf > conf);
    assert_eq!(after_price, 3_762_500_000_000);
    assert_eq!(after_conf, 5_000_000_000);
}

#[test]
fn pyth_unknown_feed_is_reported_by_its_address() {
    let mut svm = LiteSVM::default();
    let mut pyth = Pyth::new(&mut svm);
    let nowhere = Address::new([7u8; 32]);
    let text = solana_pubkey::Pubkey::new_from_array([7u8; 32]).to_string();

    assert_eq!(pyth.get_price(&nowhere), None);
    assert!(pyth.get_price_usd(&nowhere).is_none());
    match pyth.set_price(&nowhere, 1, 1) {
        Err(ShadowOracleError::PriceFeedNotFound(address)) => assert_eq!(address, text),
        other => panic!("{:?}", other),
    }
    assert!(matches!(
        pyth.set_price_usd(&nowhere, Decimal::new(1, 0), Decimal::new(1, 0)),
        Err(ShadowOracleError::PriceFeedNotFound(_))
    ));
    assert!(matches!(
        pyth.set_status(&nowhere, PriceStatus::Halted),
        Err(ShadowOracleError::PriceFeedNotFound(_))
    ));
    assert!(matches!(
        pyth.simulate_crash(&nowhere, Decimal::new(50, 0)),
        Err(ShadowOracleError::PriceFeedNotFound(_))
    ));
    assert!(matches!(
        pyth.simulate_depeg(&nowhere, Decimal::new(95, 2)),
        Err(ShadowOracleError::PriceFeedNotFound(_))
    ));
}

#[test]
fn pyth_account_is_written_through() {
    let mut svm = LiteSVM::default();
    let address = Address::new([9u8; 32]);
    let owner = Address::new([3u8; 32]);
    let conf = PriceConf::stablecoin().stale_by(0, 1_700_000_000);
    {
        let mut pyth = Pyth::with_program_id(&mut svm, owner);
        assert_eq!(pyth.create_price_feed_at(address, conf).unwrap(), address);
        pyth.set_price(&address, 99_000_000, 20_000).unwrap();
        pyth.set_status(&address, PriceStatus::Halted).unwrap();
    }
    let account = svm.get_account(&solana_pubkey::Pubkey::new_from_array([9u8; 32])).unwrap();
    assert_eq!(account.owner, solana_pubkey::Pubkey::new_from_array([3u8; 32]));
    assert_eq!(account.lamports, 1_000_000_000);
    assert!(!account.executable);
    assert_eq!(account.rent_epoch, 0);
    let data = account.data;
    assert_eq!(data.len(), 208);
    assert_eq!(u32::from_le_bytes(data[0..4].try_into().unwrap()), 0xa1b2c3d4);
    assert_eq!(u64::from_le_bytes(data[32..40].try_into().unwrap()), 1001);
    assert_eq!(i64::from_le_bytes(data[176..184].try_into().unwrap()), 99_000_000);
    assert_eq!(u64::from_le_bytes(data[184..192].try_into().unwrap()), 20_000);
    assert_eq!(u32::from_le_bytes(data[192..196].try_into().unwrap()), 2);
}

#[test]
fn pyth_slot_of_a_feed() {
    let mut svm = LiteSVM::default();
    let mut pyth = Pyth::new(&mut svm);
    let feed = pyth.create_price_feed(PriceConf::stablecoin()).unwrap();
    assert_eq!(pyth.get_slot(&feed), Some(1000));
    pyth.simulate_depeg(&feed, Decimal::new(99, 2)).unwrap();
    assert_eq!(pyth.get_slot(&feed), Some(1001));
    assert_eq!(pyth.get_slot(&Address::new([0u8; 32])), None);
}

#[test]
fn pyth_create_at_overwrites() {
    let mut svm = LiteSVM::default();
    let mut pyth = Pyth::new(&mut svm);
    let address = Address::new([1u8; 32]);
    pyth.create_price_feed_at(address, PriceConf::standard_sol()).unwrap();
    pyth.set_price(&address, 1, 1).unwrap();
    pyth.create_price_feed_at(address, PriceConf::standard_btc()).unwrap();
    assert_eq!(pyth.get_price(&address), Some((4_300_000_000_000, 1_000_000_000)));
}

#[test]
fn pyth_default_owner_is_the_program() {
    let mut svm = LiteSVM::default();
    let feed;
    {
        let mut pyth = Pyth::new(&mut svm);
        feed = pyth.create_price_feed(PriceConf::stablecoin()).unwrap();
    }
    let account = svm.get_account(&solana_pubkey::Pubkey::new_from_array(feed.to_bytes())).unwrap();
    let program: solana_pubkey::Pubkey =
        shadow_oracle::providers::pyth::PYTH_PROGRAM_ID.parse().unwrap();
    assert_eq!(account.owner, program);
    assert_eq!(shadow_oracle::providers::pyth::pyth_program_id().to_bytes(), program.to_bytes());
}

#[test]
fn pyth_status_codes() {
    assert_eq!(pyth_status(PriceStatus::Unknown), 0);
    assert_eq!(pyth_status(PriceStatus::Trading), 1);
    assert_eq!(pyth_status(PriceStatus::Halted), 2);
    assert_eq!(pyth_status(PriceStatus::Auction), 3);
}

#[test]
fn pyth_record_from_configuration() {
    let mut conf = PriceConf::standard_sol();
    conf.publish_time = Some(1_700_000_000);
    conf.ema_price = Some(9_000_000_000);
    let account = PythPriceAccount::from_conf(&conf);
    assert_eq!(account.magic, 0xa1b2c3d4);
    assert_eq!(account.ver, 2);
    assert_eq!(account.atype, 3);
    assert_eq!(account.size, 208);
    assert_eq!(account.price_type, 1);
    assert_eq!(account.expo, -8);
    assert_eq!((account.num, account.num_qt, account.min_pub), (1, 1, 1));
    assert_eq!((account.last_slot, account.valid_slot, account.prev_slot), (1000, 1000, 999));
    assert_eq!(account.agg.pub_slot, 1000);
    assert_eq!((account.ema_price, account.ema_conf), (9_000_000_000, 10_000_000));
    assert_eq!((account.timestamp, account.prev_timestamp), (1_700_000_000, 1_700_000_000));
    assert_eq!((account.prev_price, account.prev_conf), (10_000_000_000, 10_000_000));
    assert_eq!((account.agg.price, account.agg.conf), (10_000_000_000, 10_000_000));
    assert_eq!((account.agg.status, account.agg.corp_act), (1, 0));

    let now = PythPriceAccount::from_conf(&PriceConf::standard_sol());
    assert!(now.timestamp > 1_600_000_000);
    assert_eq!(now.ema_price, 10_000_000_000);
}

#[test]
fn pyth_record_update_shifts_and_counts() {
    let conf = PriceConf::standard_sol().stale_by(0, 1_700_000_000);
    let mut account = PythPriceAccount::from_conf(&conf);
    account.set_price_at(11_000_000_000, 30_000_000, 1_700_000_060);
    assert_eq!((account.prev_price, account.prev_conf), (10_000_000_000, 10_000_000));
    assert_eq!((account.prev_timestamp, account.prev_slot), (1_700_000_000, 1000));
    assert_eq!((account.agg.price, account.agg.conf), (11_000_000_000, 30_000_000));
    assert_eq!((account.last_slot, account.valid_slot, account.agg.pub_slot), (1001, 1001, 1001));
    assert_eq!(account.timestamp, 1_700_000_060);
    // (10_000_000_000 * 9 + 11_000_000_000) / 10 and (10_000_000 * 9 + 30_000_000) / 10
    assert_eq!((account.ema_price, account.ema_conf), (10_100_000_000, 12_000_000));

    account.set_price(11_000_000_000, 30_000_000);
    assert_eq!((account.last_slot, account.prev_slot), (1002, 1001));
    assert!(account.timestamp > 1_600_000_000);

    account.set_status(PriceStatus::Auction);
    assert_eq!(account.agg.status, 3);
    assert_eq!(account.agg.price, 11_000_000_000);
}

#[test]
fn pyth_record_bytes_at_fixed_offsets() {
    let mut conf = PriceConf::new_usd(Decimal::new(-5, 0), Decimal::new(1, 1));
    conf.publish_time = Some(-2);
    conf.expo = -8;
    let account = PythPriceAccount::from_conf(&conf);
    let data = account.to_bytes();
    assert_eq!(data.len(), 208);
    let u32_at = |at: usize| u32::from_le_bytes(data[at..at + 4].try_into().unwrap());
    let u64_at = |at: usize| u64::from_le_bytes(data[at..at + 8].try_into().unwrap());
    let i64_at = |at: usize| i64::from_le_bytes(data[at..at + 8].try_into().unwrap());
    assert_eq!(u32_at(0), 0xa1b2c3d4);
    assert_eq!(u32_at(4), 2);
    assert_eq!(u32_at(8), 3);
    assert_eq!(u32_at(12), 208);
    assert_eq!(u32_at(16), 1);
    assert_eq!(i32::from_le_bytes(data[20..24].try_into().unwrap()), -8);
    assert_eq!(u32_at(24), 1);
    assert_eq!(u32_at(28), 1);
    assert_eq!(u64_at(32), 1000);
    assert_eq!(u64_at(40), 1000);
    assert_eq!(i64_at(48), -500_000_000);
    assert_eq!(u64_at(56), 10_000_000);
    assert_eq!(i64_at(64), -2);
    assert_eq!(data[72], 1);
    assert!(data[73..144].iter().all(|b| *b == 0));
    assert_eq!(u64_at(144), 999);
    assert_eq!(i64_at(152), -500_000_000);
    assert_eq!(u64_at(160), 10_000_000);
    assert_eq!(i64_at(168), -2);
    assert_eq!(i64_at(176), -500_000_000);
    assert_eq!(u64_at(184), 10_000_000);
    assert_eq!(u32_at(192), 1);
    assert_eq!(u32_at(196), 0);
    assert_eq!(u64_at(200), 1000);
    // the same bytes as the native structure, read back field by field
    assert_eq!(bytemuck::pod_read_unaligned::<i64>(&data[176..184]), -500_000_000);
    assert_eq!(bytemuck::pod_read_unaligned::<u32>(&data[0..4]), 0xa1b2c3d4);
}

#[test]
fn pyth_each_update_adds_one_slot() {
    let mut svm = LiteSVM::default();
    let address = Address::new([5u8; 32]);
    {
        let mut pyth = Pyth::new(&mut svm);
        pyth.create_price_feed_at(address, PriceConf::stablecoin()).unwrap();
        pyth.set_price(&address, 1, 1).unwrap();
        pyth.set_price(&address, 2, 2).unwrap();
        pyth.set_price(&address, 3, 3).unwrap();
    }
    let data = svm.get_account(&solana_pubkey::Pubkey::new_from_array([5u8; 32])).unwrap().data;
    assert_eq!(u64::from_le_bytes(data[32..40].try_into().unwrap()), 1003);
    assert_eq!(u64::from_le_bytes(data[40..48].try_into().unwrap()), 1003);
    assert_eq!(u64::from_le_bytes(data[144..152].try_into().unwrap()), 1002);
    assert_eq!(u64::from_le_bytes(data[200..208].try_into().unwrap()), 1003);
}

#[test]
fn pyth_refused_write_changes_nothing() {
    // the slot hashes are a list: the head of a price account reads as a length far too large
    let hashes: solana_pubkey::Pubkey =
        "SysvarS1otHashes111111111111111111111111111".parse().unwrap();
    let mut svm = LiteSVM::new();
    let before = svm.get_account(&hashes);
    {
        let mut pyth = Pyth::new(&mut svm);
        let address = Address::new(hashes.to_bytes());
        match pyth.create_price_feed_at(address, PriceConf::stablecoin()) {
            Err(ShadowOracleError::SerializationError(what)) => {
                assert_eq!(what, "Failed to set account")
            }
            other => panic!("{:?}", other),
        }
        assert_eq!(pyth.get_price(&address), None);
        assert!(matches!(
            pyth.set_price(&address, 1, 1),
            Err(ShadowOracleError::PriceFeedNotFound(_))
        ));
    }
    assert!(svm.get_account(&hashes) == before);
}

#[test]
fn pyth_dollars_follow_the_exponent_of_the_feed() {
    // a 100 dollar feed at exponent -6
    let mut svm = LiteSVM::default();
    let mut pyth = Pyth::new(&mut svm);
    let conf = PriceConf { price: 100_000_000, conf: 100_000, ..PriceConf::default() }.with_expo(-6);
    let feed = pyth.create_price_feed(conf).unwrap();
    pyth.set_price_usd(&feed, Decimal::new(150, 0), Decimal::new(2, 1)).unwrap();
    assert_eq!(pyth.get_price(&feed), Some((150_000_000, 200_000)));
    let (price, confidence) = pyth.get_price_usd(&feed).unwrap();
    assert_eq!((price.mantissa(), price.scale()), (150_000_000, 6));
    assert_eq!((confidence.mantissa(), confidence.scale()), (200_000, 6));
    pyth.simulate_depeg(&feed, Decimal::new(95, 2)).unwrap();
    assert_eq!(pyth.get_price(&feed), Some((950_000, 6_000)));
    // a confidence beyond 64 signed bits is held with one digit less
    pyth.set_price(&feed, 1, u64::MAX).unwrap();
    let (_, confidence) = pyth.get_price_usd(&feed).unwrap();
    assert_eq!((confidence.mantissa(), confidence.scale()), (1_844_674_407_370_955_161, 5));
}

#[test]
fn pyth_standard_feeds_at_given_addresses() {
    let mut svm = LiteSVM::default();
    let mut pyth = Pyth::new(&mut svm);
    let at = shadow_oracle::StandardFeeds {
        sol: Address::new([1u8; 32]),
        btc: Address::new([2u8; 32]),
        eth: Address::new([3u8; 32]),
        usdc: Address::new([4u8; 32]),
        usdt: Address::new([5u8; 32]),
    };
    let made = pyth.create_standard_feeds_at(at).unwrap();
    assert_eq!(made.sol, at.sol);
    assert_eq!(pyth.get_price(&at.sol), Some((10_000_000_000, 10_000_000)));
    assert_eq!(pyth.get_price(&at.btc), Some((4_300_000_000_000, 1_000_000_000)));
    assert_eq!(pyth.get_price(&at.eth), Some((220_000_000_000, 100_000_000)));
    assert_eq!(pyth.get_price(&at.usdc), Some((100_000_000, 10_000)));
    assert_eq!(pyth.get_price(&at.usdt), Some((100_000_000, 10_000)));
    // a refused write stops the creation: the feeds before it stay
    let hashes: solana_pubkey::Pubkey =
        "SysvarS1otHashes111111111111111111111111111".parse().unwrap();
    let refused = shadow_oracle::StandardFeeds {
        sol: Address::new([6u8; 32]),
        btc: Address::new(hashes.to_bytes()),
        ..at
    };
    assert!(matches!(
        pyth.create_standard_feeds_at(refused),
        Err(ShadowOracleError::SerializationError(_))
    ));
    assert_eq!(pyth.get_price(&refused.sol), Some((10_000_000_000, 10_000_000)));
    assert_eq!(pyth.get_price(&refused.btc), None);
}

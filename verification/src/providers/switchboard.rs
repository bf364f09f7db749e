//! The large fixed aggregator buffer: 3851 bytes, of which a tag at the
//! head and the latest round are filled; and the registry of such buffers.

use crate::address::Address;
use crate::arith::{clamp, magnitude};
use crate::bytes::{
    i128_bytes, i64_bytes, le_i128, le_i64, overwritten, write_at, write_byte, zeroed, zeros,
};
use crate::decimal::{
    decimal_of, depeg_confidence, depeg_confidence_of, fits_mantissa, fitted, is_share,
    lemma_crash_lowers_decimal, lemma_crash_widens_always, lemma_crash_widens_decimal,
    lemma_mantissa_fits, scaled_value, shifted_decimal, stands_below, CRASH_CONFIDENCE_FACTOR,
    Decimal, MAX_SCALE,
};
use crate::error::ShadowOracleError;
use crate::ledger::{
    clock_of, fresh_address, registry_account, sandbox_clock, store_account, ClockReading,
};
use crate::price::{PriceConf, StandardFeeds};
use crate::substrate::{clock_address, is_reserved, svm_accounts, write_accepted};
use crate::table::FeedTable;
use vstd::bytes::{spec_u32_to_le_bytes, spec_u64_to_le_bytes, u32_to_le_bytes, u64_to_le_bytes};
use vstd::prelude::*;

verus! {

/// Text of the address of the program that owns the aggregators.
pub const SWITCHBOARD_PROGRAM_ID: &'static str = "SW1TCH7qEPTdLsDHRgPuMQjbQxKdH2aBStViMFnt64f";

/// Text of the address of the on-demand program.
pub const SWITCHBOARD_ON_DEMAND_PROGRAM_ID: &'static str =
    "SBondMDrcV3K4kxZR1HNVT7osZxAHVHgYXL5Ze1oMUv";

/// Length of the account in bytes.
pub const AGGREGATOR_SIZE: usize = 3851;

/// Offset of the latest round.
pub const ROUND_OFFSET: usize = 1144;

/// Offset of the price result within the account.
pub const RESULT_OFFSET: usize = 1169;

/// Offset of the standard deviation within the account.
pub const DEVIATION_OFFSET: usize = 1201;

/// Count of successful responses that every round carries.
pub const NUM_SUCCESS: u32 = 3;

/// The tag at the head of every aggregator account.
pub open spec fn aggregator_discriminator() -> Seq<u8> {
    seq![217u8, 230, 65, 101, 201, 162, 27, 125]
}

/// One aggregator: its price and standard deviation in dollars, the decimal
/// count of its results, and the slot, time and round of its latest round.
#[derive(Debug, Clone, Copy)]
pub struct SwitchboardAggregator {
    pub price: Decimal,
    pub std_deviation: Decimal,
    pub decimals: u8,
    pub slot: u64,
    pub timestamp: i64,
    pub round_id: u32,
}

impl SwitchboardAggregator {
    /// The aggregator that a configuration gives under a clock reading:
    /// round one, at the clock's slot, at the configuration's publish time or
    /// else the clock's time.
    pub open spec fn created(
        conf: PriceConf,
        clock: ClockReading,
        price: Decimal,
        std_deviation: Decimal,
    ) -> SwitchboardAggregator {
        SwitchboardAggregator {
            price,
            std_deviation,
            decimals: conf.decimals,
            slot: clock.slot,
            timestamp: match conf.publish_time {
                Some(t) => t,
                None => clock.unix_timestamp,
            },
            round_id: 1,
        }
    }

    /// Whether this is the aggregator that `conf` gives under `clock`.
    pub open spec fn is_created_under(self, conf: PriceConf, clock: ClockReading) -> bool {
        &&& self == Self::created(conf, clock, self.price, self.std_deviation)
        &&& self.price@ == decimal_of(conf.price as int, magnitude(conf.expo as int))
        &&& self.std_deviation@ == fitted(conf.conf as int, magnitude(conf.expo as int))
    }

    /// Whether this is an aggregator that `conf` gives under some clock.
    pub open spec fn is_created_from(self, conf: PriceConf) -> bool {
        self.is_created_under(
            PriceConf { publish_time: Some(self.timestamp), ..conf },
            ClockReading { slot: self.slot, unix_timestamp: self.timestamp },
        )
    }

    /// Whether slot and time are those of `clock`.
    pub open spec fn is_at(self, clock: ClockReading) -> bool {
        self.slot == clock.slot && self.timestamp == clock.unix_timestamp
    }

    /// The aggregator after a round with `price` and `std_deviation` under a
    /// clock reading: the round goes up by one.
    pub open spec fn updated(
        self,
        price: Decimal,
        std_deviation: Decimal,
        clock: ClockReading,
    ) -> SwitchboardAggregator {
        SwitchboardAggregator {
            price,
            std_deviation,
            slot: clock.slot,
            round_id: (self.round_id + 1) as u32,
            timestamp: clock.unix_timestamp,
            ..self
        }
    }

    /// The aggregator with another time.
    pub open spec fn at_time(self, timestamp: i64) -> SwitchboardAggregator {
        SwitchboardAggregator { timestamp, ..self }
    }

    /// The mantissa of the price result: the price at the aggregator's
    /// decimal count, rounded toward zero and clamped into 128 signed bits.
    pub open spec fn mantissa(self) -> i128 {
        clamp(scaled_value(self.price@, self.decimals as nat), i128::MIN as int, i128::MAX as int)
            as i128
    }

    /// The mantissa of the standard deviation, likewise.
    pub open spec fn deviation_mantissa(self) -> i128 {
        clamp(
            scaled_value(self.std_deviation@, self.decimals as nat),
            i128::MIN as int,
            i128::MAX as int,
        ) as i128
    }

    /// The bytes of the account: the tag, then in the latest round the
    /// counts of responses, the closed flag, slot and time, and the two
    /// results, each a mantissa and a scale; every other byte is zero.
    pub open spec fn encoding(self) -> Seq<u8> {
        let b0 = zeroed(AGGREGATOR_SIZE as nat);
        let b1 = overwritten(b0, 0, aggregator_discriminator());
        let b2 = overwritten(b1, ROUND_OFFSET as int, spec_u32_to_le_bytes(NUM_SUCCESS));
        // errors: none
        let b3 = overwritten(b2, ROUND_OFFSET + 4, spec_u32_to_le_bytes(0));
        // closed
        let b4 = overwritten(b3, ROUND_OFFSET + 8, seq![1u8]);
        let b5 = overwritten(b4, ROUND_OFFSET + 9, spec_u64_to_le_bytes(self.slot));
        let b6 = overwritten(b5, ROUND_OFFSET + 17, le_i64(self.timestamp));
        let b7 = overwritten(b6, RESULT_OFFSET as int, le_i128(self.mantissa()));
        let b8 = overwritten(b7, RESULT_OFFSET + 16, spec_u32_to_le_bytes(self.decimals as u32));
        let b9 = overwritten(b8, DEVIATION_OFFSET as int, le_i128(self.deviation_mantissa()));
        overwritten(b9, DEVIATION_OFFSET + 16, spec_u32_to_le_bytes(self.decimals as u32))
    }

    /// Where the fields lie: no field is written over another, so each can
    /// be read back at its offset.
    pub proof fn lemma_field_offsets(self)
        ensures
            self.encoding().len() == AGGREGATOR_SIZE,
            self.encoding().subrange(0, 8) == aggregator_discriminator(),
            self.encoding().subrange(1144, 1148) == spec_u32_to_le_bytes(NUM_SUCCESS),
            self.encoding().subrange(1148, 1152) == spec_u32_to_le_bytes(0),
            self.encoding()[1152] == 1,
            self.encoding().subrange(1153, 1161) == spec_u64_to_le_bytes(self.slot),
            self.encoding().subrange(1161, 1169) == le_i64(self.timestamp),
            self.encoding().subrange(1169, 1185) == le_i128(self.mantissa()),
            self.encoding().subrange(1185, 1189) == spec_u32_to_le_bytes(self.decimals as u32),
            self.encoding().subrange(1201, 1217) == le_i128(self.deviation_mantissa()),
            self.encoding().subrange(1217, 1221) == spec_u32_to_le_bytes(self.decimals as u32),
    {
        crate::bytes::lemma_le_lengths();
        let e = self.encoding();
        assert(e.subrange(0, 8) =~= aggregator_discriminator());
        assert(e.subrange(1144, 1148) =~= spec_u32_to_le_bytes(NUM_SUCCESS));
        assert(e.subrange(1148, 1152) =~= spec_u32_to_le_bytes(0));
        assert(e.subrange(1153, 1161) =~= spec_u64_to_le_bytes(self.slot));
        assert(e.subrange(1161, 1169) =~= le_i64(self.timestamp));
        assert(e.subrange(1169, 1185) =~= le_i128(self.mantissa()));
        assert(e.subrange(1185, 1189) =~= spec_u32_to_le_bytes(self.decimals as u32));
        assert(e.subrange(1201, 1217) =~= le_i128(self.deviation_mantissa()));
        assert(e.subrange(1217, 1221) =~= spec_u32_to_le_bytes(self.decimals as u32));
    }

    /// The aggregator that a configuration gives under a clock reading.
    pub fn from_conf(conf: &PriceConf, clock: &ClockReading) -> (aggregator: Self)
        ensures
            aggregator.is_created_under(*conf, *clock),
    {
        let now = match conf.publish_time {
            Some(t) => t,
            None => clock.unix_timestamp,
        };
        SwitchboardAggregator {
            price: conf.price_usd(),
            std_deviation: conf.conf_usd(),
            decimals: conf.decimals,
            slot: clock.slot,
            timestamp: now,
            round_id: 1,
        }
    }

    /// Records a round with `price` and `std_deviation` under a clock reading.
    pub fn set_price(&mut self, price: Decimal, std_deviation: Decimal, clock: &ClockReading)
        requires
            old(self).round_id < u32::MAX,
        ensures
            *final(self) == old(self).updated(price, std_deviation, *clock),
    {
        self.price = price;
        self.std_deviation = std_deviation;
        self.slot = clock.slot;
        self.round_id = self.round_id + 1;
        self.timestamp = clock.unix_timestamp;
    }

    /// The bytes of the account.
    pub fn to_bytes(&self) -> (bytes: Vec<u8>)
        ensures
            bytes@ == self.encoding(),
            bytes@.len() == AGGREGATOR_SIZE,
    {
        let mut data = zeros(AGGREGATOR_SIZE);
        let mut tag: Vec<u8> = Vec::new();
        tag.push(217u8);
        tag.push(230u8);
        tag.push(65u8);
        tag.push(101u8);
        tag.push(201u8);
        tag.push(162u8);
        tag.push(27u8);
        tag.push(125u8);
        assert(tag@ =~= aggregator_discriminator());
        write_at(&mut data, 0, &tag);
        write_at(&mut data, ROUND_OFFSET, &u32_to_le_bytes(NUM_SUCCESS));
        write_at(&mut data, ROUND_OFFSET + 4, &u32_to_le_bytes(0));
        write_byte(&mut data, ROUND_OFFSET + 8, 1u8);
        write_at(&mut data, ROUND_OFFSET + 9, &u64_to_le_bytes(self.slot));
        write_at(&mut data, ROUND_OFFSET + 17, &i64_bytes(self.timestamp));

        let scale = self.decimals as u32;
        let mantissa = self.price.to_scaled(scale);
        write_at(&mut data, RESULT_OFFSET, &i128_bytes(mantissa));
        write_at(&mut data, RESULT_OFFSET + 16, &u32_to_le_bytes(scale));

        let deviation = self.std_deviation.to_scaled(scale);
        write_at(&mut data, DEVIATION_OFFSET, &i128_bytes(deviation));
        write_at(&mut data, DEVIATION_OFFSET + 16, &u32_to_le_bytes(scale));
        data
    }
}

/// Bytes of the address of the program that owns the aggregators.
pub open spec fn switchboard_program_address() -> Seq<u8> {
    seq![
        6u8, 136, 81, 198, 140, 104, 50, 240, 47, 165, 129, 177, 191, 73, 27, 119,
        202, 65, 119, 107, 162, 185, 136, 181, 166, 250, 186, 142, 227, 162, 236, 144,
    ]
}

/// The address of the program that owns the aggregators.
pub fn switchboard_program_id() -> (a: Address)
    ensures
        a@ == switchboard_program_address(),
{
    let a = Address::new(
        [
            6u8, 136, 81, 198, 140, 104, 50, 240, 47, 165, 129, 177, 191, 73, 27, 119,
            202, 65, 119, 107, 162, 185, 136, 181, 166, 250, 186, 142, 227, 162, 236, 144,
        ],
    );
    assert(a@ =~= switchboard_program_address());
    a
}

/// The registry of aggregators in one ledger sandbox.
pub struct Switchboard<'a> {
    svm: &'a mut litesvm::LiteSVM,
    price_feeds: FeedTable<SwitchboardAggregator>,
    program_id: Address,
}

impl<'a> Switchboard<'a> {
    /// The aggregators retained, by address.
    pub closed spec fn feeds(&self) -> Map<Seq<u8>, SwitchboardAggregator> {
        self.price_feeds@
    }

    /// The accounts that the sandbox holds, by address.
    pub closed spec fn accounts(&self) -> Map<Seq<u8>, (Seq<u8>, Seq<u8>, u64, bool, u64)> {
        svm_accounts(*self.svm)
    }

    /// The address of the program that the aggregators are written under.
    pub closed spec fn owner(&self) -> Seq<u8> {
        self.program_id@
    }

    /// Every retained aggregator stands in the sandbox, encoded in full,
    /// under the registry's program.
    pub closed spec fn wf(&self) -> bool {
        &&& self.price_feeds.wf()
        &&& forall|k: Seq<u8>| #[trigger]
            self.price_feeds@.contains_key(k) ==> svm_accounts(*self.svm).contains_key(k)
                && svm_accounts(*self.svm)[k] == registry_account(
                self.price_feeds@[k].encoding(),
                self.program_id@,
            ) && self.price_feeds@[k].price@.1 <= MAX_SCALE && self.price_feeds@[k].std_deviation@.1 <= MAX_SCALE
    }

    /// The sandbox's clock, where it has one to read.
    pub open spec fn clock(&self) -> Option<ClockReading> {
        clock_of(self.accounts())
    }

    /// What a registry in good order keeps is what the sandbox holds: every
    /// retained aggregator stands at its address as the full encoding of what
    /// is retained, under the registry's program, with the registries'
    /// balance.
    pub proof fn lemma_written_through(&self, address: Seq<u8>)
        requires
            self.wf(),
            self.feeds().contains_key(address),
        ensures
            self.accounts().contains_key(address),
            self.accounts()[address] == registry_account(
                self.feeds()[address].encoding(),
                self.owner(),
            ),
    {
    }

    /// The amounts that a registry in good order keeps have no more digits
    /// than a decimal carries.
    pub proof fn lemma_digits_bounded(&self, address: Seq<u8>)
        requires
            self.wf(),
            self.feeds().contains_key(address),
        ensures
            self.feeds()[address].price@.1 <= MAX_SCALE,
            self.feeds()[address].std_deviation@.1 <= MAX_SCALE,
    {
    }

    /// Nothing has changed since `before`.
    pub open spec fn same_as(&self, before: &Self) -> bool {
        &&& self.feeds() == before.feeds()
        &&& self.accounts() == before.accounts()
        &&& self.owner() == before.owner()
    }

    /// Since `before`, `aggregator` has been retained under `address` and
    /// written there, and nothing else has changed.
    pub open spec fn holds_since(
        &self,
        before: &Self,
        address: Seq<u8>,
        aggregator: SwitchboardAggregator,
    ) -> bool {
        &&& self.feeds() == before.feeds().insert(address, aggregator)
        &&& self.accounts() == before.accounts().insert(
            address,
            registry_account(aggregator.encoding(), before.owner()),
        )
        &&& self.owner() == before.owner()
    }

    /// What a failed creation says and leaves: the sandbox had no clock to
    /// read, or it had one and refused the write; nothing has changed.
    pub open spec fn creation_failed(&self, before: &Self, e: ShadowOracleError) -> bool {
        &&& self.same_as(before)
        &&& before.clock() is None ==> e.is_clock_missing()
        &&& before.clock() is Some ==> e.is_write_refused()
    }

    /// What a failed update of the feed at `feed` says and leaves: no feed
    /// was retained there, or the sandbox had no clock to read, or it
    /// refused the write, in this order; nothing has changed.
    pub open spec fn update_failed(&self, before: &Self, feed: Seq<u8>, e: ShadowOracleError) -> bool {
        &&& self.same_as(before)
        &&& !before.feeds().contains_key(feed) ==> e.is_not_found(feed)
        &&& before.feeds().contains_key(feed) && before.clock() is None ==> e.is_clock_missing()
        &&& before.feeds().contains_key(feed) && before.clock() is Some ==> e.is_write_refused()
    }

    /// Whether an update of the feed at `feed` can go through: a feed is
    /// retained there and the sandbox has a clock to read.
    pub open spec fn can_update(&self, feed: Seq<u8>) -> bool {
        self.feeds().contains_key(feed) && self.clock() is Some
    }

    /// A registry on `svm` that writes under the protocol's own program.
    pub fn new(svm: &'a mut litesvm::LiteSVM) -> (registry: Self)
        ensures
            registry.wf(),
            registry.feeds() == Map::<Seq<u8>, SwitchboardAggregator>::empty(),
            registry.accounts() == svm_accounts(*old(svm)),
            registry.owner() == switchboard_program_address(),
    {
        Switchboard { svm, price_feeds: FeedTable::new(), program_id: switchboard_program_id() }
    }

    /// A registry on `svm` that writes under `program_id`.
    pub fn with_program_id(svm: &'a mut litesvm::LiteSVM, program_id: Address) -> (registry: Self)
        ensures
            registry.wf(),
            registry.feeds() == Map::<Seq<u8>, SwitchboardAggregator>::empty(),
            registry.accounts() == svm_accounts(*old(svm)),
            registry.owner() == program_id@,
    {
        Switchboard { svm, price_feeds: FeedTable::new(), program_id }
    }

    /// Creates a feed at a fresh address, and returns the address. It fails
    /// where the sandbox has no clock to read or refuses the write.
    pub fn create_price_feed(&mut self, conf: PriceConf) -> (r: Result<Address, ShadowOracleError>)
        requires
            old(self).wf(),
        ensures
            final(self).wf(),
            old(self).clock() is None ==> r is Err,
            match r {
                Ok(address) => old(self).clock() is Some && final(self).holds_since(
                    old(self),
                    address@,
                    final(self).feeds()[address@],
                ) && final(self).feeds()[address@].is_created_under(
                    conf,
                    old(self).clock().unwrap(),
                ),
                Err(e) => final(self).creation_failed(old(self), e),
            },
    {
        let address = fresh_address();
        self.create_price_feed_at(address, conf)
    }

    /// Creates a feed at `address`, in place of a feed retained there, and
    /// returns the address. It fails where the sandbox has no clock to read
    /// or refuses the write.
    pub fn create_price_feed_at(&mut self, address: Address, conf: PriceConf) -> (r: Result<
        Address,
        ShadowOracleError,
    >)
        requires
            old(self).wf(),
        ensures
            final(self).wf(),
            old(self).clock() is Some && !is_reserved(address@) ==> r is Ok,
            old(self).clock() is None ==> r is Err,
            match r {
                Ok(at) => at == address && old(self).clock() is Some && final(self).holds_since(
                    old(self),
                    address@,
                    final(self).feeds()[address@],
                ) && final(self).feeds()[address@].is_created_under(
                    conf,
                    old(self).clock().unwrap(),
                ),
                Err(e) => final(self).creation_failed(old(self), e),
            },
    {
        let clock = match sandbox_clock(self.svm) {
            Some(clock) => clock,
            None => { return Err(ShadowOracleError::clock_missing()); },
        };
        let aggregator = SwitchboardAggregator::from_conf(&conf, &clock);
        if self.set_account(&address, aggregator) {
            Ok(address)
        } else {
            Err(ShadowOracleError::write_refused())
        }
    }

    /// Records a round for the feed at `feed`: the round goes up by one,
    /// slot and time are the clock's. It fails where no feed is retained
    /// there, where the sandbox has no clock to read, or where it refuses the
    /// write; nothing has changed then.
    pub fn set_price(&mut self, feed: &Address, price: Decimal, std_dev: Decimal) -> (r: Result<
        (),
        ShadowOracleError,
    >)
        requires
            old(self).wf(),
            old(self).feeds().contains_key(feed@) ==> old(self).feeds()[feed@].round_id
                < u32::MAX,
        ensures
            final(self).wf(),
            r is Ok <==> old(self).can_update(feed@) && write_accepted(
                feed@,
                old(self).feeds()[feed@].updated(
                    price,
                    std_dev,
                    old(self).clock().unwrap(),
                ).encoding(),
            ),
            old(self).can_update(feed@) && !is_reserved(feed@) ==> r is Ok,
            !old(self).can_update(feed@) ==> r is Err,
            match r {
                Ok(_) => old(self).can_update(feed@) && final(self).holds_since(
                    old(self),
                    feed@,
                    old(self).feeds()[feed@].updated(price, std_dev, old(self).clock().unwrap()),
                ),
                Err(e) => final(self).update_failed(old(self), feed@, e),
            },
            r is Ok ==> final(self).feeds()[feed@].round_id == old(self).feeds()[feed@].round_id
                + 1,
    {
        let found = match self.price_feeds.get(feed) {
            Some(found) => found,
            None => { return Err(ShadowOracleError::not_found(feed)); },
        };
        let clock = match sandbox_clock(self.svm) {
            Some(clock) => clock,
            None => { return Err(ShadowOracleError::clock_missing()); },
        };
        let mut account = found;
        account.set_price(price, std_dev, &clock);
        if self.set_account(feed, account) {
            Ok(())
        } else {
            Err(ShadowOracleError::write_refused())
        }
    }

    /// Records a round for the feed at `feed`; the amounts are in dollars already.
    pub fn set_price_usd(&mut self, feed: &Address, price: Decimal, std_dev: Decimal) -> (r:
        Result<(), ShadowOracleError>)
        requires
            old(self).wf(),
            old(self).feeds().contains_key(feed@) ==> old(self).feeds()[feed@].round_id
                < u32::MAX,
        ensures
            final(self).wf(),
            r is Ok <==> old(self).can_update(feed@) && write_accepted(
                feed@,
                old(self).feeds()[feed@].updated(
                    price,
                    std_dev,
                    old(self).clock().unwrap(),
                ).encoding(),
            ),
            old(self).can_update(feed@) && !is_reserved(feed@) ==> r is Ok,
            !old(self).can_update(feed@) ==> r is Err,
            match r {
                Ok(_) => old(self).can_update(feed@) && final(self).holds_since(
                    old(self),
                    feed@,
                    old(self).feeds()[feed@].updated(price, std_dev, old(self).clock().unwrap()),
                ),
                Err(e) => final(self).update_failed(old(self), feed@, e),
            },
    {
        self.set_price(feed, price, std_dev)
    }

    /// The price and the standard deviation of the feed at `feed`, in dollars.
    pub fn get_price(&self, feed: &Address) -> (r: Option<(Decimal, Decimal)>)
        requires
            self.wf(),
        ensures
            r == if self.feeds().contains_key(feed@) {
                Some((self.feeds()[feed@].price, self.feeds()[feed@].std_deviation))
            } else {
                None
            },
    {
        match self.price_feeds.get(feed) {
            Some(account) => Some((account.price, account.std_deviation)),
            None => None,
        }
    }

    /// The price and the standard deviation of the feed at `feed`, in dollars.
    pub fn get_price_usd(&self, feed: &Address) -> (r: Option<(Decimal, Decimal)>)
        requires
            self.wf(),
        ensures
            r == if self.feeds().contains_key(feed@) {
                Some((self.feeds()[feed@].price, self.feeds()[feed@].std_deviation))
            } else {
                None
            },
    {
        self.get_price(feed)
    }

    /// The sandbox's clock, or `None` where it has none to read.
    pub fn read_clock(&self) -> (r: Option<ClockReading>)
        ensures
            r == self.clock(),
    {
        sandbox_clock(self.svm)
    }

    /// The latest round of the feed at `feed`; an update needs it to be below the largest.
    pub fn get_round(&self, feed: &Address) -> (r: Option<u32>)
        requires
            self.wf(),
        ensures
            r == if self.feeds().contains_key(feed@) {
                Some(self.feeds()[feed@].round_id)
            } else {
                None
            },
    {
        match self.price_feeds.get(feed) {
            Some(account) => Some(account.round_id),
            None => None,
        }
    }

    /// The time of the latest round of the feed at `feed`.
    pub fn get_timestamp(&self, feed: &Address) -> (r: Option<i64>)
        requires
            self.wf(),
        ensures
            r == if self.feeds().contains_key(feed@) {
                Some(self.feeds()[feed@].timestamp)
            } else {
                None
            },
    {
        match self.price_feeds.get(feed) {
            Some(account) => Some(account.timestamp),
            None => None,
        }
    }

    /// The slot of the latest round of the feed at `feed`.
    pub fn get_slot(&self, feed: &Address) -> (r: Option<u64>)
        requires
            self.wf(),
        ensures
            r == if self.feeds().contains_key(feed@) {
                Some(self.feeds()[feed@].slot)
            } else {
                None
            },
    {
        match self.price_feeds.get(feed) {
            Some(account) => Some(account.slot),
            None => None,
        }
    }

    /// Makes the feed at `feed` stale: its time becomes the clock's time less
    /// `seconds_ago`, and nothing else of it changes. It fails where no feed
    /// is retained there, where the sandbox has no clock to read, or where it
    /// refuses the write; nothing has changed then.
    pub fn make_stale(&mut self, feed: &Address, seconds_ago: i64) -> (r: Result<
        (),
        ShadowOracleError,
    >)
        requires
            old(self).wf(),
            old(self).clock() matches Some(clock) ==> i64::MIN <= clock.unix_timestamp
                - seconds_ago <= i64::MAX,
        ensures
            final(self).wf(),
            r is Ok <==> old(self).can_update(feed@) && write_accepted(
                feed@,
                old(self).feeds()[feed@].at_time(
                    (old(self).clock().unwrap().unix_timestamp - seconds_ago) as i64,
                ).encoding(),
            ),
            old(self).can_update(feed@) && !is_reserved(feed@) ==> r is Ok,
            !old(self).can_update(feed@) ==> r is Err,
            match r {
                Ok(_) => old(self).can_update(feed@) && final(self).holds_since(
                    old(self),
                    feed@,
                    old(self).feeds()[feed@].at_time(
                        (old(self).clock().unwrap().unix_timestamp - seconds_ago) as i64,
                    ),
                ),
                Err(e) => final(self).update_failed(old(self), feed@, e),
            },
            r is Ok ==> {
                let before = old(self).feeds()[feed@];
                let after = final(self).feeds()[feed@];
                &&& after.timestamp == old(self).clock().unwrap().unix_timestamp - seconds_ago
                &&& after.price == before.price
                &&& after.std_deviation == before.std_deviation
                &&& after.decimals == before.decimals
                &&& after.slot == before.slot
                &&& after.round_id == before.round_id
            },
    {
        let found = match self.price_feeds.get(feed) {
            Some(found) => found,
            None => { return Err(ShadowOracleError::not_found(feed)); },
        };
        let clock = match sandbox_clock(self.svm) {
            Some(clock) => clock,
            None => { return Err(ShadowOracleError::clock_missing()); },
        };
        let mut account = found;
        account.timestamp = clock.unix_timestamp - seconds_ago;
        if self.set_account(feed, account) {
            Ok(())
        } else {
            Err(ShadowOracleError::write_refused())
        }
    }

    /// Since `before`, the five standard feeds have been created at the
    /// addresses `made`, in the order SOL, BTC, ETH, USDC, USDT, and nothing
    /// else has changed: where two of the addresses are the same, the later
    /// feed stands there, and a feed at the
    /// clock's own address changes the clock for the feeds after it.
    pub open spec fn standard_feeds_since(&self, before: &Self, made: StandardFeeds) -> bool {
        &&& before.clock() is Some
        &&& forall|k: Seq<u8>|
            !made.has(k) ==> (self.feeds().contains_key(k) == before.feeds().contains_key(k))
                && self.feeds()[k] == before.feeds()[k]
        &&& forall|k: Seq<u8>|
            !made.has(k) ==> (self.accounts().contains_key(k) == before.accounts().contains_key(
                k,
            )) && self.accounts()[k] == before.accounts()[k]
        &&& forall|k: Seq<u8>| made.has(k) ==> self.feeds().contains_key(k)
        &&& self.feeds()[made.usdt@].is_created_from(PriceConf::usd(100_000_000, 10_000))
        &&& self.feeds()[made.usdc@].is_created_from(PriceConf::usd(100_000_000, 10_000))
        &&& made.distinct() ==> {
            &&& self.feeds()[made.sol@].is_created_from(
                PriceConf::usd(10_000_000_000, 10_000_000),
            )
            &&& self.feeds()[made.btc@].is_created_from(
                PriceConf::usd(4_300_000_000_000, 1_000_000_000),
            )
            &&& self.feeds()[made.eth@].is_created_from(
                PriceConf::usd(220_000_000_000, 100_000_000),
            )
        }
        &&& !made.has(clock_address()) ==> forall|k: Seq<u8>|
            made.has(k) ==> self.feeds()[k].is_at(before.clock().unwrap())
    }

    /// Creates the five standard feeds at the addresses `at`: SOL at 100
    /// dollars, BTC at 43000, ETH at 2200, USDC and USDT at one, in this
    /// order. It fails where the sandbox has no clock to
    /// read, before anything is created, or refuses a write, and then stops:
    /// the feeds created before stay.
    pub fn create_standard_feeds_at(&mut self, at: StandardFeeds) -> (r: Result<
        StandardFeeds,
        ShadowOracleError,
    >)
        requires
            old(self).wf(),
        ensures
            final(self).wf(),
            final(self).owner() == old(self).owner(),
            forall|k: Seq<u8>|
                old(self).feeds().contains_key(k) ==> final(self).feeds().contains_key(k),
            old(self).clock() is Some && at.none_reserved() ==> r is Ok,
            old(self).clock() is None ==> r is Err && r->Err_0.is_clock_missing(),
            r matches Err(e) ==> e.is_clock_missing() || e.is_write_refused(),
            r matches Err(e) && e.is_clock_missing() ==> old(self).clock() is None,
            r matches Ok(made) ==> made == at && final(self).standard_feeds_since(old(self), at),
    {
        let sol = match self.create_price_feed_at(at.sol, PriceConf::standard_sol()) {
            Ok(address) => {
                proof {
                    self.feeds()[address@].lemma_field_offsets();
                }
                address
            },
            Err(e) => { return Err(e); },
        };
        let btc = match self.create_price_feed_at(at.btc, PriceConf::standard_btc()) {
            Ok(address) => {
                proof {
                    self.feeds()[address@].lemma_field_offsets();
                }
                address
            },
            Err(e) => { return Err(e); },
        };
        let eth = match self.create_price_feed_at(at.eth, PriceConf::standard_eth()) {
            Ok(address) => {
                proof {
                    self.feeds()[address@].lemma_field_offsets();
                }
                address
            },
            Err(e) => { return Err(e); },
        };
        let usdc = match self.create_price_feed_at(at.usdc, PriceConf::stablecoin()) {
            Ok(address) => {
                proof {
                    self.feeds()[address@].lemma_field_offsets();
                }
                address
            },
            Err(e) => { return Err(e); },
        };
        let usdt = match self.create_price_feed_at(at.usdt, PriceConf::stablecoin()) {
            Ok(address) => {
                proof {
                    self.feeds()[address@].lemma_field_offsets();
                }
                address
            },
            Err(e) => { return Err(e); },
        };
        Ok(StandardFeeds { sol, btc, eth, usdc, usdt })
    }

    /// Creates the five standard feeds, each at a fresh address, which is
    /// random. It fails where the sandbox has no clock to read or
    /// refuses a write, as [`Self::create_standard_feeds_at`] does.
    pub fn create_standard_feeds(&mut self) -> (r: Result<StandardFeeds, ShadowOracleError>)
        requires
            old(self).wf(),
        ensures
            final(self).wf(),
            final(self).owner() == old(self).owner(),
            forall|k: Seq<u8>|
                old(self).feeds().contains_key(k) ==> final(self).feeds().contains_key(k),
            old(self).clock() is None ==> r is Err && r->Err_0.is_clock_missing(),
            r matches Err(e) ==> e.is_clock_missing() || e.is_write_refused(),
            r matches Err(e) && e.is_clock_missing() ==> old(self).clock() is None,
            r matches Ok(made) ==> final(self).standard_feeds_since(old(self), made),
    {
        let sol = fresh_address();
        let btc = fresh_address();
        let eth = fresh_address();
        let usdc = fresh_address();
        let usdt = fresh_address();
        self.create_standard_feeds_at(StandardFeeds { sol, btc, eth, usdc, usdt })
    }

    /// Simulates a crash of the feed at `feed` by `crash_percent` per cent:
    /// a round with the price lowered by that share and the standard
    /// deviation five times as wide.
    pub fn simulate_crash(&mut self, feed: &Address, crash_percent: Decimal) -> (r: Result<
        (),
        ShadowOracleError,
    >)
        requires
            old(self).wf(),
            old(self).feeds().contains_key(feed@) ==> old(self).feeds()[feed@].round_id
                < u32::MAX,
        ensures
            final(self).wf(),
            old(self).can_update(feed@) && !is_reserved(feed@) ==> r is Ok,
            !old(self).can_update(feed@) ==> r is Err,
            match r {
                Ok(_) => old(self).can_update(feed@) && final(self).holds_since(
                    old(self),
                    feed@,
                    old(self).feeds()[feed@].updated(
                        final(self).feeds()[feed@].price,
                        final(self).feeds()[feed@].std_deviation,
                        old(self).clock().unwrap(),
                    ),
                ) && final(self).feeds()[feed@].price@ == shifted_decimal(
                    old(self).feeds()[feed@].price@,
                    crash_percent@,
                ) && final(self).feeds()[feed@].std_deviation@ == fitted(
                    old(self).feeds()[feed@].std_deviation@.0 * CRASH_CONFIDENCE_FACTOR,
                    old(self).feeds()[feed@].std_deviation@.1,
                ),
                Err(e) => final(self).update_failed(old(self), feed@, e),
            },
            r is Ok && is_share(crash_percent@) && old(self).feeds()[feed@].price@.0 > 0 ==> {
                &&& final(self).feeds()[feed@].price@.0 >= 0
                &&& stands_below(final(self).feeds()[feed@].price@, old(self).feeds()[feed@].price@)
            },
            r is Ok && old(self).feeds()[feed@].std_deviation@.0 > 0 && (old(self).feeds()[feed@].std_deviation@.1 > 0 || old(self).feeds()[feed@].std_deviation@.0
                < i64::MAX) ==> stands_below(
                old(self).feeds()[feed@].std_deviation@,
                final(self).feeds()[feed@].std_deviation@,
            ),
            r is Ok && old(self).feeds()[feed@].std_deviation@.0 > 0 && fits_mantissa(
                old(self).feeds()[feed@].std_deviation@.0 * CRASH_CONFIDENCE_FACTOR,
            ) ==> {
                &&& final(self).feeds()[feed@].std_deviation@ == (
                    old(self).feeds()[feed@].std_deviation@.0 * CRASH_CONFIDENCE_FACTOR,
                    old(self).feeds()[feed@].std_deviation@.1,
                )
                &&& stands_below(
                    old(self).feeds()[feed@].std_deviation@,
                    final(self).feeds()[feed@].std_deviation@,
                )
            },
    {
        let (current_price, current_std) = match self.get_price(feed) {
            Some(current) => current,
            None => { return Err(ShadowOracleError::not_found(feed)); },
        };
        let digits = current_std.scale();
        proof {
            if is_share(crash_percent@) && current_price@.0 > 0 {
                lemma_crash_lowers_decimal(current_price@, crash_percent@);
            }
            if current_std@.0 > 0 {
                lemma_crash_widens_decimal(current_std@);
                lemma_mantissa_fits(current_std);
                if current_std@.1 > 0 || current_std@.0 < i64::MAX {
                    lemma_crash_widens_always(current_std@);
                }
            }
        }
        let new_price = current_price.shifted_by(crash_percent);
        let new_std = current_std.times(CRASH_CONFIDENCE_FACTOR);
        self.set_price(feed, new_price, new_std)
    }

    /// Simulates a depeg of the feed at `feed` to `new_price` dollars: the
    /// standard deviation grows with the distance from one dollar.
    pub fn simulate_depeg(&mut self, feed: &Address, new_price: Decimal) -> (r: Result<
        (),
        ShadowOracleError,
    >)
        requires
            old(self).wf(),
            old(self).feeds().contains_key(feed@) ==> old(self).feeds()[feed@].round_id
                < u32::MAX,
        ensures
            final(self).wf(),
            old(self).can_update(feed@) && !is_reserved(feed@) ==> r is Ok,
            !old(self).can_update(feed@) ==> r is Err,
            match r {
                Ok(_) => old(self).can_update(feed@) && final(self).holds_since(
                    old(self),
                    feed@,
                    old(self).feeds()[feed@].updated(
                        new_price,
                        final(self).feeds()[feed@].std_deviation,
                        old(self).clock().unwrap(),
                    ),
                ) && final(self).feeds()[feed@].std_deviation@ == depeg_confidence_of(new_price@),
                Err(e) => final(self).update_failed(old(self), feed@, e),
            },
    {
        self.set_price(feed, new_price, depeg_confidence(new_price))
    }

    /// Writes `aggregator` as the account at `address` and, where the
    /// sandbox accepts it, retains it there. Returns whether it did.
    fn set_account(&mut self, address: &Address, aggregator: SwitchboardAggregator) -> (accepted:
        bool)
        requires
            old(self).wf(),
        ensures
            final(self).wf(),
            accepted ==> final(self).holds_since(old(self), address@, aggregator),
            !accepted ==> final(self).same_as(old(self)),
            !is_reserved(address@) ==> accepted,
            accepted == write_accepted(address@, aggregator.encoding()),
    {
        let _ = aggregator.price.scale();
        let _ = aggregator.std_deviation.scale();
        let data = aggregator.to_bytes();
        let accepted = store_account(self.svm, address, data, &self.program_id);
        if accepted {
            self.price_feeds.insert(*address, aggregator);
        }
        accepted
    }
}

} // verus!

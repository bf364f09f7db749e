//! The ring-buffered transmission store: a header of 192 bytes and sixteen
//! transmission slots of 48 bytes, of which the one under the live cursor is
//! filled; and the registry of such stores.

use crate::address::Address;
use crate::arith::clamp;
use crate::bytes::{i128_bytes, le_i128, overwritten, write_at, write_byte, zeroed, zeros};
use crate::decimal::{
    decimal_of, is_share, lemma_crash_lowers_decimal, scaled_value, shifted_decimal,
    stands_below, Decimal, MAX_SCALE,
};
use crate::error::ShadowOracleError;
use crate::ledger::{
    clock_of, fresh_address, registry_account, sandbox_clock, store_account, ClockReading,
};
use crate::price::{PriceConf, StandardFeeds};
use crate::arith::magnitude;
use crate::substrate::{clock_address, is_reserved, svm_accounts, write_accepted};
use crate::table::FeedTable;
use vstd::bytes::{spec_u32_to_le_bytes, spec_u64_to_le_bytes, u32_to_le_bytes, u64_to_le_bytes};
use vstd::prelude::*;

verus! {

/// Text of the address of the program that owns the feeds.
pub const CHAINLINK_PROGRAM_ID: &'static str = "HEvSKofvBgfaexv23kMabbYqxasxU3mQ4ibBMEmJWHny";

/// Text of the address of the store program.
pub const CHAINLINK_STORE_PROGRAM_ID: &'static str = "CaH12fwNTKJAG8PxEvo9R96Zc2j8Jq3Q5K9B7tTFQ2by";

/// Length of the header in bytes.
pub const HEADER_SIZE: usize = 192;

/// Length of one transmission slot in bytes.
pub const TRANSMISSION_SIZE: usize = 48;

/// Count of transmission slots in the ring.
pub const NUM_TRANSMISSIONS: usize = 16;

/// Length of the whole account in bytes.
pub const FEED_ACCOUNT_SIZE: usize = 960;

/// Threshold for flagging that every header carries.
pub const FLAGGING_THRESHOLD: u32 = 1000;

/// Count of observations, and of observers, that every transmission carries.
pub const OBSERVATIONS: u8 = 3;

/// One feed: its price in dollars, the decimal count of its answer, and the
/// slot, time and round of its latest transmission.
#[derive(Debug, Clone, Copy)]
pub struct ChainlinkFeed {
    pub price: Decimal,
    pub decimals: u8,
    pub slot: u64,
    pub timestamp: u32,
    pub round_id: u32,
}

impl ChainlinkFeed {
    /// The feed that a configuration gives under a clock reading: round one,
    /// at the clock's slot, at the configuration's publish time or else the
    /// clock's time, of which the low 32 bits are kept.
    pub open spec fn created(conf: PriceConf, clock: ClockReading, price: Decimal) -> ChainlinkFeed {
        ChainlinkFeed {
            price,
            decimals: conf.decimals,
            slot: clock.slot,
            timestamp: match conf.publish_time {
                Some(t) => t as u32,
                None => clock.unix_timestamp as u32,
            },
            round_id: 1,
        }
    }

    /// Whether this is the feed that `conf` gives under `clock`.
    pub open spec fn is_created_under(self, conf: PriceConf, clock: ClockReading) -> bool {
        &&& self == Self::created(conf, clock, self.price)
        &&& self.price@ == decimal_of(conf.price as int, magnitude(conf.expo as int))
    }

    /// Whether this is a feed that `conf` gives under some clock: in round
    /// one, with the configuration's decimal count and its price in dollars.
    pub open spec fn is_created_from(self, conf: PriceConf) -> bool {
        &&& self.round_id == 1
        &&& self.decimals == conf.decimals
        &&& self.price@ == decimal_of(conf.price as int, magnitude(conf.expo as int))
    }

    /// Whether slot and time are those of `clock`, of whose time the low 32
    /// bits are kept.
    pub open spec fn is_at(self, clock: ClockReading) -> bool {
        self.slot == clock.slot && self.timestamp == clock.unix_timestamp as u32
    }

    /// The feed after a transmission of `price` under a clock reading: the
    /// round goes up by one.
    pub open spec fn updated(self, price: Decimal, clock: ClockReading) -> ChainlinkFeed {
        ChainlinkFeed {
            price,
            slot: clock.slot,
            round_id: (self.round_id + 1) as u32,
            timestamp: clock.unix_timestamp as u32,
            ..self
        }
    }

    /// The answer: the price at the feed's decimal count, rounded toward zero
    /// and clamped into 128 signed bits.
    pub open spec fn answer(self) -> i128 {
        clamp(scaled_value(self.price@, self.decimals as nat), i128::MIN as int, i128::MAX as int)
            as i128
    }

    /// The live cursor: the round before the latest, modulo the length of the ring.
    pub open spec fn cursor(self) -> int {
        (self.round_id - 1) % (NUM_TRANSMISSIONS as int)
    }

    /// Offset of the transmission slot under the live cursor.
    pub open spec fn live_offset(self) -> int {
        HEADER_SIZE + self.cursor() * TRANSMISSION_SIZE
    }

    /// The header alone: `FEED_ACCOUNT_SIZE` zero bytes with the header's fields written in.
    pub open spec fn header(self) -> Seq<u8> {
        let b0 = zeroed(FEED_ACCOUNT_SIZE as nat);
        // version and state, both one
        let b1 = overwritten(b0, 0, seq![1u8, 1u8]);
        let b2 = overwritten(b1, 130, seq![self.decimals]);
        let b3 = overwritten(b2, 131, spec_u32_to_le_bytes(FLAGGING_THRESHOLD));
        let b4 = overwritten(b3, 135, spec_u32_to_le_bytes(self.round_id));
        // granularity
        let b5 = overwritten(b4, 141, seq![1u8]);
        let b6 = overwritten(b5, 142, spec_u32_to_le_bytes(NUM_TRANSMISSIONS as u32));
        overwritten(b6, 150, spec_u32_to_le_bytes(self.cursor() as u32))
    }

    /// The bytes of the account: the header, and the latest transmission in
    /// the slot under the live cursor; every other byte is zero.
    pub open spec fn encoding(self) -> Seq<u8> {
        let at = self.live_offset();
        let t0 = self.header();
        let t1 = overwritten(t0, at, spec_u64_to_le_bytes(self.slot));
        let t2 = overwritten(t1, at + 8, spec_u32_to_le_bytes(self.timestamp));
        let t3 = overwritten(t2, at + 16, le_i128(self.answer()));
        overwritten(t3, at + 32, seq![OBSERVATIONS, OBSERVATIONS])
    }

    /// Where the fields lie: no field is written over another, so each can
    /// be read back at its offset.
    pub proof fn lemma_field_offsets(self)
        ensures
            self.encoding().len() == FEED_ACCOUNT_SIZE,
            0 <= self.cursor() < NUM_TRANSMISSIONS,
            self.encoding().subrange(0, 2) == seq![1u8, 1u8],
            self.encoding()[130] == self.decimals,
            self.encoding().subrange(131, 135) == spec_u32_to_le_bytes(FLAGGING_THRESHOLD),
            self.encoding().subrange(135, 139) == spec_u32_to_le_bytes(self.round_id),
            self.encoding()[141] == 1,
            self.encoding().subrange(142, 146) == spec_u32_to_le_bytes(NUM_TRANSMISSIONS as u32),
            self.encoding().subrange(150, 154) == spec_u32_to_le_bytes(self.cursor() as u32),
            self.encoding().subrange(self.live_offset(), self.live_offset() + 8)
                == spec_u64_to_le_bytes(self.slot),
            self.encoding().subrange(self.live_offset() + 8, self.live_offset() + 12)
                == spec_u32_to_le_bytes(self.timestamp),
            self.encoding().subrange(self.live_offset() + 16, self.live_offset() + 32) == le_i128(
                self.answer(),
            ),
            self.encoding().subrange(self.live_offset() + 32, self.live_offset() + 34)
                == seq![OBSERVATIONS, OBSERVATIONS],
    {
        crate::bytes::lemma_le_lengths();
        let e = self.encoding();
        let at = self.live_offset();
        assert(e.subrange(0, 2) =~= seq![1u8, 1u8]);
        assert(e.subrange(131, 135) =~= spec_u32_to_le_bytes(FLAGGING_THRESHOLD));
        assert(e.subrange(135, 139) =~= spec_u32_to_le_bytes(self.round_id));
        assert(e.subrange(142, 146) =~= spec_u32_to_le_bytes(NUM_TRANSMISSIONS as u32));
        assert(e.subrange(150, 154) =~= spec_u32_to_le_bytes(self.cursor() as u32));
        assert(e.subrange(at, at + 8) =~= spec_u64_to_le_bytes(self.slot));
        assert(e.subrange(at + 8, at + 12) =~= spec_u32_to_le_bytes(self.timestamp));
        assert(e.subrange(at + 16, at + 32) =~= le_i128(self.answer()));
        assert(e.subrange(at + 32, at + 34) =~= seq![OBSERVATIONS, OBSERVATIONS]);
    }

    /// The feed that a configuration gives under a clock reading.
    pub fn from_conf(conf: &PriceConf, clock: &ClockReading) -> (feed: Self)
        ensures
            feed.is_created_under(*conf, *clock),
    {
        let now = match conf.publish_time {
            Some(t) => t,
            None => clock.unix_timestamp,
        };
        ChainlinkFeed {
            price: conf.price_usd(),
            decimals: conf.decimals,
            slot: clock.slot,
            timestamp: now as u32,
            round_id: 1,
        }
    }

    /// Transmits `price` under a clock reading.
    pub fn set_price(&mut self, price: Decimal, clock: &ClockReading)
        requires
            old(self).round_id < u32::MAX,
        ensures
            *final(self) == old(self).updated(price, *clock),
    {
        self.price = price;
        self.slot = clock.slot;
        self.round_id = self.round_id + 1;
        self.timestamp = clock.unix_timestamp as u32;
    }

    /// The answer: the price as an integer at the feed's decimal count.
    pub fn get_answer(&self) -> (answer: i128)
        ensures
            answer == self.answer(),
    {
        self.price.to_scaled(self.decimals as u32)
    }

    /// The bytes of the account.
    pub fn to_bytes(&self) -> (bytes: Vec<u8>)
        ensures
            bytes@ == self.encoding(),
            bytes@.len() == FEED_ACCOUNT_SIZE,
    {
        let mut data = zeros(FEED_ACCOUNT_SIZE);
        let mut head: Vec<u8> = Vec::new();
        head.push(1u8);
        head.push(1u8);
        assert(head@ =~= seq![1u8, 1u8]);
        write_at(&mut data, 0, &head);
        write_byte(&mut data, 130, self.decimals);
        write_at(&mut data, 131, &u32_to_le_bytes(FLAGGING_THRESHOLD));
        write_at(&mut data, 135, &u32_to_le_bytes(self.round_id));
        write_byte(&mut data, 141, 1u8);
        write_at(&mut data, 142, &u32_to_le_bytes(NUM_TRANSMISSIONS as u32));
        let cursor: u32 = ((self.round_id as u64 + 15) % 16) as u32;
        assert(cursor == self.cursor());
        write_at(&mut data, 150, &u32_to_le_bytes(cursor));
        assert(data@ == self.header());

        let at: usize = HEADER_SIZE + (cursor as usize) * TRANSMISSION_SIZE;
        write_at(&mut data, at, &u64_to_le_bytes(self.slot));
        write_at(&mut data, at + 8, &u32_to_le_bytes(self.timestamp));
        write_at(&mut data, at + 16, &i128_bytes(self.get_answer()));
        let mut counts: Vec<u8> = Vec::new();
        counts.push(OBSERVATIONS);
        counts.push(OBSERVATIONS);
        assert(counts@ =~= seq![OBSERVATIONS, OBSERVATIONS]);
        write_at(&mut data, at + 32, &counts);
        data
    }
}

/// Bytes of the address of the program that owns the feeds.
pub open spec fn chainlink_program_address() -> Seq<u8> {
    seq![
        241u8, 75, 246, 90, 213, 107, 210, 186, 113, 94, 69, 116, 44, 35, 31, 39,
        214, 54, 33, 207, 91, 119, 143, 55, 193, 162, 72, 149, 29, 23, 86, 2,
    ]
}

/// The address of the program that owns the feeds.
pub fn chainlink_program_id() -> (a: Address)
    ensures
        a@ == chainlink_program_address(),
{
    let a = Address::new(
        [
            241u8, 75, 246, 90, 213, 107, 210, 186, 113, 94, 69, 116, 44, 35, 31, 39,
            214, 54, 33, 207, 91, 119, 143, 55, 193, 162, 72, 149, 29, 23, 86, 2,
        ],
    );
    assert(a@ =~= chainlink_program_address());
    a
}

/// The registry of feeds in one ledger sandbox.
pub struct Chainlink<'a> {
    svm: &'a mut litesvm::LiteSVM,
    price_feeds: FeedTable<ChainlinkFeed>,
    program_id: Address,
}

impl<'a> Chainlink<'a> {
    /// The feeds retained, by address.
    pub closed spec fn feeds(&self) -> Map<Seq<u8>, ChainlinkFeed> {
        self.price_feeds@
    }

    /// The accounts that the sandbox holds, by address.
    pub closed spec fn accounts(&self) -> Map<Seq<u8>, (Seq<u8>, Seq<u8>, u64, bool, u64)> {
        svm_accounts(*self.svm)
    }

    /// The address of the program that the feeds are written under.
    pub closed spec fn owner(&self) -> Seq<u8> {
        self.program_id@
    }

    /// Every retained feed stands in the sandbox, encoded in full, under the
    /// registry's program.
    pub closed spec fn wf(&self) -> bool {
        &&& self.price_feeds.wf()
        &&& forall|k: Seq<u8>| #[trigger]
            self.price_feeds@.contains_key(k) ==> svm_accounts(*self.svm).contains_key(k)
                && svm_accounts(*self.svm)[k] == registry_account(
                self.price_feeds@[k].encoding(),
                self.program_id@,
            ) && self.price_feeds@[k].price@.1 <= MAX_SCALE
    }

    /// The sandbox's clock, where it has one to read.
    pub open spec fn clock(&self) -> Option<ClockReading> {
        clock_of(self.accounts())
    }

    /// What a registry in good order keeps is what the sandbox holds: every
    /// retained feed stands at its address as the full encoding of what
    /// is retained, under the registry's program, with the registries'
    /// balance.
    pub proof fn lemma_written_through(&self, address: Seq<u8>)
        requires
            self.wf(),
            self.feeds().contains_key(address),
        ensures
            self.accounts().contains_key(address),
            self.accounts()[address] == registry_account(
                self.feeds()[address].encoding(),
                self.owner(),
            ),
    {
    }

    /// The amounts that a registry in good order keeps have no more digits
    /// than a decimal carries.
    pub proof fn lemma_digits_bounded(&self, address: Seq<u8>)
        requires
            self.wf(),
            self.feeds().contains_key(address),
        ensures
            self.feeds()[address].price@.1 <= MAX_SCALE,
    {
    }

    /// Nothing has changed since `before`.
    pub open spec fn same_as(&self, before: &Self) -> bool {
        &&& self.feeds() == before.feeds()
        &&& self.accounts() == before.accounts()
        &&& self.owner() == before.owner()
    }

    /// Since `before`, `feed` has been retained under `address` and written
    /// there, and nothing else has changed.
    pub open spec fn holds_since(&self, before: &Self, address: Seq<u8>, feed: ChainlinkFeed) -> bool {
        &&& self.feeds() == before.feeds().insert(address, feed)
        &&& self.accounts() == before.accounts().insert(
            address,
            registry_account(feed.encoding(), before.owner()),
        )
        &&& self.owner() == before.owner()
    }

    /// What a failed creation says and leaves: the sandbox had no clock to
    /// read, or it had one and refused the write; nothing has changed.
    pub open spec fn creation_failed(&self, before: &Self, e: ShadowOracleError) -> bool {
        &&& self.same_as(before)
        &&& before.clock() is None ==> e.is_clock_missing()
        &&& before.clock() is Some ==> e.is_write_refused()
    }

    /// What a failed update of the feed at `feed` says and leaves: no feed
    /// was retained there, or the sandbox had no clock to read, or it
    /// refused the write, in this order; nothing has changed.
    pub open spec fn update_failed(&self, before: &Self, feed: Seq<u8>, e: ShadowOracleError) -> bool {
        &&& self.same_as(before)
        &&& !before.feeds().contains_key(feed) ==> e.is_not_found(feed)
        &&& before.feeds().contains_key(feed) && before.clock() is None ==> e.is_clock_missing()
        &&& before.feeds().contains_key(feed) && before.clock() is Some ==> e.is_write_refused()
    }

    /// Whether an update of the feed at `feed` can go through: a feed is
    /// retained there and the sandbox has a clock to read.
    pub open spec fn can_update(&self, feed: Seq<u8>) -> bool {
        self.feeds().contains_key(feed) && self.clock() is Some
    }

    /// A registry on `svm` that writes under the protocol's own program.
    pub fn new(svm: &'a mut litesvm::LiteSVM) -> (registry: Self)
        ensures
            registry.wf(),
            registry.feeds() == Map::<Seq<u8>, ChainlinkFeed>::empty(),
            registry.accounts() == svm_accounts(*old(svm)),
            registry.owner() == chainlink_program_address(),
    {
        Chainlink { svm, price_feeds: FeedTable::new(), program_id: chainlink_program_id() }
    }

    /// A registry on `svm` that writes under `program_id`.
    pub fn with_program_id(svm: &'a mut litesvm::LiteSVM, program_id: Address) -> (registry: Self)
        ensures
            registry.wf(),
            registry.feeds() == Map::<Seq<u8>, ChainlinkFeed>::empty(),
            registry.accounts() == svm_accounts(*old(svm)),
            registry.owner() == program_id@,
    {
        Chainlink { svm, price_feeds: FeedTable::new(), program_id }
    }

    /// Creates a feed at a fresh address, and returns the address. It fails
    /// where the sandbox has no clock to read or refuses the write.
    pub fn create_price_feed(&mut self, conf: PriceConf) -> (r: Result<Address, ShadowOracleError>)
        requires
            old(self).wf(),
        ensures
            final(self).wf(),
            old(self).clock() is None ==> r is Err,
            match r {
                Ok(address) => old(self).clock() is Some && final(self).holds_since(
                    old(self),
                    address@,
                    final(self).feeds()[address@],
                ) && final(self).feeds()[address@].is_created_under(
                    conf,
                    old(self).clock().unwrap(),
                ),
                Err(e) => final(self).creation_failed(old(self), e),
            },
    {
        let address = fresh_address();
        self.create_price_feed_at(address, conf)
    }

    /// Creates a feed at `address`, in place of a feed retained there, and
    /// returns the address. It fails where the sandbox has no clock to read
    /// or refuses the write.
    pub fn create_price_feed_at(&mut self, address: Address, conf: PriceConf) -> (r: Result<
        Address,
        ShadowOracleError,
    >)
        requires
            old(self).wf(),
        ensures
            final(self).wf(),
            old(self).clock() is Some && !is_reserved(address@) ==> r is Ok,
            old(self).clock() is None ==> r is Err,
            match r {
                Ok(at) => at == address && old(self).clock() is Some && final(self).holds_since(
                    old(self),
                    address@,
                    final(self).feeds()[address@],
                ) && final(self).feeds()[address@].is_created_under(
                    conf,
                    old(self).clock().unwrap(),
                ),
                Err(e) => final(self).creation_failed(old(self), e),
            },
    {
        let clock = match sandbox_clock(self.svm) {
            Some(clock) => clock,
            None => { return Err(ShadowOracleError::clock_missing()); },
        };
        let feed = ChainlinkFeed::from_conf(&conf, &clock);
        if self.set_account(&address, feed) {
            Ok(address)
        } else {
            Err(ShadowOracleError::write_refused())
        }
    }

    /// Transmits `price` for the feed at `feed`: the round goes up by one,
    /// slot and time are the clock's. It fails where no feed is retained
    /// there, where the sandbox has no clock to read, or where it refuses the
    /// write; nothing has changed then.
    pub fn set_price(&mut self, feed: &Address, price: Decimal) -> (r: Result<
        (),
        ShadowOracleError,
    >)
        requires
            old(self).wf(),
            old(self).feeds().contains_key(feed@) ==> old(self).feeds()[feed@].round_id
                < u32::MAX,
        ensures
            final(self).wf(),
            r is Ok <==> old(self).can_update(feed@) && write_accepted(
                feed@,
                old(self).feeds()[feed@].updated(price, old(self).clock().unwrap()).encoding(),
            ),
            old(self).can_update(feed@) && !is_reserved(feed@) ==> r is Ok,
            !old(self).can_update(feed@) ==> r is Err,
            match r {
                Ok(_) => old(self).can_update(feed@) && final(self).holds_since(
                    old(self),
                    feed@,
                    old(self).feeds()[feed@].updated(price, old(self).clock().unwrap()),
                ),
                Err(e) => final(self).update_failed(old(self), feed@, e),
            },
            r is Ok ==> final(self).feeds()[feed@].round_id == old(self).feeds()[feed@].round_id
                + 1,
    {
        let found = match self.price_feeds.get(feed) {
            Some(found) => found,
            None => { return Err(ShadowOracleError::not_found(feed)); },
        };
        let clock = match sandbox_clock(self.svm) {
            Some(clock) => clock,
            None => { return Err(ShadowOracleError::clock_missing()); },
        };
        let mut account = found;
        account.set_price(price, &clock);
        if self.set_account(feed, account) {
            Ok(())
        } else {
            Err(ShadowOracleError::write_refused())
        }
    }

    /// Transmits a price in dollars for the feed at `feed`. This protocol
    /// has no confidence: the second amount is not used.
    pub fn set_price_usd(&mut self, feed: &Address, price: Decimal, confidence: Decimal) -> (r:
        Result<(), ShadowOracleError>)
        requires
            old(self).wf(),
            old(self).feeds().contains_key(feed@) ==> old(self).feeds()[feed@].round_id
                < u32::MAX,
        ensures
            final(self).wf(),
            r is Ok <==> old(self).can_update(feed@) && write_accepted(
                feed@,
                old(self).feeds()[feed@].updated(price, old(self).clock().unwrap()).encoding(),
            ),
            old(self).can_update(feed@) && !is_reserved(feed@) ==> r is Ok,
            !old(self).can_update(feed@) ==> r is Err,
            match r {
                Ok(_) => old(self).can_update(feed@) && final(self).holds_since(
                    old(self),
                    feed@,
                    old(self).feeds()[feed@].updated(price, old(self).clock().unwrap()),
                ),
                Err(e) => final(self).update_failed(old(self), feed@, e),
            },
    {
        self.set_price(feed, price)
    }

    /// The sandbox's clock, or `None` where it has none to read.
    pub fn read_clock(&self) -> (r: Option<ClockReading>)
        ensures
            r == self.clock(),
    {
        sandbox_clock(self.svm)
    }

    /// The price of the feed at `feed`, in dollars.
    pub fn get_price(&self, feed: &Address) -> (r: Option<Decimal>)
        requires
            self.wf(),
        ensures
            r == if self.feeds().contains_key(feed@) {
                Some(self.feeds()[feed@].price)
            } else {
                None
            },
    {
        match self.price_feeds.get(feed) {
            Some(account) => Some(account.price),
            None => None,
        }
    }

    /// The price of the feed at `feed`, in dollars, with a confidence of zero.
    pub fn get_price_usd(&self, feed: &Address) -> (r: Option<(Decimal, Decimal)>)
        requires
            self.wf(),
        ensures
            r is Some == self.feeds().contains_key(feed@),
            r matches Some(pair) ==> pair.0 == self.feeds()[feed@].price && pair.1@ == (0int, 0nat),
    {
        match self.get_price(feed) {
            Some(price) => Some((price, Decimal::new(0, 0))),
            None => None,
        }
    }

    /// The answer of the feed at `feed`: its price as an integer at its decimal count.
    pub fn get_latest_answer(&self, feed: &Address) -> (r: Option<i128>)
        requires
            self.wf(),
        ensures
            r == if self.feeds().contains_key(feed@) {
                Some(self.feeds()[feed@].answer())
            } else {
                None
            },
    {
        match self.price_feeds.get(feed) {
            Some(account) => Some(account.get_answer()),
            None => None,
        }
    }

    /// The decimal count of the feed at `feed`.
    pub fn get_decimals(&self, feed: &Address) -> (r: Option<u8>)
        requires
            self.wf(),
        ensures
            r == if self.feeds().contains_key(feed@) {
                Some(self.feeds()[feed@].decimals)
            } else {
                None
            },
    {
        match self.price_feeds.get(feed) {
            Some(account) => Some(account.decimals),
            None => None,
        }
    }

    /// The latest round of the feed at `feed`.
    pub fn get_latest_round(&self, feed: &Address) -> (r: Option<u32>)
        requires
            self.wf(),
        ensures
            r == if self.feeds().contains_key(feed@) {
                Some(self.feeds()[feed@].round_id)
            } else {
                None
            },
    {
        match self.price_feeds.get(feed) {
            Some(account) => Some(account.round_id),
            None => None,
        }
    }

    /// Since `before`, the five standard feeds have been created at the
    /// addresses `made`, in the order SOL, BTC, ETH, USDC, USDT, and nothing
    /// else has changed: where two of the addresses are the same, the later
    /// feed stands there, and a feed at the
    /// clock's own address changes the clock for the feeds after it.
    pub open spec fn standard_feeds_since(&self, before: &Self, made: StandardFeeds) -> bool {
        &&& before.clock() is Some
        &&& forall|k: Seq<u8>|
            !made.has(k) ==> (self.feeds().contains_key(k) == before.feeds().contains_key(k))
                && self.feeds()[k] == before.feeds()[k]
        &&& forall|k: Seq<u8>|
            !made.has(k) ==> (self.accounts().contains_key(k) == before.accounts().contains_key(
                k,
            )) && self.accounts()[k] == before.accounts()[k]
        &&& forall|k: Seq<u8>| made.has(k) ==> self.feeds().contains_key(k)
        &&& self.feeds()[made.usdt@].is_created_from(PriceConf::usd(100_000_000, 10_000))
        &&& self.feeds()[made.usdc@].is_created_from(PriceConf::usd(100_000_000, 10_000))
        &&& made.distinct() ==> {
            &&& self.feeds()[made.sol@].is_created_from(
                PriceConf::usd(10_000_000_000, 10_000_000),
            )
            &&& self.feeds()[made.btc@].is_created_from(
                PriceConf::usd(4_300_000_000_000, 1_000_000_000),
            )
            &&& self.feeds()[made.eth@].is_created_from(
                PriceConf::usd(220_000_000_000, 100_000_000),
            )
        }
        &&& !made.has(clock_address()) ==> forall|k: Seq<u8>|
            made.has(k) ==> self.feeds()[k].is_at(before.clock().unwrap())
    }

    /// Creates the five standard feeds at the addresses `at`: SOL at 100
    /// dollars, BTC at 43000, ETH at 2200, USDC and USDT at one, in this
    /// order. It fails where the sandbox has no clock to
    /// read, before anything is created, or refuses a write, and then stops:
    /// the feeds created before stay.
    pub fn create_standard_feeds_at(&mut self, at: StandardFeeds) -> (r: Result<
        StandardFeeds,
        ShadowOracleError,
    >)
        requires
            old(self).wf(),
        ensures
            final(self).wf(),
            final(self).owner() == old(self).owner(),
            forall|k: Seq<u8>|
                old(self).feeds().contains_key(k) ==> final(self).feeds().contains_key(k),
            old(self).clock() is Some && at.none_reserved() ==> r is Ok,
            old(self).clock() is None ==> r is Err && r->Err_0.is_clock_missing(),
            r matches Err(e) ==> e.is_clock_missing() || e.is_write_refused(),
            r matches Err(e) && e.is_clock_missing() ==> old(self).clock() is None,
            r matches Ok(made) ==> made == at && final(self).standard_feeds_since(old(self), at),
    {
        let sol = match self.create_price_feed_at(at.sol, PriceConf::standard_sol()) {
            Ok(address) => {
                proof {
                    self.feeds()[address@].lemma_field_offsets();
                }
                address
            },
            Err(e) => { return Err(e); },
        };
        let btc = match self.create_price_feed_at(at.btc, PriceConf::standard_btc()) {
            Ok(address) => {
                proof {
                    self.feeds()[address@].lemma_field_offsets();
                }
                address
            },
            Err(e) => { return Err(e); },
        };
        let eth = match self.create_price_feed_at(at.eth, PriceConf::standard_eth()) {
            Ok(address) => {
                proof {
                    self.feeds()[address@].lemma_field_offsets();
                }
                address
            },
            Err(e) => { return Err(e); },
        };
        let usdc = match self.create_price_feed_at(at.usdc, PriceConf::stablecoin()) {
            Ok(address) => {
                proof {
                    self.feeds()[address@].lemma_field_offsets();
                }
                address
            },
            Err(e) => { return Err(e); },
        };
        let usdt = match self.create_price_feed_at(at.usdt, PriceConf::stablecoin()) {
            Ok(address) => {
                proof {
                    self.feeds()[address@].lemma_field_offsets();
                }
                address
            },
            Err(e) => { return Err(e); },
        };
        Ok(StandardFeeds { sol, btc, eth, usdc, usdt })
    }

    /// Creates the five standard feeds, each at a fresh address, which is
    /// random. It fails where the sandbox has no clock to read or
    /// refuses a write, as [`Self::create_standard_feeds_at`] does.
    pub fn create_standard_feeds(&mut self) -> (r: Result<StandardFeeds, ShadowOracleError>)
        requires
            old(self).wf(),
        ensures
            final(self).wf(),
            final(self).owner() == old(self).owner(),
            forall|k: Seq<u8>|
                old(self).feeds().contains_key(k) ==> final(self).feeds().contains_key(k),
            old(self).clock() is None ==> r is Err && r->Err_0.is_clock_missing(),
            r matches Err(e) ==> e.is_clock_missing() || e.is_write_refused(),
            r matches Err(e) && e.is_clock_missing() ==> old(self).clock() is None,
            r matches Ok(made) ==> final(self).standard_feeds_since(old(self), made),
    {
        let sol = fresh_address();
        let btc = fresh_address();
        let eth = fresh_address();
        let usdc = fresh_address();
        let usdt = fresh_address();
        self.create_standard_feeds_at(StandardFeeds { sol, btc, eth, usdc, usdt })
    }

    /// Simulates a crash of the feed at `feed` by `crash_percent` per cent:
    /// a transmission of the price lowered by that share.
    pub fn simulate_crash(&mut self, feed: &Address, crash_percent: Decimal) -> (r: Result<
        (),
        ShadowOracleError,
    >)
        requires
            old(self).wf(),
            old(self).feeds().contains_key(feed@) ==> old(self).feeds()[feed@].round_id
                < u32::MAX,
        ensures
            final(self).wf(),
            old(self).can_update(feed@) && !is_reserved(feed@) ==> r is Ok,
            !old(self).can_update(feed@) ==> r is Err,
            match r {
                Ok(_) => old(self).can_update(feed@) && final(self).holds_since(
                    old(self),
                    feed@,
                    old(self).feeds()[feed@].updated(
                        final(self).feeds()[feed@].price,
                        old(self).clock().unwrap(),
                    ),
                ) && final(self).feeds()[feed@].price@ == shifted_decimal(
                    old(self).feeds()[feed@].price@,
                    crash_percent@,
                ),
                Err(e) => final(self).update_failed(old(self), feed@, e),
            },
            r is Ok && is_share(crash_percent@) && old(self).feeds()[feed@].price@.0 > 0 ==> {
                &&& final(self).feeds()[feed@].price@.0 >= 0
                &&& stands_below(final(self).feeds()[feed@].price@, old(self).feeds()[feed@].price@)
            },
    {
        let current = match self.get_price(feed) {
            Some(current) => current,
            None => { return Err(ShadowOracleError::not_found(feed)); },
        };
        proof {
            if is_share(crash_percent@) && current@.0 > 0 {
                lemma_crash_lowers_decimal(current@, crash_percent@);
            }
        }
        let new_price = current.shifted_by(crash_percent);
        self.set_price(feed, new_price)
    }

    /// Simulates a depeg of the feed at `feed`: a transmission of `new_price`.
    pub fn simulate_depeg(&mut self, feed: &Address, new_price: Decimal) -> (r: Result<
        (),
        ShadowOracleError,
    >)
        requires
            old(self).wf(),
            old(self).feeds().contains_key(feed@) ==> old(self).feeds()[feed@].round_id
                < u32::MAX,
        ensures
            final(self).wf(),
            r is Ok <==> old(self).can_update(feed@) && write_accepted(
                feed@,
                old(self).feeds()[feed@].updated(new_price, old(self).clock().unwrap()).encoding(),
            ),
            old(self).can_update(feed@) && !is_reserved(feed@) ==> r is Ok,
            !old(self).can_update(feed@) ==> r is Err,
            match r {
                Ok(_) => old(self).can_update(feed@) && final(self).holds_since(
                    old(self),
                    feed@,
                    old(self).feeds()[feed@].updated(new_price, old(self).clock().unwrap()),
                ),
                Err(e) => final(self).update_failed(old(self), feed@, e),
            },
    {
        self.set_price(feed, new_price)
    }

    /// Writes `feed` as the account at `address` and, where the sandbox
    /// accepts it, retains it there. Returns whether it did.
    fn set_account(&mut self, address: &Address, feed: ChainlinkFeed) -> (accepted: bool)
        requires
            old(self).wf(),
        ensures
            final(self).wf(),
            accepted ==> final(self).holds_since(old(self), address@, feed),
            !accepted ==> final(self).same_as(old(self)),
            !is_reserved(address@) ==> accepted,
            accepted == write_accepted(address@, feed.encoding()),
    {
        let _ = feed.price.scale();
        let data = feed.to_bytes();
        let accepted = store_account(self.svm, address, data, &self.program_id);
        if accepted {
            self.price_feeds.insert(*address, feed);
        }
        accepted
    }
}

} // verus!

//! The streaming price account: a fixed structure of 208 bytes, and the
//! registry of such accounts.

use crate::address::Address;
use crate::bytes::{
    append, i16_bytes, i32_bytes, i64_bytes, le_i16, le_i32, le_i64, lemma_le_lengths, zeroed,
    zeros,
};
use crate::ema::{ema_next, ema_step, ema_step_unsigned, EMA_WEIGHT};
use crate::arith::{clamp, clamp_u64, magnitude};
use crate::decimal::{
    decimal_of, depeg_confidence, depeg_confidence_of, fitted, is_share, lemma_crash_lowers,
    percentage_shift, scaled_value, shifted, to_decimal, to_decimal_unsigned, to_scaled, to_scaled_unsigned, Decimal,
    CRASH_CONFIDENCE_FACTOR,
};
use crate::error::ShadowOracleError;
use crate::ledger::{fresh_address, registry_account, store_account, wall_clock_time};
use crate::price::{scale_of, PriceConf, PriceStatus, StandardFeeds};
use crate::substrate::{is_reserved, svm_accounts, write_accepted};
use crate::table::FeedTable;
use vstd::bytes::{spec_u32_to_le_bytes, spec_u64_to_le_bytes, u32_to_le_bytes, u64_to_le_bytes};
use vstd::prelude::*;

verus! {

/// Text of the address of the program that owns the accounts.
pub const PYTH_PROGRAM_ID: &'static str = "FsJ3A3u2vn5cTVofAjvy6y5kwABJAqYWpe4975bi2epH";

/// Magic number at the head of every account.
pub const PYTH_MAGIC: u32 = 0xa1b2c3d4;

/// Version of the account format.
pub const PYTH_VERSION: u32 = 2;

/// Tag of a price account.
pub const ACCOUNT_TYPE_PRICE: u32 = 3;

/// Length of the account in bytes.
pub const PYTH_ACCOUNT_SIZE: usize = 208;

/// Length of the links to the product account and to the next price
/// account, which stay unset: 32 zero bytes each.
pub const LINKS_SIZE: usize = 64;

/// Slot that a new account is valid at; the slot before is its previous one.
pub const FIRST_SLOT: u64 = 1000;

/// The aggregate: the current price with its confidence and status.
#[derive(Debug, Clone, Copy)]
pub struct PriceInfo {
    pub price: i64,
    pub conf: u64,
    pub status: u32,
    pub corp_act: u32,
    pub pub_slot: u64,
}

/// One price account, field by field in the order of its bytes. Between
/// `drv4` and `prev_slot` lie the two unset links.
#[derive(Debug, Clone, Copy)]
pub struct PythPriceAccount {
    pub magic: u32,
    pub ver: u32,
    pub atype: u32,
    pub size: u32,
    pub price_type: u32,
    pub expo: i32,
    pub num: u32,
    pub num_qt: u32,
    pub last_slot: u64,
    pub valid_slot: u64,
    pub ema_price: i64,
    pub ema_conf: u64,
    pub timestamp: i64,
    pub min_pub: u8,
    pub drv2: u8,
    pub drv3: i16,
    pub drv4: i32,
    pub prev_slot: u64,
    pub prev_price: i64,
    pub prev_conf: u64,
    pub prev_timestamp: i64,
    pub agg: PriceInfo,
}

/// The code that stands for a status in the account.
pub open spec fn status_code(status: PriceStatus) -> u32 {
    match status {
        PriceStatus::Unknown => 0,
        PriceStatus::Trading => 1,
        PriceStatus::Halted => 2,
        PriceStatus::Auction => 3,
    }
}

/// The code that stands for a status in the account.
pub fn pyth_status(status: PriceStatus) -> (code: u32)
    ensures
        code == status_code(status),
{
    match status {
        PriceStatus::Unknown => 0,
        PriceStatus::Trading => 1,
        PriceStatus::Halted => 2,
        PriceStatus::Auction => 3,
    }
}

impl PriceInfo {
    /// The 32 bytes of the aggregate.
    pub open spec fn encoding(self) -> Seq<u8> {
        le_i64(self.price) + spec_u64_to_le_bytes(self.conf) + spec_u32_to_le_bytes(self.status)
            + spec_u32_to_le_bytes(self.corp_act) + spec_u64_to_le_bytes(self.pub_slot)
    }
}

impl PythPriceAccount {
    /// The account that a configuration gives at time `now`: the time is the
    /// configuration's publish time where it has one. The previous values
    /// are the current ones, but for the slot.
    pub open spec fn created(conf: PriceConf, now: i64) -> PythPriceAccount {
        let time = match conf.publish_time {
            Some(t) => t,
            None => now,
        };
        PythPriceAccount {
            magic: PYTH_MAGIC,
            ver: PYTH_VERSION,
            atype: ACCOUNT_TYPE_PRICE,
            size: PYTH_ACCOUNT_SIZE as u32,
            price_type: 1,
            expo: conf.expo,
            num: 1,
            num_qt: 1,
            last_slot: FIRST_SLOT,
            valid_slot: FIRST_SLOT,
            ema_price: match conf.ema_price {
                Some(p) => p,
                None => conf.price,
            },
            ema_conf: match conf.ema_conf {
                Some(c) => c,
                None => conf.conf,
            },
            timestamp: time,
            min_pub: 1,
            drv2: 0,
            drv3: 0,
            drv4: 0,
            prev_slot: (FIRST_SLOT - 1) as u64,
            prev_price: conf.price,
            prev_conf: conf.conf,
            prev_timestamp: time,
            agg: PriceInfo {
                price: conf.price,
                conf: conf.conf,
                status: status_code(conf.status),
                corp_act: 0,
                pub_slot: FIRST_SLOT,
            },
        }
    }

    /// The account after a price update at time `now`: the current values
    /// move to the previous ones, the slots go up by one, and both averages
    /// take one smoothing step.
    pub open spec fn updated(self, price: i64, conf: u64, now: i64) -> PythPriceAccount {
        PythPriceAccount {
            prev_price: self.agg.price,
            prev_conf: self.agg.conf,
            prev_timestamp: self.timestamp,
            prev_slot: self.last_slot,
            last_slot: (self.last_slot + 1) as u64,
            valid_slot: (self.last_slot + 1) as u64,
            timestamp: now,
            ema_price: ema_next(self.ema_price as int, price as int, EMA_WEIGHT as nat) as i64,
            ema_conf: ema_next(self.ema_conf as int, conf as int, EMA_WEIGHT as nat) as u64,
            agg: PriceInfo {
                price,
                conf,
                pub_slot: (self.last_slot + 1) as u64,
                ..self.agg
            },
            ..self
        }
    }

    /// The count of fractional digits of the account's scaled integers: the
    /// absolute value of its exponent.
    pub open spec fn scale(self) -> nat {
        magnitude(self.expo as int)
    }

    /// An amount in dollars as a price at the account's own scale, rounded
    /// toward zero and clamped into the field.
    pub open spec fn price_at_scale(self, amount: (int, nat)) -> i64 {
        clamp(scaled_value(amount, self.scale()), i64::MIN as int, i64::MAX as int) as i64
    }

    /// An amount in dollars as a confidence at the account's own scale,
    /// rounded toward zero and clamped into the field.
    pub open spec fn confidence_at_scale(self, amount: (int, nat)) -> u64 {
        clamp(scaled_value(amount, self.scale()), 0, u64::MAX as int) as u64
    }

    /// Whether this is the account that `conf` gives at this account's own time.
    pub open spec fn is_created_from(self, conf: PriceConf) -> bool {
        self == Self::created(conf, self.timestamp)
    }

    /// The account with another status.
    pub open spec fn with_status(self, status: PriceStatus) -> PythPriceAccount {
        PythPriceAccount { agg: PriceInfo { status: status_code(status), ..self.agg }, ..self }
    }

    /// The bytes of the account: every field in little-endian order, one
    /// after another without gaps.
    pub open spec fn encoding(self) -> Seq<u8> {
        spec_u32_to_le_bytes(self.magic) + spec_u32_to_le_bytes(self.ver) + spec_u32_to_le_bytes(
            self.atype,
        ) + spec_u32_to_le_bytes(self.size) + spec_u32_to_le_bytes(self.price_type) + le_i32(
            self.expo,
        ) + spec_u32_to_le_bytes(self.num) + spec_u32_to_le_bytes(self.num_qt)
            + spec_u64_to_le_bytes(self.last_slot) + spec_u64_to_le_bytes(self.valid_slot)
            + le_i64(self.ema_price) + spec_u64_to_le_bytes(self.ema_conf) + le_i64(self.timestamp)
            + seq![self.min_pub, self.drv2] + le_i16(self.drv3) + le_i32(self.drv4) + zeroed(LINKS_SIZE as nat)
            + spec_u64_to_le_bytes(self.prev_slot) + le_i64(self.prev_price)
            + spec_u64_to_le_bytes(self.prev_conf) + le_i64(self.prev_timestamp)
            + self.agg.encoding()
    }

    /// The encoding is as long as the account's size says.
    pub proof fn lemma_encoding_len(self)
        ensures
            self.encoding().len() == PYTH_ACCOUNT_SIZE,
    {
        lemma_le_lengths();
    }

    /// Where the fields lie: the offset of each field that a reader of prices
    /// looks at.
    pub proof fn lemma_field_offsets(self)
        ensures
            self.encoding().subrange(0, 4) == spec_u32_to_le_bytes(self.magic),
            self.encoding().subrange(4, 8) == spec_u32_to_le_bytes(self.ver),
            self.encoding().subrange(8, 12) == spec_u32_to_le_bytes(self.atype),
            self.encoding().subrange(12, 16) == spec_u32_to_le_bytes(self.size),
            self.encoding().subrange(20, 24) == le_i32(self.expo),
            self.encoding().subrange(32, 40) == spec_u64_to_le_bytes(self.last_slot),
            self.encoding().subrange(40, 48) == spec_u64_to_le_bytes(self.valid_slot),
            self.encoding().subrange(48, 56) == le_i64(self.ema_price),
            self.encoding().subrange(56, 64) == spec_u64_to_le_bytes(self.ema_conf),
            self.encoding().subrange(64, 72) == le_i64(self.timestamp),
            self.encoding().subrange(144, 152) == spec_u64_to_le_bytes(self.prev_slot),
            self.encoding().subrange(152, 160) == le_i64(self.prev_price),
            self.encoding().subrange(160, 168) == spec_u64_to_le_bytes(self.prev_conf),
            self.encoding().subrange(168, 176) == le_i64(self.prev_timestamp),
            self.encoding().subrange(176, 184) == le_i64(self.agg.price),
            self.encoding().subrange(184, 192) == spec_u64_to_le_bytes(self.agg.conf),
            self.encoding().subrange(192, 196) == spec_u32_to_le_bytes(self.agg.status),
            self.encoding().subrange(200, 208) == spec_u64_to_le_bytes(self.agg.pub_slot),
    {
        lemma_le_lengths();
        let e = self.encoding();
        assert(e.subrange(0, 4) =~= spec_u32_to_le_bytes(self.magic));
        assert(e.subrange(4, 8) =~= spec_u32_to_le_bytes(self.ver));
        assert(e.subrange(8, 12) =~= spec_u32_to_le_bytes(self.atype));
        assert(e.subrange(12, 16) =~= spec_u32_to_le_bytes(self.size));
        assert(e.subrange(20, 24) =~= le_i32(self.expo));
        assert(e.subrange(32, 40) =~= spec_u64_to_le_bytes(self.last_slot));
        assert(e.subrange(40, 48) =~= spec_u64_to_le_bytes(self.valid_slot));
        assert(e.subrange(48, 56) =~= le_i64(self.ema_price));
        assert(e.subrange(56, 64) =~= spec_u64_to_le_bytes(self.ema_conf));
        assert(e.subrange(64, 72) =~= le_i64(self.timestamp));
        assert(e.subrange(144, 152) =~= spec_u64_to_le_bytes(self.prev_slot));
        assert(e.subrange(152, 160) =~= le_i64(self.prev_price));
        assert(e.subrange(160, 168) =~= spec_u64_to_le_bytes(self.prev_conf));
        assert(e.subrange(168, 176) =~= le_i64(self.prev_timestamp));
        assert(e.subrange(176, 184) =~= le_i64(self.agg.price));
        assert(e.subrange(184, 192) =~= spec_u64_to_le_bytes(self.agg.conf));
        assert(e.subrange(192, 196) =~= spec_u32_to_le_bytes(self.agg.status));
        assert(e.subrange(200, 208) =~= spec_u64_to_le_bytes(self.agg.pub_slot));
    }

    /// The account that a configuration gives at time `now`.
    pub fn from_conf_at(conf: &PriceConf, now: i64) -> (account: Self)
        ensures
            account == Self::created(*conf, now),
    {
        let time = match conf.publish_time {
            Some(t) => t,
            None => now,
        };
        PythPriceAccount {
            magic: PYTH_MAGIC,
            ver: PYTH_VERSION,
            atype: ACCOUNT_TYPE_PRICE,
            size: PYTH_ACCOUNT_SIZE as u32,
            price_type: 1,
            expo: conf.expo,
            num: 1,
            num_qt: 1,
            last_slot: FIRST_SLOT,
            valid_slot: FIRST_SLOT,
            ema_price: match conf.ema_price {
                Some(p) => p,
                None => conf.price,
            },
            ema_conf: match conf.ema_conf {
                Some(c) => c,
                None => conf.conf,
            },
            timestamp: time,
            min_pub: 1,
            drv2: 0,
            drv3: 0,
            drv4: 0,
            prev_slot: FIRST_SLOT - 1,
            prev_price: conf.price,
            prev_conf: conf.conf,
            prev_timestamp: time,
            agg: PriceInfo {
                price: conf.price,
                conf: conf.conf,
                status: pyth_status(conf.status),
                corp_act: 0,
                pub_slot: FIRST_SLOT,
            },
        }
    }

    /// The account that a configuration gives now: at its publish time where
    /// it has one, else at the wall clock's time.
    pub fn from_conf(conf: &PriceConf) -> (account: Self)
        ensures
            account == Self::created(*conf, account.timestamp),
            conf.publish_time is None ==> account.timestamp >= 0,
    {
        match conf.publish_time {
            Some(t) => Self::from_conf_at(conf, t),
            None => Self::from_conf_at(conf, wall_clock_time()),
        }
    }

    /// Updates the price at time `now`.
    pub fn set_price_at(&mut self, price: i64, conf: u64, now: i64)
        requires
            old(self).last_slot < u64::MAX,
        ensures
            *final(self) == old(self).updated(price, conf, now),
    {
        self.prev_price = self.agg.price;
        self.prev_conf = self.agg.conf;
        self.prev_timestamp = self.timestamp;
        self.prev_slot = self.last_slot;

        self.agg.price = price;
        self.agg.conf = conf;
        self.last_slot = self.last_slot + 1;
        self.valid_slot = self.last_slot;
        self.agg.pub_slot = self.last_slot;

        self.timestamp = now;

        self.ema_price = ema_step(self.ema_price, price, EMA_WEIGHT);
        self.ema_conf = ema_step_unsigned(self.ema_conf, conf, EMA_WEIGHT);
    }

    /// Updates the price at the wall clock's time.
    pub fn set_price(&mut self, price: i64, conf: u64)
        requires
            old(self).last_slot < u64::MAX,
        ensures
            *final(self) == old(self).updated(price, conf, final(self).timestamp),
            final(self).timestamp >= 0,
    {
        let now = wall_clock_time();
        self.set_price_at(price, conf, now);
    }

    /// Sets the status.
    pub fn set_status(&mut self, status: PriceStatus)
        ensures
            *final(self) == old(self).with_status(status),
    {
        self.agg.status = pyth_status(status);
    }

    /// The bytes of the account.
    pub fn to_bytes(&self) -> (bytes: Vec<u8>)
        ensures
            bytes@ == self.encoding(),
            bytes@.len() == PYTH_ACCOUNT_SIZE,
    {
        let mut buf: Vec<u8> = Vec::new();
        append(&mut buf, &u32_to_le_bytes(self.magic));
        append(&mut buf, &u32_to_le_bytes(self.ver));
        append(&mut buf, &u32_to_le_bytes(self.atype));
        append(&mut buf, &u32_to_le_bytes(self.size));
        append(&mut buf, &u32_to_le_bytes(self.price_type));
        append(&mut buf, &i32_bytes(self.expo));
        append(&mut buf, &u32_to_le_bytes(self.num));
        append(&mut buf, &u32_to_le_bytes(self.num_qt));
        append(&mut buf, &u64_to_le_bytes(self.last_slot));
        append(&mut buf, &u64_to_le_bytes(self.valid_slot));
        append(&mut buf, &i64_bytes(self.ema_price));
        append(&mut buf, &u64_to_le_bytes(self.ema_conf));
        append(&mut buf, &i64_bytes(self.timestamp));
        let mut flags: Vec<u8> = Vec::new();
        flags.push(self.min_pub);
        flags.push(self.drv2);
        assert(flags@ =~= seq![self.min_pub, self.drv2]);
        append(&mut buf, &flags);
        append(&mut buf, &i16_bytes(self.drv3));
        append(&mut buf, &i32_bytes(self.drv4));
        append(&mut buf, &zeros(LINKS_SIZE));
        append(&mut buf, &u64_to_le_bytes(self.prev_slot));
        append(&mut buf, &i64_bytes(self.prev_price));
        append(&mut buf, &u64_to_le_bytes(self.prev_conf));
        append(&mut buf, &i64_bytes(self.prev_timestamp));
        let mut agg: Vec<u8> = Vec::new();
        append(&mut agg, &i64_bytes(self.agg.price));
        append(&mut agg, &u64_to_le_bytes(self.agg.conf));
        append(&mut agg, &u32_to_le_bytes(self.agg.status));
        append(&mut agg, &u32_to_le_bytes(self.agg.corp_act));
        append(&mut agg, &u64_to_le_bytes(self.agg.pub_slot));
        assert(agg@ =~= self.agg.encoding());
        append(&mut buf, &agg);
        proof {
            self.lemma_encoding_len();
        }
        buf
    }
}

/// Bytes of the address of the program that owns the accounts.
pub open spec fn pyth_program_address() -> Seq<u8> {
    seq![
        220u8, 229, 235, 225, 228, 156, 59, 159, 17, 76, 181, 84, 76, 80, 169, 158,
        192, 214, 146, 214, 63, 86, 121, 90, 224, 41, 172, 131, 217, 234, 139, 226,
    ]
}

/// The address of the program that owns the accounts.
pub fn pyth_program_id() -> (a: Address)
    ensures
        a@ == pyth_program_address(),
{
    let a = Address::new(
        [
            220, 229, 235, 225, 228, 156, 59, 159, 17, 76, 181, 84, 76, 80, 169, 158,
            192, 214, 146, 214, 63, 86, 121, 90, 224, 41, 172, 131, 217, 234, 139, 226,
        ],
    );
    assert(a@ =~= pyth_program_address());
    a
}

/// The registry of price accounts in one ledger sandbox.
pub struct Pyth<'a> {
    svm: &'a mut litesvm::LiteSVM,
    price_feeds: FeedTable<PythPriceAccount>,
    program_id: Address,
}

impl<'a> Pyth<'a> {
    /// The accounts retained, by address.
    pub closed spec fn feeds(&self) -> Map<Seq<u8>, PythPriceAccount> {
        self.price_feeds@
    }

    /// The accounts that the sandbox holds, by address.
    pub closed spec fn accounts(&self) -> Map<Seq<u8>, (Seq<u8>, Seq<u8>, u64, bool, u64)> {
        svm_accounts(*self.svm)
    }

    /// The address of the program that the accounts are written under.
    pub closed spec fn owner(&self) -> Seq<u8> {
        self.program_id@
    }

    /// Every retained account stands in the sandbox, encoded in full, under
    /// the registry's program.
    pub closed spec fn wf(&self) -> bool {
        &&& self.price_feeds.wf()
        &&& forall|k: Seq<u8>| #[trigger]
            self.price_feeds@.contains_key(k) ==> svm_accounts(*self.svm).contains_key(k)
                && svm_accounts(*self.svm)[k] == registry_account(
                self.price_feeds@[k].encoding(),
                self.program_id@,
            )
    }

    /// What a registry in good order keeps is what the sandbox holds: every
    /// retained account stands at its address as the full encoding of what
    /// is retained, under the registry's program, with the registries'
    /// balance.
    pub proof fn lemma_written_through(&self, address: Seq<u8>)
        requires
            self.wf(),
            self.feeds().contains_key(address),
        ensures
            self.accounts().contains_key(address),
            self.accounts()[address] == registry_account(
                self.feeds()[address].encoding(),
                self.owner(),
            ),
    {
    }

    /// Nothing has changed since `before`.
    pub open spec fn same_as(&self, before: &Self) -> bool {
        &&& self.feeds() == before.feeds()
        &&& self.accounts() == before.accounts()
        &&& self.owner() == before.owner()
    }

    /// Since `before`, `account` has been retained under `address` and
    /// written there, and nothing else has changed.
    pub open spec fn holds_since(
        &self,
        before: &Self,
        address: Seq<u8>,
        account: PythPriceAccount,
    ) -> bool {
        &&& self.feeds() == before.feeds().insert(address, account)
        &&& self.accounts() == before.accounts().insert(
            address,
            registry_account(account.encoding(), before.owner()),
        )
        &&& self.owner() == before.owner()
    }

    /// A registry on `svm` that writes under the protocol's own program.
    pub fn new(svm: &'a mut litesvm::LiteSVM) -> (registry: Self)
        ensures
            registry.wf(),
            registry.feeds() == Map::<Seq<u8>, PythPriceAccount>::empty(),
            registry.accounts() == svm_accounts(*old(svm)),
            registry.owner() == pyth_program_address(),
    {
        Pyth { svm, price_feeds: FeedTable::new(), program_id: pyth_program_id() }
    }

    /// A registry on `svm` that writes under `program_id`.
    pub fn with_program_id(svm: &'a mut litesvm::LiteSVM, program_id: Address) -> (registry: Self)
        ensures
            registry.wf(),
            registry.feeds() == Map::<Seq<u8>, PythPriceAccount>::empty(),
            registry.accounts() == svm_accounts(*old(svm)),
            registry.owner() == program_id@,
    {
        Pyth { svm, price_feeds: FeedTable::new(), program_id }
    }

    /// Creates a feed at a fresh address, and returns the address. It fails
    /// only where the sandbox refuses the write; nothing has changed then.
    pub fn create_price_feed(&mut self, conf: PriceConf) -> (r: Result<Address, ShadowOracleError>)
        requires
            old(self).wf(),
        ensures
            final(self).wf(),
            match r {
                Ok(address) => final(self).holds_since(
                    old(self),
                    address@,
                    PythPriceAccount::created(conf, final(self).feeds()[address@].timestamp),
                ) && (conf.publish_time is None ==> final(self).feeds()[address@].timestamp >= 0),
                Err(e) => e.is_write_refused() && final(self).same_as(old(self)),
            },
    {
        let address = fresh_address();
        self.create_price_feed_at(address, conf)
    }

    /// Creates a feed at `address`, in place of a feed retained there, and
    /// returns the address. It fails only where the sandbox refuses the
    /// write; nothing has changed then.
    pub fn create_price_feed_at(&mut self, address: Address, conf: PriceConf) -> (r: Result<
        Address,
        ShadowOracleError,
    >)
        requires
            old(self).wf(),
        ensures
            final(self).wf(),
            !is_reserved(address@) ==> r is Ok,
            match r {
                Ok(at) => at == address && final(self).holds_since(
                    old(self),
                    address@,
                    PythPriceAccount::created(conf, final(self).feeds()[address@].timestamp),
                ) && (conf.publish_time is None ==> final(self).feeds()[address@].timestamp >= 0),
                Err(e) => e.is_write_refused() && final(self).same_as(old(self)),
            },
    {
        let account = PythPriceAccount::from_conf(&conf);
        if self.set_account(&address, account) {
            Ok(address)
        } else {
            Err(ShadowOracleError::write_refused())
        }
    }

    /// Updates the price of the feed at `feed`: the slots go up by one, the
    /// time is the wall clock's. It fails where no feed is retained there, or
    /// where the sandbox refuses the write; nothing has changed then.
    pub fn set_price(&mut self, feed: &Address, price: i64, conf: u64) -> (r: Result<
        (),
        ShadowOracleError,
    >)
        requires
            old(self).wf(),
            old(self).feeds().contains_key(feed@) ==> old(self).feeds()[feed@].last_slot
                < u64::MAX,
        ensures
            final(self).wf(),
            old(self).feeds().contains_key(feed@) && !is_reserved(feed@) ==> r is Ok,
            !old(self).feeds().contains_key(feed@) ==> r is Err && r->Err_0.is_not_found(feed@),
            old(self).feeds().contains_key(feed@) && r is Err ==> r->Err_0.is_write_refused(),
            r is Err ==> final(self).same_as(old(self)),
            r is Ok ==> old(self).feeds().contains_key(feed@) && final(self).holds_since(
                old(self),
                feed@,
                old(self).feeds()[feed@].updated(
                    price,
                    conf,
                    final(self).feeds()[feed@].timestamp,
                ),
            ) && final(self).feeds()[feed@].timestamp >= 0,
            r is Ok ==> {
                let before = old(self).feeds()[feed@];
                let after = final(self).feeds()[feed@];
                &&& after.last_slot == before.last_slot + 1
                &&& after.valid_slot == before.last_slot + 1
                &&& after.agg.pub_slot == before.last_slot + 1
                &&& after.prev_slot == before.last_slot
            },
    {
        match self.price_feeds.get(feed) {
            None => Err(ShadowOracleError::not_found(feed)),
            Some(found) => {
                let mut account = found;
                account.set_price(price, conf);
                if self.set_account(feed, account) {
                    Ok(())
                } else {
                    Err(ShadowOracleError::write_refused())
                }
            },
        }
    }

    /// Updates the price of the feed at `feed` to amounts in dollars, which
    /// are brought to the feed's own scale first: as many fractional digits
    /// as its exponent says.
    pub fn set_price_usd(&mut self, feed: &Address, price: Decimal, confidence: Decimal) -> (r:
        Result<(), ShadowOracleError>)
        requires
            old(self).wf(),
            old(self).feeds().contains_key(feed@) ==> old(self).feeds()[feed@].last_slot
                < u64::MAX,
        ensures
            final(self).wf(),
            old(self).feeds().contains_key(feed@) && !is_reserved(feed@) ==> r is Ok,
            !old(self).feeds().contains_key(feed@) ==> r is Err && r->Err_0.is_not_found(feed@),
            old(self).feeds().contains_key(feed@) && r is Err ==> r->Err_0.is_write_refused(),
            r is Err ==> final(self).same_as(old(self)),
            r is Ok ==> old(self).feeds().contains_key(feed@) && final(self).holds_since(
                old(self),
                feed@,
                old(self).feeds()[feed@].updated(
                    old(self).feeds()[feed@].price_at_scale(price@),
                    old(self).feeds()[feed@].confidence_at_scale(confidence@),
                    final(self).feeds()[feed@].timestamp,
                ),
            ) && final(self).feeds()[feed@].timestamp >= 0,
    {
        let digits = match self.price_feeds.get(feed) {
            Some(found) => scale_of(found.expo),
            None => { return Err(ShadowOracleError::not_found(feed)); },
        };
        self.set_price(feed, to_scaled(price, digits), to_scaled_unsigned(confidence, digits))
    }

    /// Sets the status of the feed at `feed`. It fails where no feed is
    /// retained there, or where the sandbox refuses the write; nothing has
    /// changed then.
    pub fn set_status(&mut self, feed: &Address, status: PriceStatus) -> (r: Result<
        (),
        ShadowOracleError,
    >)
        requires
            old(self).wf(),
        ensures
            final(self).wf(),
            r is Ok <==> old(self).feeds().contains_key(feed@) && write_accepted(
                feed@,
                old(self).feeds()[feed@].with_status(status).encoding(),
            ),
            old(self).feeds().contains_key(feed@) && !is_reserved(feed@) ==> r is Ok,
            !old(self).feeds().contains_key(feed@) ==> r is Err && r->Err_0.is_not_found(feed@),
            old(self).feeds().contains_key(feed@) && r is Err ==> r->Err_0.is_write_refused(),
            r is Err ==> final(self).same_as(old(self)),
            r is Ok ==> old(self).feeds().contains_key(feed@) && final(self).holds_since(
                old(self),
                feed@,
                old(self).feeds()[feed@].with_status(status),
            ),
    {
        match self.price_feeds.get(feed) {
            None => Err(ShadowOracleError::not_found(feed)),
            Some(found) => {
                let mut account = found;
                account.set_status(status);
                if self.set_account(feed, account) {
                    Ok(())
                } else {
                    Err(ShadowOracleError::write_refused())
                }
            },
        }
    }

    /// The price and the confidence of the feed at `feed`, as scaled integers.
    pub fn get_price(&self, feed: &Address) -> (r: Option<(i64, u64)>)
        requires
            self.wf(),
        ensures
            r == if self.feeds().contains_key(feed@) {
                Some((self.feeds()[feed@].agg.price, self.feeds()[feed@].agg.conf))
            } else {
                None
            },
    {
        match self.price_feeds.get(feed) {
            Some(account) => Some((account.agg.price, account.agg.conf)),
            None => None,
        }
    }

    /// The latest slot of the feed at `feed`; an update needs it to be below the largest.
    pub fn get_slot(&self, feed: &Address) -> (r: Option<u64>)
        requires
            self.wf(),
        ensures
            r == if self.feeds().contains_key(feed@) {
                Some(self.feeds()[feed@].last_slot)
            } else {
                None
            },
    {
        match self.price_feeds.get(feed) {
            Some(account) => Some(account.last_slot),
            None => None,
        }
    }

    /// The price and the confidence of the feed at `feed`, in dollars: the
    /// scaled integers taken at the feed's own scale.
    pub fn get_price_usd(&self, feed: &Address) -> (r: Option<(Decimal, Decimal)>)
        requires
            self.wf(),
        ensures
            r is Some == self.feeds().contains_key(feed@),
            r matches Some(pair) ==> pair.0@ == decimal_of(
                self.feeds()[feed@].agg.price as int,
                magnitude(self.feeds()[feed@].expo as int),
            ) && pair.1@ == fitted(
                self.feeds()[feed@].agg.conf as int,
                magnitude(self.feeds()[feed@].expo as int),
            ),
    {
        match self.price_feeds.get(feed) {
            Some(account) => {
                let digits = scale_of(account.expo);
                Some(
                    (
                        to_decimal(account.agg.price, digits),
                        to_decimal_unsigned(account.agg.conf, digits),
                    ),
                )
            },
            None => None,
        }
    }

    /// Since `before`, the five standard feeds have been created at the
    /// addresses `made`, in the order SOL, BTC, ETH, USDC, USDT, and nothing
    /// else has changed: where two of the addresses are the same, the later
    /// feed stands there.
    pub open spec fn standard_feeds_since(&self, before: &Self, made: StandardFeeds) -> bool {
        &&& forall|k: Seq<u8>|
            !made.has(k) ==> (self.feeds().contains_key(k) == before.feeds().contains_key(k))
                && self.feeds()[k] == before.feeds()[k]
        &&& forall|k: Seq<u8>|
            !made.has(k) ==> (self.accounts().contains_key(k) == before.accounts().contains_key(
                k,
            )) && self.accounts()[k] == before.accounts()[k]
        &&& forall|k: Seq<u8>| made.has(k) ==> self.feeds().contains_key(k)
        &&& self.feeds()[made.usdt@].is_created_from(PriceConf::usd(100_000_000, 10_000))
        &&& self.feeds()[made.usdc@].is_created_from(PriceConf::usd(100_000_000, 10_000))
        &&& made.distinct() ==> {
            &&& self.feeds()[made.sol@].is_created_from(
                PriceConf::usd(10_000_000_000, 10_000_000),
            )
            &&& self.feeds()[made.btc@].is_created_from(
                PriceConf::usd(4_300_000_000_000, 1_000_000_000),
            )
            &&& self.feeds()[made.eth@].is_created_from(
                PriceConf::usd(220_000_000_000, 100_000_000),
            )
        }
    }

    /// Creates the five standard feeds at the addresses `at`: SOL at 100
    /// dollars, BTC at 43000, ETH at 2200, USDC and USDT at one, in this
    /// order. It fails only where the sandbox refuses a
    /// write, and then stops: the feeds created before stay.
    pub fn create_standard_feeds_at(&mut self, at: StandardFeeds) -> (r: Result<
        StandardFeeds,
        ShadowOracleError,
    >)
        requires
            old(self).wf(),
        ensures
            final(self).wf(),
            final(self).owner() == old(self).owner(),
            forall|k: Seq<u8>|
                old(self).feeds().contains_key(k) ==> final(self).feeds().contains_key(k),
            at.none_reserved() ==> r is Ok,
            r matches Err(e) ==> e.is_write_refused(),
            r matches Ok(made) ==> made == at && final(self).standard_feeds_since(old(self), at),
    {
        let sol = match self.create_price_feed_at(at.sol, PriceConf::standard_sol()) {
            Ok(address) => address,
            Err(e) => { return Err(e); },
        };
        let btc = match self.create_price_feed_at(at.btc, PriceConf::standard_btc()) {
            Ok(address) => address,
            Err(e) => { return Err(e); },
        };
        let eth = match self.create_price_feed_at(at.eth, PriceConf::standard_eth()) {
            Ok(address) => address,
            Err(e) => { return Err(e); },
        };
        let usdc = match self.create_price_feed_at(at.usdc, PriceConf::stablecoin()) {
            Ok(address) => address,
            Err(e) => { return Err(e); },
        };
        let usdt = match self.create_price_feed_at(at.usdt, PriceConf::stablecoin()) {
            Ok(address) => address,
            Err(e) => { return Err(e); },
        };
        Ok(StandardFeeds { sol, btc, eth, usdc, usdt })
    }

    /// Creates the five standard feeds, each at a fresh address, which is
    /// random. It fails only where the sandbox refuses a write, as
    /// [`Self::create_standard_feeds_at`] does.
    pub fn create_standard_feeds(&mut self) -> (r: Result<StandardFeeds, ShadowOracleError>)
        requires
            old(self).wf(),
        ensures
            final(self).wf(),
            final(self).owner() == old(self).owner(),
            forall|k: Seq<u8>|
                old(self).feeds().contains_key(k) ==> final(self).feeds().contains_key(k),
            r matches Err(e) ==> e.is_write_refused(),
            r matches Ok(made) ==> final(self).standard_feeds_since(old(self), made),
    {
        let sol = fresh_address();
        let btc = fresh_address();
        let eth = fresh_address();
        let usdc = fresh_address();
        let usdt = fresh_address();
        self.create_standard_feeds_at(StandardFeeds { sol, btc, eth, usdc, usdt })
    }

    /// Simulates a crash of the feed at `feed` by `crash_percent` per cent:
    /// the price is lowered by that share and the confidence is five times
    /// as wide.
    pub fn simulate_crash(&mut self, feed: &Address, crash_percent: Decimal) -> (r: Result<
        (),
        ShadowOracleError,
    >)
        requires
            old(self).wf(),
            old(self).feeds().contains_key(feed@) ==> old(self).feeds()[feed@].last_slot
                < u64::MAX,
        ensures
            final(self).wf(),
            old(self).feeds().contains_key(feed@) && !is_reserved(feed@) ==> r is Ok,
            !old(self).feeds().contains_key(feed@) ==> r is Err && r->Err_0.is_not_found(feed@),
            old(self).feeds().contains_key(feed@) && r is Err ==> r->Err_0.is_write_refused(),
            r is Err ==> final(self).same_as(old(self)),
            r is Ok ==> old(self).feeds().contains_key(feed@) && final(self).holds_since(
                old(self),
                feed@,
                old(self).feeds()[feed@].updated(
                    clamp(
                        shifted(old(self).feeds()[feed@].agg.price as int, crash_percent@),
                        i64::MIN as int,
                        i64::MAX as int,
                    ) as i64,
                    clamp(
                        old(self).feeds()[feed@].agg.conf * CRASH_CONFIDENCE_FACTOR,
                        0,
                        u64::MAX as int,
                    ) as u64,
                    final(self).feeds()[feed@].timestamp,
                ),
            ) && final(self).feeds()[feed@].timestamp >= 0,
            r is Ok && is_share(crash_percent@) && old(self).feeds()[feed@].agg.price > 0 ==> {
                &&& final(self).feeds()[feed@].agg.price == shifted(
                    old(self).feeds()[feed@].agg.price as int,
                    crash_percent@,
                )
                &&& 0 <= final(self).feeds()[feed@].agg.price < old(self).feeds()[feed@].agg.price
            },
            r is Ok && old(self).feeds()[feed@].agg.conf * CRASH_CONFIDENCE_FACTOR <= u64::MAX
                ==> final(self).feeds()[feed@].agg.conf == old(self).feeds()[feed@].agg.conf
                * CRASH_CONFIDENCE_FACTOR,
            r is Ok && 0 < old(self).feeds()[feed@].agg.conf < u64::MAX ==> final(self).feeds()[feed@].agg.conf
                > old(self).feeds()[feed@].agg.conf,

    {
        match self.get_price(feed) {
            None => Err(ShadowOracleError::not_found(feed)),
            Some((current_price, current_conf)) => {
                proof {
                    if is_share(crash_percent@) && current_price > 0 {
                        lemma_crash_lowers(current_price as int, crash_percent@);
                    }
                }
                let new_price = percentage_shift(current_price, crash_percent);
                let new_conf = clamp_u64(
                    (current_conf as i128) * (CRASH_CONFIDENCE_FACTOR as i128),
                );
                self.set_price(feed, new_price, new_conf)
            },
        }
    }

    /// Simulates a depeg of the feed at `feed` to `new_price` dollars: the
    /// confidence grows with the distance from one dollar.
    pub fn simulate_depeg(&mut self, feed: &Address, new_price: Decimal) -> (r: Result<
        (),
        ShadowOracleError,
    >)
        requires
            old(self).wf(),
            old(self).feeds().contains_key(feed@) ==> old(self).feeds()[feed@].last_slot
                < u64::MAX,
        ensures
            final(self).wf(),
            old(self).feeds().contains_key(feed@) && !is_reserved(feed@) ==> r is Ok,
            !old(self).feeds().contains_key(feed@) ==> r is Err && r->Err_0.is_not_found(feed@),
            old(self).feeds().contains_key(feed@) && r is Err ==> r->Err_0.is_write_refused(),
            r is Err ==> final(self).same_as(old(self)),
            r is Ok ==> old(self).feeds().contains_key(feed@) && final(self).holds_since(
                old(self),
                feed@,
                old(self).feeds()[feed@].updated(
                    old(self).feeds()[feed@].price_at_scale(new_price@),
                    old(self).feeds()[feed@].confidence_at_scale(depeg_confidence_of(new_price@)),
                    final(self).feeds()[feed@].timestamp,
                ),
            ) && final(self).feeds()[feed@].timestamp >= 0,
    {
        self.set_price_usd(feed, new_price, depeg_confidence(new_price))
    }

    /// Writes `account` as the account at `address` and, where the sandbox
    /// accepts it, retains it there. Returns whether it did.
    fn set_account(&mut self, address: &Address, account: PythPriceAccount) -> (accepted: bool)
        requires
            old(self).wf(),
        ensures
            final(self).wf(),
            accepted ==> final(self).holds_since(old(self), address@, account),
            !accepted ==> final(self).same_as(old(self)),
            !is_reserved(address@) ==> accepted,
            accepted == write_accepted(address@, account.encoding()),
    {
        let data = account.to_bytes();
        let accepted = store_account(self.svm, address, data, &self.program_id);
        if accepted {
            self.price_feeds.insert(*address, account);
        }
        accepted
    }
}

} // verus!

//! The description of a price point that every protocol is created from.

use crate::address::Address;
use crate::arith::{clamp, clamp_u64, lemma_pow10_values, magnitude, rescale, rescaled};
use crate::decimal::{
    decimal_of, fitted, scaled_value, to_decimal, to_decimal_unsigned, to_scaled,
    to_scaled_unsigned, Decimal, MAX_SCALE,
};
use crate::substrate::is_reserved;
use vstd::prelude::*;

verus! {

/// Count of fractional digits of a price in dollars: the exponent is its negative.
pub const USD_SCALE: u32 = 8;

/// Trading status of a feed, shared by all protocols.
#[derive(Debug, Clone, Copy, PartialEq, Eq, Structural)]
pub enum PriceStatus {
    Trading,
    Halted,
    Unknown,
    Auction,
}

impl Default for PriceStatus {
    fn default() -> (s: Self)
        ensures
            s == PriceStatus::Trading,
    {
        PriceStatus::Trading
    }
}

/// The count of fractional digits that an exponent stands for: its absolute value.
pub fn scale_of(expo: i32) -> (s: u32)
    ensures
        s == magnitude(expo as int),
{
    if expo >= 0 {
        expo as u32
    } else {
        (-(expo as i64)) as u32
    }
}

/// Protocol-independent description of one price point.
#[derive(Debug, Clone, Copy)]
pub struct PriceConf {
    /// Price, scaled by 10^|expo|.
    pub price: i64,
    /// Confidence interval, scaled by 10^|expo|.
    pub conf: u64,
    /// Exponent of the scale.
    pub expo: i32,
    /// Seed of the smoothed price; the price itself where absent.
    pub ema_price: Option<i64>,
    /// Seed of the smoothed confidence; the confidence itself where absent.
    pub ema_conf: Option<u64>,
    /// Publish time; the clock's time where absent.
    pub publish_time: Option<i64>,
    /// Trading status.
    pub status: PriceStatus,
    /// Decimal count, for protocols that scale by it.
    pub decimals: u8,
}

impl Default for PriceConf {
    fn default() -> (c: Self)
        ensures
            c == (PriceConf {
                price: 0,
                conf: 0,
                expo: -8i32,
                ema_price: None,
                ema_conf: None,
                publish_time: None,
                status: PriceStatus::Trading,
                decimals: 8,
            }),
    {
        PriceConf {
            price: 0,
            conf: 0,
            expo: -8i32,
            ema_price: None,
            ema_conf: None,
            publish_time: None,
            status: PriceStatus::Trading,
            decimals: 8,
        }
    }
}

impl PriceConf {
    /// The configuration that [`PriceConf::new_usd`] gives for the scaled
    /// price and confidence.
    pub open spec fn usd(price: int, conf: int) -> PriceConf {
        PriceConf {
            price: price as i64,
            conf: conf as u64,
            expo: -8i32,
            ema_price: None,
            ema_conf: None,
            publish_time: None,
            status: PriceStatus::Trading,
            decimals: 8,
        }
    }

    /// A configuration for a price and a confidence in dollars, at exponent
    /// -8: both are multiplied by 10^8, rounded toward zero and clamped into
    /// their fields.
    pub fn new_usd(price: Decimal, confidence: Decimal) -> (c: Self)
        ensures
            c == Self::usd(
                clamp(scaled_value(price@, USD_SCALE as nat), i64::MIN as int, i64::MAX as int),
                clamp(scaled_value(confidence@, USD_SCALE as nat), 0, u64::MAX as int),
            ),
    {
        PriceConf {
            price: to_scaled(price, USD_SCALE),
            conf: to_scaled_unsigned(confidence, USD_SCALE),
            expo: -8,
            ema_price: None,
            ema_conf: None,
            publish_time: None,
            status: PriceStatus::Trading,
            decimals: 8,
        }
    }

    /// A configuration pegged to one dollar, with a confidence of a hundredth of a cent.
    pub fn stablecoin() -> (c: Self)
        ensures
            c == Self::usd(100_000_000, 10_000),
    {
        let one = Decimal::new(1, 0);
        let tight = Decimal::new(1, 4);
        proof {
            lemma_pow10_values();
            reveal_with_fuel(crate::arith::pow10, 5);
            assert(crate::arith::pow10(4) == 10_000);
            assert(scaled_value(one@, 8) == 100_000_000);
            assert(scaled_value(tight@, 8) == 10_000);
        }
        Self::new_usd(one, tight)
    }

    /// The configuration of the standard feed for SOL: 100 dollars, give or take 0.1.
    pub fn standard_sol() -> (c: Self)
        ensures
            c == Self::usd(10_000_000_000, 10_000_000),
    {
        let price = Decimal::new(100, 0);
        let confidence = Decimal::new(1, 1);
        proof {
            lemma_pow10_values();
            assert(scaled_value(price@, 8) == 10_000_000_000);
            assert(scaled_value(confidence@, 8) == 10_000_000);
        }
        Self::new_usd(price, confidence)
    }

    /// The configuration of the standard feed for BTC: 43000 dollars, give or take 10.
    pub fn standard_btc() -> (c: Self)
        ensures
            c == Self::usd(4_300_000_000_000, 1_000_000_000),
    {
        let price = Decimal::new(43000, 0);
        let confidence = Decimal::new(10, 0);
        proof {
            lemma_pow10_values();
            assert(scaled_value(price@, 8) == 4_300_000_000_000);
            assert(scaled_value(confidence@, 8) == 1_000_000_000);
        }
        Self::new_usd(price, confidence)
    }

    /// The configuration of the standard feed for ETH: 2200 dollars, give or take 1.
    pub fn standard_eth() -> (c: Self)
        ensures
            c == Self::usd(220_000_000_000, 100_000_000),
    {
        let price = Decimal::new(2200, 0);
        let confidence = Decimal::new(1, 0);
        proof {
            lemma_pow10_values();
            assert(scaled_value(price@, 8) == 220_000_000_000);
            assert(scaled_value(confidence@, 8) == 100_000_000);
        }
        Self::new_usd(price, confidence)
    }

    /// A configuration for a volatile asset: the confidence is two per cent of the price.
    pub fn volatile(price: Decimal) -> (c: Self)
        ensures
            c == Self::usd(
                clamp(scaled_value(price@, USD_SCALE as nat), i64::MIN as int, i64::MAX as int),
                clamp(rescaled(2 * price@.0, price@.1 + 2, USD_SCALE as nat), 0, u64::MAX as int),
            ),
    {
        let doubled: i128 = 2 * (price.mantissa() as i128);
        let confidence = clamp_u64(rescale(doubled, price.scale() + 2, USD_SCALE));
        PriceConf {
            price: to_scaled(price, USD_SCALE),
            conf: confidence,
            expo: -8,
            ema_price: None,
            ema_conf: None,
            publish_time: None,
            status: PriceStatus::Trading,
            decimals: 8,
        }
    }

    /// The same configuration, published `seconds_ago` seconds before `now`
    /// (clamped into 64 signed bits).
    pub fn stale_by(self, seconds_ago: i64, now: i64) -> (c: Self)
        ensures
            c == (PriceConf {
                publish_time: Some(
                    clamp(now - seconds_ago, i64::MIN as int, i64::MAX as int) as i64,
                ),
                ..self
            }),
    {
        let mut c = self;
        c.publish_time = Some(crate::arith::clamp_i64(now as i128 - seconds_ago as i128));
        c
    }

    /// The count of fractional digits that the exponent stands for: its absolute value.
    pub fn scale(&self) -> (s: u32)
        ensures
            s == magnitude(self.expo as int),
    {
        scale_of(self.expo)
    }

    /// The price in dollars.
    pub fn price_usd(&self) -> (d: Decimal)
        ensures
            d@ == decimal_of(self.price as int, magnitude(self.expo as int)),
            d@.1 <= MAX_SCALE,
    {
        to_decimal(self.price, self.scale())
    }

    /// The confidence in dollars, as well as a decimal can hold it.
    pub fn conf_usd(&self) -> (d: Decimal)
        ensures
            d@ == fitted(self.conf as int, magnitude(self.expo as int)),
            d@.1 <= MAX_SCALE,
    {
        to_decimal_unsigned(self.conf, self.scale())
    }

    /// The same configuration with another decimal count.
    pub fn with_decimals(self, decimals: u8) -> (c: Self)
        ensures
            c == (PriceConf { decimals, ..self }),
    {
        let mut c = self;
        c.decimals = decimals;
        c
    }

    /// The same configuration with another exponent.
    pub fn with_expo(self, expo: i32) -> (c: Self)
        ensures
            c == (PriceConf { expo, ..self }),
    {
        let mut c = self;
        c.expo = expo;
        c
    }

    /// The same configuration with another status.
    pub fn with_status(self, status: PriceStatus) -> (c: Self)
        ensures
            c == (PriceConf { status, ..self }),
    {
        let mut c = self;
        c.status = status;
        c
    }
}

/// The addresses of the five feeds that a registry creates in one go: SOL,
/// BTC and ETH, then the stablecoins USDC and USDT.
#[derive(Debug, Clone, Copy)]
pub struct StandardFeeds {
    pub sol: Address,
    pub btc: Address,
    pub eth: Address,
    pub usdc: Address,
    pub usdt: Address,
}

impl StandardFeeds {
    /// Whether `address` is one of the five.
    pub open spec fn has(self, address: Seq<u8>) -> bool {
        address == self.sol@ || address == self.btc@ || address == self.eth@ || address
            == self.usdc@ || address == self.usdt@
    }

    /// None of the five is the address of a system variable, or begins as one.
    pub open spec fn none_reserved(self) -> bool {
        !is_reserved(self.sol@) && !is_reserved(self.btc@) && !is_reserved(self.eth@)
            && !is_reserved(self.usdc@) && !is_reserved(self.usdt@)
    }

    /// The five addresses differ from one another.
    pub open spec fn distinct(self) -> bool {
        &&& self.sol@ != self.btc@ && self.sol@ != self.eth@ && self.sol@ != self.usdc@
            && self.sol@ != self.usdt@
        &&& self.btc@ != self.eth@ && self.btc@ != self.usdc@ && self.btc@ != self.usdt@
        &&& self.eth@ != self.usdc@ && self.eth@ != self.usdt@
        &&& self.usdc@ != self.usdt@
    }
}

} // verus!

//! Decimal amounts and the conversions between them and scaled integers.
//!
//! A [`Decimal`] is an exact decimal fraction: a signed 64-bit mantissa and a
//! count of fractional digits, at most [`MAX_SCALE`]. Every conversion to an
//! integer rounds toward zero and clamps at the range of its result type.
//! Every product of decimals is exact where a decimal can hold it; where it
//! cannot, the last digits are dropped toward zero, and the mantissa is
//! clamped only when no digit is left to drop. Each function is total, with
//! one documented answer.

use crate::arith::{
    abs_i128, clamp, clamp_i64, clamp_u64, lemma_pow10_add, lemma_pow10_positive,
    lemma_pow10_values, lemma_quotient_bounds, lemma_quotient_shift, lemma_trunc_div_magnitude,
    lemma_trunc_div_remainder, magnitude, mul_div, pow10, rescale, rescaled, trunc_div,
};
use vstd::arithmetic::div_mod::lemma_div_is_ordered_by_denominator;
use vstd::prelude::*;

verus! {

/// The largest count of fractional digits that a [`Decimal`] carries. With
/// sixteen digits, one hundred at full scale plus any mantissa still fits 64
/// unsigned bits, so a product with a 64-bit price fits 128 signed bits.
pub const MAX_SCALE: u32 = 16;

/// Factor by which a simulated crash widens the confidence interval.
pub const CRASH_CONFIDENCE_FACTOR: u64 = 5;

/// An exact decimal fraction, `mantissa / 10^scale`.
#[derive(Clone, Copy, Debug, PartialEq, Eq)]
pub struct Decimal {
    mantissa: i64,
    scale: u32,
}

impl View for Decimal {
    type V = (int, nat);

    /// The mantissa and the count of fractional digits.
    closed spec fn view(&self) -> (int, nat) {
        (self.mantissa as int, self.scale as nat)
    }
}

/// The pair that stands for `mantissa / 10^scale` as a [`Decimal`]: the pair
/// itself up to [`MAX_SCALE`] digits, else the value cut down to that many.
pub open spec fn decimal_of(mantissa: int, scale: nat) -> (int, nat) {
    if scale <= MAX_SCALE {
        (mantissa, scale)
    } else {
        (rescaled(mantissa, scale, MAX_SCALE as nat), MAX_SCALE as nat)
    }
}

/// `value` at `scale` fractional digits, rounded toward zero.
pub open spec fn scaled_value(value: (int, nat), scale: nat) -> int {
    rescaled(value.0, value.1, scale)
}

/// `value * (1 - percent / 100)`, rounded toward zero, where `percent` is
/// `percent.0 / 10^percent.1`.
pub open spec fn shifted(value: int, percent: (int, nat)) -> int {
    trunc_div(value * (100 * pow10(percent.1) - percent.0), (100 * pow10(percent.1)) as int)
}

/// The count of fractional digits of a depeg confidence for a price of `scale` digits.
pub open spec fn depeg_scale(scale: nat) -> nat {
    if scale < 2 {
        3
    } else if scale < MAX_SCALE {
        scale + 1
    } else {
        MAX_SCALE as nat
    }
}

/// `|1 - price| * 0.1 + 0.001`, at [`depeg_scale`] digits.
pub open spec fn depeg_confidence_of(price: (int, nat)) -> (int, nat) {
    let r = depeg_scale(price.1);
    (
        clamp(
            rescaled(magnitude(pow10(price.1) - price.0) as int, price.1 + 1, r) + pow10(
                (r - 3) as nat,
            ),
            i64::MIN as int,
            i64::MAX as int,
        ),
        r,
    )
}

/// Rounding toward zero never grows a magnitude.
pub proof fn lemma_rescaled_down_bounded(m: int, from: nat, to: nat)
    requires
        to <= from,
    ensures
        magnitude(rescaled(m, from, to)) <= magnitude(m),
        m >= 0 ==> rescaled(m, from, to) >= 0,
        m <= 0 ==> rescaled(m, from, to) <= 0,
{
    crate::arith::lemma_rescaled_magnitude(magnitude(m), from, to);
    lemma_pow10_positive(to);
    lemma_pow10_positive(from);
    lemma_pow10_positive((from - to) as nat);
    let p = pow10(to) as int;
    lemma_trunc_div_magnitude(m * p, pow10(from) as int);
    assert(magnitude(m * p) == magnitude(m) * p && (m >= 0 ==> m * p >= 0) && (m <= 0 ==> m * p
        <= 0)) by (nonlinear_arith)
        requires
            p >= 1,
    ;
    if to < from {
        lemma_div_is_ordered_by_denominator(
            magnitude(m) as int,
            1,
            pow10((from - to) as nat) as int,
        );
    } else {
        assert(magnitude(m) * pow10(0) == magnitude(m)) by (nonlinear_arith)
            requires
                pow10(0) == 1,
        ;
    }
}

/// Whether `m` fits the 64 signed bits of a mantissa.
pub open spec fn fits_mantissa(m: int) -> bool {
    i64::MIN <= m <= i64::MAX
}

/// The decimal that holds `m / 10^scale` as well as a [`Decimal`] can:
/// digits are dropped, the last first and toward zero, until at most
/// [`MAX_SCALE`] are left and the mantissa fits; only with no digit left to
/// drop is the mantissa clamped.
pub open spec fn fitted(m: int, scale: nat) -> (int, nat)
    decreases scale,
{
    if scale <= MAX_SCALE && fits_mantissa(m) {
        (m, scale)
    } else if scale == 0 {
        (clamp(m, i64::MIN as int, i64::MAX as int), 0)
    } else {
        fitted(trunc_div(m, 10), (scale - 1) as nat)
    }
}

/// `value * (1 - percent / 100)` as a decimal: the exact product where a
/// [`Decimal`] can hold it, else with its last digits dropped.
pub open spec fn shifted_decimal(value: (int, nat), percent: (int, nat)) -> (int, nat) {
    fitted(value.0 * (100 * pow10(percent.1) - percent.0), value.1 + percent.1 + 2)
}

/// `a` stands for less than `b` does.
pub open spec fn stands_below(a: (int, nat), b: (int, nat)) -> bool {
    a.0 * pow10(b.1) < b.0 * pow10(a.1)
}

/// Nothing fitted is nothing, with the digits that are left.
pub proof fn lemma_fitted_zero(scale: nat)
    ensures
        fitted(0, scale) == (0int, if scale <= MAX_SCALE {
            scale
        } else {
            MAX_SCALE as nat
        }),
    decreases scale,
{
    if scale > MAX_SCALE {
        lemma_fitted_zero((scale - 1) as nat);
    }
}

/// Cutting off one digit, then more, is cutting them off at once.
proof fn lemma_cut_twice(m: int, k: nat)
    ensures
        trunc_div(trunc_div(m, 10), pow10(k) as int) == trunc_div(m, pow10(k + 1) as int),
{
    lemma_pow10_positive(k);
    let p = pow10(k) as int;
    let mag = magnitude(m) as int;
    vstd::arithmetic::div_mod::lemma_div_denominator(mag, 10, p);
    lemma_quotient_bounds(mag, 10);
    assert(pow10(k + 1) == 10 * pow10(k));
    assert(0int / p == 0) by (nonlinear_arith)
        requires
            p > 0,
    ;
}

/// What fitting does, at once: it cuts off the digits that it drops, all
/// toward zero, and clamps only where none is left. Of an amount with
/// at most [`MAX_SCALE`] digits it drops a digit only while the mantissa
/// does not fit.
pub proof fn lemma_fitted_cut(m: int, scale: nat)
    ensures
        ({
            let f = fitted(m, scale);
            let k = (scale - f.1) as nat;
            &&& f.1 <= scale
            &&& f.1 <= MAX_SCALE
            &&& fits_mantissa(f.0)
            &&& f.0 == clamp(trunc_div(m, pow10(k) as int), i64::MIN as int, i64::MAX as int)
            &&& f.1 > 0 ==> f.0 == trunc_div(m, pow10(k) as int)
            &&& k > 0 && scale <= MAX_SCALE ==> !fits_mantissa(
                trunc_div(m, pow10((k - 1) as nat) as int),
            )
        }),
    decreases scale,
{
    if scale <= MAX_SCALE && fits_mantissa(m) {
        assert(pow10(0) == 1);
    } else if scale == 0 {
        assert(pow10(0) == 1);
    } else {
        let below = (scale - 1) as nat;
        lemma_fitted_cut(trunc_div(m, 10), below);
        let f = fitted(m, scale);
        let k = (scale - f.1) as nat;
        lemma_cut_twice(m, (k - 1) as nat);
        if k > 1 {
            lemma_cut_twice(m, (k - 2) as nat);
        } else {
            assert(pow10(0) == 1);
        }
    }
}

/// Fitting moves toward zero, and by less than one unit of the last digit
/// kept unless it clamps; it loses nothing where the digits dropped are
/// zeros.
pub proof fn lemma_fitted_close(m: int, scale: nat)
    ensures
        ({
            let f = fitted(m, scale);
            let unit = pow10((scale - f.1) as nat);
            &&& f.1 <= scale
            &&& f.1 <= MAX_SCALE
            &&& magnitude(f.0 * unit) <= magnitude(m)
            &&& m >= 0 ==> f.0 >= 0
            &&& m <= 0 ==> f.0 <= 0
            &&& f.1 > 0 ==> magnitude(m - f.0 * unit) < unit
            &&& f.1 > 0 && m % (unit as int) == 0 ==> f.0 * unit == m
            &&& scale <= MAX_SCALE && fits_mantissa(m) ==> f == (m, scale)
        }),
{
    lemma_fitted_cut(m, scale);
    let f = fitted(m, scale);
    let unit = pow10((scale - f.1) as nat) as int;
    lemma_pow10_positive((scale - f.1) as nat);
    lemma_trunc_div_remainder(m, unit);
    lemma_trunc_div_magnitude(m, unit);
    let q = trunc_div(m, unit);
    assert(magnitude(f.0 * unit) <= magnitude(q * unit)) by (nonlinear_arith)
        requires
            unit >= 1,
            (q >= 0 && 0 <= f.0 <= q) || (q <= 0 && q <= f.0 <= 0),
    ;
}

/// Whether `percent` is a share of the whole: more than nothing, less than all.
pub open spec fn is_share(percent: (int, nat)) -> bool {
    0 < percent.0 < 100 * pow10(percent.1)
}

/// Round trip from a decimal: brought to `scale` fractional digits and taken
/// as a decimal again, an amount stands less than one unit of that scale
/// from itself, on the side of zero, and it stands for itself where it has
/// no more digits than `scale`. (The two amounts are `value.0 / 10^value.1`
/// and `back.0 / 10^scale`; they are compared after multiplying both by
/// `10^value.1 * 10^scale`.) The integer in between must fit its field.
pub proof fn lemma_round_trip(value: (int, nat), scale: nat)
    requires
        scale <= MAX_SCALE,
        i64::MIN <= scaled_value(value, scale) <= i64::MAX,
    ensures
        ({
            let scaled = clamp(scaled_value(value, scale), i64::MIN as int, i64::MAX as int);
            let back = decimal_of(scaled, scale);
            &&& back.1 == scale
            &&& magnitude(value.0 * pow10(scale) - back.0 * pow10(value.1)) < pow10(value.1)
            &&& magnitude(back.0 * pow10(value.1)) <= magnitude(value.0 * pow10(scale))
            &&& value.1 <= scale ==> back.0 * pow10(value.1) == value.0 * pow10(scale)
        }),
{
    lemma_pow10_positive(value.1);
    lemma_pow10_positive(scale);
    let a = value.0 * pow10(scale);
    let b = pow10(value.1) as int;
    lemma_trunc_div_remainder(a, b);
    if value.1 <= scale {
        let k = (scale - value.1) as nat;
        lemma_pow10_add(k, value.1);
        let x = value.0 * pow10(k);
        assert(a == x * b) by (nonlinear_arith)
            requires
                a == value.0 * pow10(scale),
                pow10(scale) == pow10(k) * pow10(value.1),
                x == value.0 * pow10(k),
                b == pow10(value.1),
        ;
        lemma_quotient_shift(x, 0, b);
        assert(0int / b == 0) by (nonlinear_arith)
            requires
                b > 0,
        ;
        vstd::arithmetic::div_mod::lemma_fundamental_div_mod(a, b);
        assert(b * x == x * b) by (nonlinear_arith);
    }
}

/// Round trip from an integer: taken as a decimal at `scale` fractional
/// digits and brought back to that scale, it is itself.
pub proof fn lemma_round_trip_scaled(scaled: int, scale: nat)
    requires
        scale <= MAX_SCALE,
    ensures
        scaled_value(decimal_of(scaled, scale), scale) == scaled,
{
    lemma_pow10_positive(scale);
    let b = pow10(scale) as int;
    lemma_quotient_shift(scaled, 0, b);
    lemma_quotient_shift(-scaled, 0, b);
    assert(0int / b == 0) by (nonlinear_arith)
        requires
            b > 0,
    ;
    assert(-(scaled * b) == (-scaled) * b) by (nonlinear_arith);
}

/// A crash by a share of the whole lowers a positive price, and not below zero.
pub proof fn lemma_crash_lowers(price: int, percent: (int, nat))
    requires
        price > 0,
        is_share(percent),
    ensures
        0 <= shifted(price, percent) < price,
{
    lemma_pow10_positive(percent.1);
    let whole = 100 * pow10(percent.1) as int;
    let factor = whole - percent.0;
    let product = price * factor;
    assert(0 <= product <= price * whole - price) by (nonlinear_arith)
        requires
            product == price * factor,
            0 < factor <= whole - 1,
            price > 0,
    ;
    lemma_quotient_bounds(product, whole);
    vstd::arithmetic::div_mod::lemma_div_is_ordered(product, price * whole - price, whole);
    lemma_quotient_shift(price, -price, whole);
    lemma_quotient_bounds(-price, whole);
}

/// A crash by a share of the whole lowers a positive amount in dollars, and
/// not below zero, whatever digits are dropped.
pub proof fn lemma_crash_lowers_decimal(value: (int, nat), percent: (int, nat))
    requires
        value.0 > 0,
        is_share(percent),
    ensures
        shifted_decimal(value, percent).0 >= 0,
        stands_below(shifted_decimal(value, percent), value),
{
    let digits = value.1 + percent.1 + 2;
    let whole = 100 * pow10(percent.1) as int;
    let factor = whole - percent.0;
    let product = value.0 * factor;
    let r = fitted(product, digits);
    let unit = pow10((digits - r.1) as nat) as int;
    let kept = pow10(r.1) as int;
    let own = pow10(value.1) as int;
    lemma_fitted_close(product, digits);
    lemma_pow10_positive(percent.1);
    lemma_pow10_positive(r.1);
    lemma_pow10_positive(value.1);
    lemma_pow10_positive((digits - r.1) as nat);
    lemma_pow10_values();
    lemma_pow10_add(percent.1, 2);
    lemma_pow10_add((digits - r.1) as nat, r.1);
    lemma_pow10_add(value.1, percent.1 + 2);
    assert(whole == pow10(percent.1 + 2)) by (nonlinear_arith)
        requires
            whole == 100 * pow10(percent.1),
            pow10(percent.1 + 2) == pow10(percent.1) * 100,
    ;
    assert(0 < product < value.0 * whole) by (nonlinear_arith)
        requires
            product == value.0 * factor,
            0 < factor < whole,
            value.0 > 0,
    ;
    assert(r.0 * unit < value.0 * whole);
    assert((r.0 * unit) * kept < (value.0 * whole) * kept) by (nonlinear_arith)
        requires
            r.0 * unit < value.0 * whole,
            kept > 0,
    ;
    assert((r.0 * unit) * kept == (r.0 * own) * whole) by (nonlinear_arith)
        requires
            unit * kept == own * whole,
    ;
    assert((value.0 * whole) * kept == (value.0 * kept) * whole) by (nonlinear_arith);
    assert(r.0 * own < value.0 * kept) by (nonlinear_arith)
        requires
            (r.0 * own) * whole < (value.0 * kept) * whole,
            whole > 0,
    ;
}

/// A crash makes a deviation five times as wide, exactly, where the product
/// fits the mantissa or the digits dropped are zeros; a deviation above
/// nothing is then wider than before.
pub proof fn lemma_crash_widens_decimal(value: (int, nat))
    requires
        value.0 > 0,
        value.1 <= MAX_SCALE,
    ensures
        ({
            let r = fitted(value.0 * CRASH_CONFIDENCE_FACTOR, value.1);
            let unit = pow10((value.1 - r.1) as nat);
            &&& r.1 <= value.1
            &&& fits_mantissa(value.0 * CRASH_CONFIDENCE_FACTOR) ==> r == (
                value.0 * CRASH_CONFIDENCE_FACTOR,
                value.1,
            ) && stands_below(value, r)
            &&& r.1 > 0 && (value.0 * CRASH_CONFIDENCE_FACTOR) % (unit as int) == 0 ==> r.0 * unit
                == value.0 * CRASH_CONFIDENCE_FACTOR
            &&& r.0 * unit == value.0 * CRASH_CONFIDENCE_FACTOR ==> stands_below(value, r)
        }),
{
    let product = value.0 * CRASH_CONFIDENCE_FACTOR;
    let r = fitted(product, value.1);
    let unit = pow10((value.1 - r.1) as nat) as int;
    let kept = pow10(r.1) as int;
    let own = pow10(value.1) as int;
    lemma_fitted_close(product, value.1);
    lemma_pow10_positive(r.1);
    lemma_pow10_add((value.1 - r.1) as nat, r.1);
    if fits_mantissa(product) {
        assert(unit == 1);
        assert(r.0 * unit == product) by (nonlinear_arith)
            requires
                unit == 1,
                r.0 == product,
        ;
    }
    if r.0 * unit == product {
        assert(r.0 * own == (r.0 * unit) * kept) by (nonlinear_arith)
            requires
                unit * kept == own,
        ;
        assert(value.0 * kept < product * kept) by (nonlinear_arith)
            requires
                product == value.0 * 5,
                value.0 > 0,
                kept > 0,
        ;
    }
}

/// A crash widens every deviation above nothing, whatever digits are
/// dropped, but the largest amount that a decimal without fractional digits
/// can hold.
pub proof fn lemma_crash_widens_always(value: (int, nat))
    requires
        value.0 > 0,
        fits_mantissa(value.0),
        value.1 <= MAX_SCALE,
        value.1 > 0 || value.0 < i64::MAX,
    ensures
        stands_below(value, fitted(value.0 * CRASH_CONFIDENCE_FACTOR, value.1)),
{
    let product = value.0 * CRASH_CONFIDENCE_FACTOR;
    let r = fitted(product, value.1);
    let k = (value.1 - r.1) as nat;
    let unit = pow10(k) as int;
    let kept = pow10(r.1) as int;
    let own = pow10(value.1) as int;
    lemma_fitted_cut(product, value.1);
    lemma_pow10_positive(k);
    lemma_pow10_positive(r.1);
    lemma_pow10_add(k, r.1);
    lemma_trunc_div_remainder(product, unit);
    lemma_trunc_div_magnitude(product, unit);
    let q = trunc_div(product, unit);
    if k == 0 {
        assert(unit == 1);
        assert(q * unit == q) by (nonlinear_arith)
            requires
                unit == 1,
        ;
    } else {
        let before = pow10((k - 1) as nat) as int;
        lemma_pow10_positive((k - 1) as nat);
        let wide = trunc_div(product, before);
        lemma_trunc_div_remainder(product, before);
        lemma_trunc_div_magnitude(product, before);
        assert(unit == 10 * before);
        assert(wide > i64::MAX);
        assert(product >= 0x8000_0000_0000_0000 * before) by (nonlinear_arith)
            requires
                wide * before <= product,
                wide >= 0x8000_0000_0000_0000,
                before >= 1,
        ;
        assert(product - unit >= value.0) by (nonlinear_arith)
            requires
                product == value.0 * 5,
                product >= 0x8000_0000_0000_0000 * before,
                unit == 10 * before,
                before >= 1,
        ;
        if r.0 != q {
            assert(r.0 * unit > value.0) by (nonlinear_arith)
                requires
                    r.0 == i64::MAX,
                    unit >= 10,
                    value.0 <= i64::MAX,
            ;
        }
    }
    assert(r.0 * unit > value.0);
    assert(value.0 * kept < (r.0 * unit) * kept) by (nonlinear_arith)
        requires
            r.0 * unit > value.0,
            kept > 0,
    ;
    assert((r.0 * unit) * kept == r.0 * own) by (nonlinear_arith)
        requires
            unit * kept == own,
    ;
}

/// A crash widens a confidence that is neither nothing nor the largest there is.
pub proof fn lemma_crash_widens(conf: int, largest: int)
    requires
        0 < conf < largest,
    ensures
        clamp(conf * CRASH_CONFIDENCE_FACTOR, 0, largest) > conf,
{
}

/// The mantissa of every decimal fits 64 signed bits. (That a decimal in
/// hand has at most [`MAX_SCALE`] digits is what [`Decimal::scale`] and
/// every function that gives a decimal state of their results.)
pub proof fn lemma_mantissa_fits(d: Decimal)
    ensures
        fits_mantissa(d@.0),
        d@.1 <= u32::MAX,
{
}

impl Decimal {
    #[verifier::type_invariant]
    spec fn well_formed(self) -> bool {
        self.scale <= MAX_SCALE
    }

    /// The decimal `mantissa / 10^scale`. Digits beyond [`MAX_SCALE`] are cut off.
    pub fn new(mantissa: i64, scale: u32) -> (d: Self)
        ensures
            d@ == decimal_of(mantissa as int, scale as nat),
            d@.1 <= MAX_SCALE,
    {
        if scale <= MAX_SCALE {
            Decimal { mantissa, scale }
        } else {
            let cut = rescale(mantissa as i128, scale, MAX_SCALE);
            proof {
                lemma_rescaled_down_bounded(mantissa as int, scale as nat, MAX_SCALE as nat);
            }
            Decimal { mantissa: clamp_i64(cut), scale: MAX_SCALE }
        }
    }

    /// The mantissa.
    pub fn mantissa(&self) -> (m: i64)
        ensures
            m == self@.0,
    {
        self.mantissa
    }

    /// The count of fractional digits.
    pub fn scale(&self) -> (s: u32)
        ensures
            s == self@.1,
            s <= MAX_SCALE,
    {
        proof {
            use_type_invariant(self);
        }
        self.scale
    }

    /// This amount at `scale` fractional digits, rounded toward zero and
    /// clamped into 128 signed bits.
    pub fn to_scaled(&self, scale: u32) -> (r: i128)
        ensures
            r == clamp(scaled_value(self@, scale as nat), i128::MIN as int, i128::MAX as int),
    {
        rescale(self.mantissa as i128, self.scale, scale)
    }

    /// The decimal that holds `m / 10^scale` as well as a [`Decimal`] can.
    pub fn fit(m: i128, scale: u32) -> (d: Self)
        ensures
            d@ == fitted(m as int, scale as nat),
            d@.1 <= MAX_SCALE,
    {
        let mut mantissa: i128 = m;
        let mut digits: u32 = scale;
        loop
            invariant
                fitted(mantissa as int, digits as nat) == fitted(m as int, scale as nat),
            decreases digits,
        {
            if digits <= MAX_SCALE && mantissa >= i64::MIN as i128 && mantissa <= i64::MAX as i128 {
                return Decimal { mantissa: mantissa as i64, scale: digits };
            }
            if digits == 0 {
                return Decimal { mantissa: clamp_i64(mantissa), scale: 0 };
            }
            if mantissa == 0 {
                proof {
                    lemma_fitted_zero(digits as nat);
                }
                return Decimal { mantissa: 0, scale: MAX_SCALE };
            }
            mantissa = tenth(mantissa);
            digits = digits - 1;
        }
    }

    /// This amount times `factor`: the exact product where it can be held,
    /// else with its last digits dropped.
    pub fn times(&self, factor: u64) -> (d: Self)
        ensures
            d@ == fitted(self@.0 * factor, self@.1),
            d@.1 <= MAX_SCALE,
    {
        proof {
            assert(i128::MIN < (self.mantissa as int) * (factor as int) <= i128::MAX)
                by (nonlinear_arith)
                requires
                    i64::MIN <= self.mantissa <= i64::MAX,
                    0 <= factor <= u64::MAX,
            ;
        }
        let product: i128 = (self.mantissa as i128) * (factor as i128);
        Decimal::fit(product, self.scale)
    }

    /// This amount lowered by `percent` per cent: the exact product where it
    /// can be held, else with its last digits dropped.
    pub fn shifted_by(&self, percent: Decimal) -> (d: Self)
        ensures
            d@ == shifted_decimal(self@, percent@),
            d@.1 <= MAX_SCALE,
    {
        proof {
            use_type_invariant(self);
        }
        let digits = percent.scale();
        let whole: i128 = 100 * pow10_exec(digits);
        let factor: i128 = whole - percent.mantissa() as i128;
        proof {
            assert(i128::MIN < (self.mantissa as int) * (factor as int) <= i128::MAX)
                by (nonlinear_arith)
                requires
                    i64::MIN <= self.mantissa <= i64::MAX,
                    -0x1_0000_0000_0000_0000 < factor < 0x1_0000_0000_0000_0000,
            ;
        }
        let product: i128 = (self.mantissa as i128) * factor;
        Decimal::fit(product, self.scale + digits + 2)
    }
}

/// A tenth of `x`, rounded toward zero.
pub fn tenth(x: i128) -> (r: i128)
    ensures
        r == trunc_div(x as int, 10),
{
    if x >= 0 {
        x / 10
    } else if x == i128::MIN {
        -17014118346046923173168730371588410572
    } else {
        -((-x) / 10)
    }
}

/// `value` as an integer at `scale` fractional digits: multiplied by
/// `10^scale`, rounded toward zero, clamped into 64 signed bits.
pub fn to_scaled(value: Decimal, scale: u32) -> (r: i64)
    ensures
        r == clamp(scaled_value(value@, scale as nat), i64::MIN as int, i64::MAX as int),
{
    clamp_i64(value.to_scaled(scale))
}

/// `value` as an unsigned integer at `scale` fractional digits: multiplied by
/// `10^scale`, rounded toward zero, clamped into 64 unsigned bits.
pub fn to_scaled_unsigned(value: Decimal, scale: u32) -> (r: u64)
    ensures
        r == clamp(scaled_value(value@, scale as nat), 0, u64::MAX as int),
{
    clamp_u64(value.to_scaled(scale))
}

/// The decimal that `scaled` stands for at `scale` fractional digits.
pub fn to_decimal(scaled: i64, scale: u32) -> (d: Decimal)
    ensures
        d@ == decimal_of(scaled as int, scale as nat),
        d@.1 <= MAX_SCALE,
{
    Decimal::new(scaled, scale)
}

/// The decimal that an unsigned `scaled` stands for at `scale` fractional
/// digits, as well as a [`Decimal`] can hold it.
pub fn to_decimal_unsigned(scaled: u64, scale: u32) -> (d: Decimal)
    ensures
        d@ == fitted(scaled as int, scale as nat),
        d@.1 <= MAX_SCALE,
{
    Decimal::fit(scaled as i128, scale)
}

/// `value * (1 - percent / 100)`, rounded toward zero and clamped into 64 signed bits.
pub fn percentage_shift(value: i64, percent: Decimal) -> (r: i64)
    ensures
        r == clamp(shifted(value as int, percent@), i64::MIN as int, i64::MAX as int),
{
    let scale = percent.scale();
    let whole: i128 = 100 * pow10_exec(scale);
    let factor: i128 = whole - percent.mantissa() as i128;
    proof {
        assert(i128::MIN < (value as int) * (factor as int) <= i128::MAX) by (nonlinear_arith)
            requires
                i64::MIN <= value <= i64::MAX,
                -0x1_0000_0000_0000_0000 < factor < 0x1_0000_0000_0000_0000,
        ;
    }
    clamp_i64(mul_div(value as i128, factor, whole))
}

/// The confidence that goes with a depegged price: `|1 - price| * 0.1 + 0.001`.
pub fn depeg_confidence(price: Decimal) -> (d: Decimal)
    ensures
        d@ == depeg_confidence_of(price@),
        d@.1 <= MAX_SCALE,
{
    let scale = price.scale();
    let target: u32 = if scale < 2 {
        3
    } else if scale < MAX_SCALE {
        scale + 1
    } else {
        MAX_SCALE
    };
    let one: i128 = pow10_exec(scale);
    let distance: u128 = abs_i128(one - price.mantissa() as i128);
    let spread: i128 = rescale(distance as i128, scale + 1, target);
    let floor: i128 = pow10_exec(target - 3);
    proof {
        lemma_pow10_values();
        if target <= scale + 1 {
            lemma_rescaled_down_bounded(distance as int, (scale + 1) as nat, target as nat);
        } else {
            crate::arith::lemma_rescaled_magnitude(distance as nat, (scale + 1) as nat, target as nat);
            lemma_trunc_div_magnitude(
                distance * pow10(target as nat),
                pow10((scale + 1) as nat) as int,
            );
            lemma_pow10_positive(target as nat);
            lemma_pow10_positive((scale + 1) as nat);
            assert(distance * pow10(target as nat) >= 0) by (nonlinear_arith)
                requires
                    distance >= 0,
                    pow10(target as nat) >= 1,
            ;
            crate::arith::lemma_pow10_monotone((target - scale - 1) as nat, 2);
            assert(distance * pow10((target - scale - 1) as nat) <= distance * 100)
                by (nonlinear_arith)
                requires
                    distance >= 0,
                    pow10((target - scale - 1) as nat) <= 100,
            ;
        }
    }
    Decimal { mantissa: clamp_i64(spread + floor), scale: target }
}

/// Ten to the power `n`, for the scales a [`Decimal`] can have.
pub fn pow10_exec(n: u32) -> (r: i128)
    requires
        n <= MAX_SCALE,
    ensures
        r == pow10(n as nat),
        1 <= r <= 10_000_000_000_000_000,
{
    let mut r: i128 = 1;
    let mut i: u32 = 0;
    proof {
        lemma_pow10_values();
    }
    while i < n
        invariant
            i <= n <= MAX_SCALE,
            r == pow10(i as nat),
            pow10(16) == 10_000_000_000_000_000,
        decreases n - i,
    {
        proof {
            crate::arith::lemma_pow10_monotone((i + 1) as nat, 16);
        }
        r = r * 10;
        i = i + 1;
    }
    proof {
        crate::arith::lemma_pow10_monotone(n as nat, 16);
        lemma_pow10_positive(n as nat);
    }
    r
}

} // verus!

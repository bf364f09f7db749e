//! Integer arithmetic behind the fixed-point model: powers of ten, division
//! that rounds toward zero, clamping, and the two exact primitives built on
//! them (moving a value from one decimal scale to another, and a product
//! divided by a positive number).

use vstd::arithmetic::div_mod::{
    lemma_div_denominator, lemma_div_is_ordered, lemma_div_multiples_vanish,
    lemma_div_multiples_vanish_quotient, lemma_fundamental_div_mod,
    lemma_fundamental_div_mod_converse, lemma_mod_bound,
};
use vstd::arithmetic::mul::lemma_mul_inequality;
use vstd::prelude::*;

verus! {

/// Ten to the power `n`.
pub open spec fn pow10(n: nat) -> nat
    decreases n,
{
    if n == 0 {
        1
    } else {
        10 * pow10((n - 1) as nat)
    }
}

/// The quotient of `a` by a positive `b`, rounded toward zero.
pub open spec fn trunc_div(a: int, b: int) -> int {
    if a >= 0 {
        a / b
    } else {
        -((-a) / b)
    }
}

/// `x` where it lies between `lo` and `hi`, else the nearer of the two.
pub open spec fn clamp(x: int, lo: int, hi: int) -> int {
    if x < lo {
        lo
    } else if x > hi {
        hi
    } else {
        x
    }
}

/// The absolute value of `x`.
pub open spec fn magnitude(x: int) -> nat {
    if x >= 0 {
        x as nat
    } else {
        (-x) as nat
    }
}

/// The integer that stands at scale `to` for what `m` stands for at scale
/// `from`: `m * 10^to / 10^from`, rounded toward zero.
pub open spec fn rescaled(m: int, from: nat, to: nat) -> int {
    trunc_div(m * pow10(to), pow10(from) as int)
}

/// A power of ten is at least one.
pub proof fn lemma_pow10_positive(n: nat)
    ensures
        pow10(n) >= 1,
    decreases n,
{
    if n > 0 {
        lemma_pow10_positive((n - 1) as nat);
    }
}

/// Powers of ten multiply by adding exponents.
pub proof fn lemma_pow10_add(a: nat, b: nat)
    ensures
        pow10(a + b) == pow10(a) * pow10(b),
    decreases a,
{
    if a == 0 {
        assert(pow10(a) * pow10(b) == pow10(b)) by (nonlinear_arith)
            requires
                pow10(a) == 1,
        ;
    } else {
        let a1 = (a - 1) as nat;
        lemma_pow10_add(a1, b);
        assert(pow10(a + b) == 10 * pow10(a1 + b));
        assert(10 * (pow10(a1) * pow10(b)) == (10 * pow10(a1)) * pow10(b)) by (nonlinear_arith);
    }
}

/// A larger exponent gives no smaller a power of ten.
pub proof fn lemma_pow10_monotone(a: nat, b: nat)
    requires
        a <= b,
    ensures
        pow10(a) <= pow10(b),
    decreases b,
{
    if a < b {
        lemma_pow10_monotone(a, (b - 1) as nat);
    }
}

/// Values of `pow10` that the executable code relies on.
pub proof fn lemma_pow10_values()
    ensures
        pow10(0) == 1,
        pow10(1) == 10,
        pow10(2) == 100,
        pow10(3) == 1_000,
        pow10(8) == 100_000_000,
        pow10(13) == 10_000_000_000_000,
        pow10(16) == 10_000_000_000_000_000,
        pow10(18) == 1_000_000_000_000_000_000,
{
    reveal_with_fuel(pow10, 20);
}

/// Rounding toward zero works on the magnitude and keeps the sign.
pub proof fn lemma_trunc_div_magnitude(a: int, b: int)
    requires
        b > 0,
    ensures
        magnitude(trunc_div(a, b)) == magnitude(a) as int / b,
        a >= 0 ==> trunc_div(a, b) >= 0,
        a <= 0 ==> trunc_div(a, b) <= 0,
{
    lemma_div_is_ordered(0, magnitude(a) as int, b);
    assert(0int / b == 0) by (nonlinear_arith)
        requires
            b > 0,
    ;
}

/// Bounds of a quotient by a positive number.
pub proof fn lemma_quotient_bounds(g: int, d: int)
    requires
        d > 0,
    ensures
        g >= 0 ==> 0 <= g / d <= g,
        g >= d ==> g / d >= 1,
        g < 0 ==> g <= g / d <= -1,
        0 < g ==> g / d < g || d == 1,
{
    lemma_fundamental_div_mod(g, d);
    lemma_mod_bound(g, d);
    let q = g / d;
    let r = g % d;
    assert((g >= 0 ==> 0 <= q <= g) && (g >= d ==> q >= 1) && (g < 0 ==> g <= q <= -1) && (0 < g
        ==> q < g || d == 1)) by (nonlinear_arith)
        requires
            g == d * q + r,
            0 <= r < d,
            d > 0,
    ;
}

/// A multiple of the divisor moves the quotient by as much.
pub proof fn lemma_quotient_shift(a: int, g: int, d: int)
    requires
        d > 0,
    ensures
        (a * d + g) / d == a + g / d,
{
    lemma_fundamental_div_mod(g, d);
    lemma_mod_bound(g, d);
    let q = g / d;
    let r = g % d;
    assert(a * d + g == (a + q) * d + r) by (nonlinear_arith)
        requires
            g == d * q + r,
    ;
    lemma_fundamental_div_mod_converse(a * d + g, d, a + q, r);
}

/// Rounding toward zero leaves less than one divisor, on the side of zero.
pub proof fn lemma_trunc_div_remainder(a: int, b: int)
    requires
        b > 0,
    ensures
        magnitude(a - trunc_div(a, b) * b) < b,
        magnitude(trunc_div(a, b) * b) <= magnitude(a),
        a % b == 0 ==> trunc_div(a, b) * b == a,
{
    let m = magnitude(a) as int;
    lemma_fundamental_div_mod(m, b);
    lemma_mod_bound(m, b);
    lemma_fundamental_div_mod(a, b);
    lemma_mod_bound(a, b);
    let q = m / b;
    let r = m % b;
    assert(q >= 0) by (nonlinear_arith)
        requires
            m == b * q + r,
            0 <= r < b,
            m >= 0,
    ;
    assert(q * b == b * q && (-q) * b == -(b * q)) by (nonlinear_arith);
    if a % b == 0 {
        let qa = a / b;
        assert(a == b * qa);
        if a >= 0 {
        } else {
            assert(m == b * (-qa)) by (nonlinear_arith)
                requires
                    a == b * qa,
                    m == -a,
            ;
            lemma_fundamental_div_mod_converse(m, b, -qa, 0);
        }
    }
}

/// Moving up in scale multiplies, moving down divides.
pub proof fn lemma_rescaled_magnitude(mag: nat, from: nat, to: nat)
    ensures
        to >= from ==> (mag * pow10(to)) as int / (pow10(from) as int) == mag * pow10(
            (to - from) as nat,
        ),
        to < from ==> (mag * pow10(to)) as int / (pow10(from) as int) == mag as int / (pow10(
            (from - to) as nat,
        ) as int),
{
    lemma_pow10_positive(from);
    lemma_pow10_positive(to);
    if to >= from {
        let k = (to - from) as nat;
        let d = pow10(from) as int;
        let x = (mag * pow10(k)) as int;
        lemma_pow10_add(k, from);
        assert(mag * pow10(to) == d * x) by (nonlinear_arith)
            requires
                pow10(to) == pow10(k) * pow10(from),
                d == pow10(from),
                x == mag * pow10(k),
        ;
        lemma_div_multiples_vanish(x, d);
    } else {
        let k = (from - to) as nat;
        let x = pow10(to) as int;
        let d = pow10(k) as int;
        lemma_pow10_positive(k);
        lemma_pow10_add(k, to);
        lemma_div_multiples_vanish_quotient(x, mag as int, d);
        assert(x * d == pow10(from)) by (nonlinear_arith)
            requires
                pow10(from) == pow10(k) * pow10(to),
                x == pow10(to),
                d == pow10(k),
        ;
        assert(x * (mag as int) == mag * pow10(to)) by (nonlinear_arith)
            requires
                x == pow10(to),
        ;
    }
}

/// `mag * 10^to / 10^from`, or `None` where that does not fit 128 bits.
pub fn scale_magnitude(mag: u128, from: u32, to: u32) -> (r: Option<u128>)
    ensures
        r matches Some(v) ==> v == (mag * pow10(to as nat)) as int / (pow10(from as nat) as int),
        r is None ==> (mag * pow10(to as nat)) as int / (pow10(from as nat) as int) > u128::MAX,
{
    proof {
        lemma_rescaled_magnitude(mag as nat, from as nat, to as nat);
        lemma_pow10_values();
    }
    if to >= from {
        let k: u32 = to - from;
        let mut acc: u128 = mag;
        let mut i: u32 = 0;
        while i < k && acc != 0
            invariant
                i <= k,
                k == to - from,
                acc == mag * pow10(i as nat),
            decreases k - i,
        {
            let next = acc.checked_mul(10);
            if next.is_none() {
                proof {
                    lemma_rescaled_magnitude(mag as nat, from as nat, to as nat);
                    lemma_pow10_monotone((i + 1) as nat, k as nat);
                    lemma_mul_inequality(
                        pow10((i + 1) as nat) as int,
                        pow10(k as nat) as int,
                        mag as int,
                    );
                    assert(mag * pow10((i + 1) as nat) == acc * 10) by (nonlinear_arith)
                        requires
                            acc == mag * pow10(i as nat),
                            pow10((i + 1) as nat) == 10 * pow10(i as nat),
                    ;
                    assert(pow10(k as nat) * mag == mag * pow10(k as nat)) by (nonlinear_arith);
                    assert(pow10((i + 1) as nat) * mag == mag * pow10((i + 1) as nat))
                        by (nonlinear_arith);
                }
                return None;
            }
            proof {
                assert(mag * pow10((i + 1) as nat) == acc * 10) by (nonlinear_arith)
                    requires
                        acc == mag * pow10(i as nat),
                        pow10((i + 1) as nat) == 10 * pow10(i as nat),
                ;
            }
            acc = next.unwrap();
            i = i + 1;
        }
        proof {
            if i < k {
                lemma_pow10_positive(i as nat);
                assert(mag == 0) by (nonlinear_arith)
                    requires
                        mag * pow10(i as nat) == 0,
                        pow10(i as nat) >= 1,
                        mag >= 0,
                ;
                assert(mag * pow10(k as nat) == 0) by (nonlinear_arith)
                    requires
                        mag == 0,
                ;
            }
        }
        Some(acc)
    } else {
        let k: u32 = from - to;
        let mut acc: u128 = mag;
        let mut i: u32 = 0;
        while i < k && acc != 0
            invariant
                i <= k,
                acc == mag as int / (pow10(i as nat) as int),
            decreases k - i,
        {
            proof {
                lemma_pow10_positive(i as nat);
                lemma_div_denominator(mag as int, pow10(i as nat) as int, 10);
                assert(pow10(i as nat) * 10 == pow10((i + 1) as nat));
            }
            acc = acc / 10;
            i = i + 1;
        }
        proof {
            if i < k {
                lemma_pow10_positive(i as nat);
                lemma_pow10_positive(k as nat);
                lemma_pow10_monotone(i as nat, k as nat);
                lemma_fundamental_div_mod(mag as int, pow10(i as nat) as int);
                assert(mag < pow10(i as nat)) by (nonlinear_arith)
                    requires
                        mag == pow10(i as nat) * (mag as int / (pow10(i as nat) as int)) + (mag as int
                            % (pow10(i as nat) as int)),
                        mag as int / (pow10(i as nat) as int) == 0,
                        0 <= mag as int % (pow10(i as nat) as int) < pow10(i as nat),
                ;
                vstd::arithmetic::div_mod::lemma_basic_div(mag as int, pow10(k as nat) as int);
            }
        }
        Some(acc)
    }
}

/// The absolute value of `x`.
pub fn abs_i128(x: i128) -> (r: u128)
    ensures
        r == magnitude(x as int),
{
    if x >= 0 {
        x as u128
    } else {
        ((-(x + 1)) as u128) + 1
    }
}

/// The number with the given sign and magnitude, clamped into 128 signed bits;
/// `None` stands for a magnitude beyond every 128-bit number.
pub fn with_sign(negative: bool, mag: Option<u128>) -> (r: i128)
    ensures
        mag matches Some(v) ==> r == clamp(
            if negative {
                -(v as int)
            } else {
                v as int
            },
            i128::MIN as int,
            i128::MAX as int,
        ),
        mag is None ==> r == if negative {
            i128::MIN
        } else {
            i128::MAX
        },
{
    match mag {
        Some(v) => {
            if negative {
                if v > i128::MAX as u128 {
                    i128::MIN
                } else {
                    -(v as i128)
                }
            } else {
                if v > i128::MAX as u128 {
                    i128::MAX
                } else {
                    v as i128
                }
            }
        },
        None => {
            if negative {
                i128::MIN
            } else {
                i128::MAX
            }
        },
    }
}

/// What `m` at scale `from` comes to at scale `to`, rounded toward zero and
/// clamped into 128 signed bits.
pub fn rescale(m: i128, from: u32, to: u32) -> (r: i128)
    ensures
        r == clamp(rescaled(m as int, from as nat, to as nat), i128::MIN as int, i128::MAX as int),
{
    let mag = abs_i128(m);
    let scaled = scale_magnitude(mag, from, to);
    proof {
        let p = pow10(to as nat) as int;
        let q = pow10(from as nat) as int;
        lemma_pow10_positive(to as nat);
        lemma_pow10_positive(from as nat);
        lemma_trunc_div_magnitude(m * p, q);
        assert(magnitude(m * p) == mag * p) by (nonlinear_arith)
            requires
                mag == magnitude(m as int),
                p >= 1,
        ;
        assert(m < 0 ==> m * p < 0) by (nonlinear_arith)
            requires
                p >= 1,
        ;
        assert(m >= 0 ==> m * p >= 0) by (nonlinear_arith)
            requires
                p >= 1,
        ;
    }
    with_sign(m < 0, scaled)
}

/// `a * b / d`, rounded toward zero, where the product fits 128 signed bits.
pub fn mul_div(a: i128, b: i128, d: i128) -> (r: i128)
    requires
        d > 0,
        i128::MIN < a * b <= i128::MAX,
    ensures
        r == trunc_div(a * b, d as int),
{
    let p: i128 = a * b;
    if p >= 0 {
        p / d
    } else {
        let q: i128 = (-p) / d;
        -q
    }
}

/// `x` clamped into 64 signed bits.
pub fn clamp_i64(x: i128) -> (r: i64)
    ensures
        r == clamp(x as int, i64::MIN as int, i64::MAX as int),
{
    if x < i64::MIN as i128 {
        i64::MIN
    } else if x > i64::MAX as i128 {
        i64::MAX
    } else {
        x as i64
    }
}

/// `x` clamped into 64 unsigned bits.
pub fn clamp_u64(x: i128) -> (r: u64)
    ensures
        r == clamp(x as int, 0, u64::MAX as int),
{
    if x < 0 {
        0
    } else if x > u64::MAX as i128 {
        u64::MAX
    } else {
        x as u64
    }
}

} // verus!

//! Exponential moving average on scaled integers, and what repeated steps
//! toward a constant value do.

use crate::arith::{lemma_quotient_bounds, lemma_quotient_shift, magnitude, trunc_div};
use vstd::prelude::*;

verus! {

/// Weight of the old average in one smoothing step.
pub const EMA_WEIGHT: u32 = 9;

/// One smoothing step: `(old * weight + new) / (weight + 1)`, rounded toward zero.
pub open spec fn ema_next(old: int, new: int, weight: nat) -> int {
    trunc_div(old * weight + new, (weight + 1) as int)
}

/// The average after `steps` smoothing steps toward the same `new`.
pub open spec fn ema_after(old: int, new: int, weight: nat, steps: nat) -> int
    decreases steps,
{
    if steps == 0 {
        old
    } else {
        ema_next(ema_after(old, new, weight, (steps - 1) as nat), new, weight)
    }
}

/// `new` lies between zero and `old`, ends included: rounding toward zero
/// then rounds toward `new`.
pub open spec fn rounds_toward(old: int, new: int) -> bool {
    (0 <= new <= old) || (old <= new <= 0)
}

/// How far one step moves: the floor of a `(weight + 1)`-th of the gap where
/// the weighted sum is not negative, the ceiling where it is.
proof fn lemma_step_movement(old: int, new: int, weight: nat)
    ensures
        old * weight + new >= 0 ==> ema_next(old, new, weight) == old + (new - old) / (weight
            + 1) as int,
        old * weight + new < 0 ==> ema_next(old, new, weight) == old - (old - new) / (weight
            + 1) as int,
{
    let d = (weight + 1) as int;
    let s = old * weight + new;
    assert(s == old * d + (new - old)) by (nonlinear_arith)
        requires
            s == old * weight + new,
            d == weight + 1,
    ;
    assert(-s == (-old) * d + (old - new)) by (nonlinear_arith)
        requires
            s == old * d + (new - old),
    ;
    lemma_quotient_shift(old, new - old, d);
    lemma_quotient_shift(-old, old - new, d);
}

/// Sign of the weighted sum where both values lie on one side of zero.
proof fn lemma_sum_sign(old: int, new: int, weight: nat)
    ensures
        old >= 0 && new >= 0 ==> old * weight + new >= 0,
        old <= 0 && new <= 0 ==> old * weight + new <= 0,
        old * weight + new >= 0 ==> old >= 0 || new >= 0,
        old * weight + new < 0 ==> old < 0 || new < 0,
{
    assert((old >= 0 ==> old * weight >= 0) && (old <= 0 ==> old * weight <= 0))
        by (nonlinear_arith);
}

/// A step ends between the old average and the new value, ends included: it
/// moves toward the new value and never past it.
pub proof fn lemma_step_between(old: int, new: int, weight: nat)
    ensures
        old <= new ==> old <= ema_next(old, new, weight) <= new,
        new <= old ==> new <= ema_next(old, new, weight) <= old,
        magnitude(new - ema_next(old, new, weight)) <= magnitude(new - old),
{
    let d = (weight + 1) as int;
    lemma_step_movement(old, new, weight);
    lemma_quotient_bounds(new - old, d);
    lemma_quotient_bounds(old - new, d);
}

/// While the gap is wider than the weight, a step narrows it.
pub proof fn lemma_step_narrows(old: int, new: int, weight: nat)
    requires
        magnitude(new - old) > weight,
    ensures
        magnitude(new - ema_next(old, new, weight)) < magnitude(new - old),
{
    let d = (weight + 1) as int;
    lemma_step_movement(old, new, weight);
    lemma_quotient_bounds(new - old, d);
    lemma_quotient_bounds(old - new, d);
}

/// Where rounding toward zero rounds toward the new value, every step
/// narrows a gap that is left, and the average stays on the far side.
pub proof fn lemma_step_rounding_toward(old: int, new: int, weight: nat)
    requires
        rounds_toward(old, new),
        old != new,
    ensures
        magnitude(new - ema_next(old, new, weight)) < magnitude(new - old),
        rounds_toward(ema_next(old, new, weight), new),
{
    let d = (weight + 1) as int;
    lemma_step_movement(old, new, weight);
    lemma_sum_sign(old, new, weight);
    lemma_step_between(old, new, weight);
    lemma_quotient_bounds(new - old, d);
    lemma_quotient_bounds(old - new, d);
    let s = old * weight + new;
    if s == 0 {
        assert(old == 0 || weight == 0) by (nonlinear_arith)
            requires
                old * weight + new == 0,
                (0 <= new <= old) || (old <= new <= 0),
                old != new,
                weight >= 0,
        ;
    }
}

/// Repeated steps toward a constant value approach it monotonically: each
/// average lies between the one before and the value, so the gap never grows
/// and the value is never overshot.
pub proof fn lemma_ema_monotone(old: int, new: int, weight: nat, steps: nat)
    ensures
        magnitude(new - ema_after(old, new, weight, steps + 1)) <= magnitude(
            new - ema_after(old, new, weight, steps),
        ),
        old <= new ==> ema_after(old, new, weight, steps) <= ema_after(
            old,
            new,
            weight,
            steps + 1,
        ) <= new,
        new <= old ==> new <= ema_after(old, new, weight, steps + 1) <= ema_after(
            old,
            new,
            weight,
            steps,
        ),
    decreases steps,
{
    if steps > 0 {
        lemma_ema_monotone(old, new, weight, (steps - 1) as nat);
    }
    lemma_step_between(ema_after(old, new, weight, steps), new, weight);
}

/// Repeated steps toward a constant value converge: after `steps` steps the
/// gap is at most the weight, or has shrunk by at least `steps`.
pub proof fn lemma_ema_gap(old: int, new: int, weight: nat, steps: nat)
    ensures
        magnitude(new - ema_after(old, new, weight, steps)) <= weight || magnitude(
            new - ema_after(old, new, weight, steps),
        ) + steps <= magnitude(new - old),
    decreases steps,
{
    if steps > 0 {
        let before = ema_after(old, new, weight, (steps - 1) as nat);
        lemma_ema_gap(old, new, weight, (steps - 1) as nat);
        lemma_step_between(before, new, weight);
        if magnitude(new - before) > weight {
            lemma_step_narrows(before, new, weight);
        }
    }
}

/// The limit: once the count of steps reaches the first gap, the average stays
/// within `weight` units of the value.
pub proof fn lemma_ema_converges(old: int, new: int, weight: nat, steps: nat)
    requires
        steps >= magnitude(new - old),
    ensures
        magnitude(new - ema_after(old, new, weight, steps)) <= weight,
{
    lemma_ema_gap(old, new, weight, steps);
}

/// Where `new` lies between zero and `old`, the average reaches `new` itself.
pub proof fn lemma_ema_reaches(old: int, new: int, weight: nat, steps: nat)
    requires
        rounds_toward(old, new),
        steps >= magnitude(new - old),
    ensures
        ema_after(old, new, weight, steps) == new,
{
    lemma_ema_reaches_within(old, new, weight, steps);
}

/// Where rounding rounds toward the value, the averages stay on the far
/// side and close the gap by one unit a step at least.
proof fn lemma_ema_reaches_within(old: int, new: int, weight: nat, steps: nat)
    requires
        rounds_toward(old, new),
    ensures
        rounds_toward(ema_after(old, new, weight, steps), new),
        ema_after(old, new, weight, steps) == new || magnitude(
            new - ema_after(old, new, weight, steps),
        ) + steps <= magnitude(new - old),
    decreases steps,
{
    if steps > 0 {
        let before = ema_after(old, new, weight, (steps - 1) as nat);
        lemma_ema_reaches_within(old, new, weight, (steps - 1) as nat);
        if before != new {
            lemma_step_rounding_toward(before, new, weight);
        } else {
            lemma_step_between(before, new, weight);
        }
    }
}

/// The inputs on which repeated steps end within one unit of the value: it
/// lies between zero and the first average, or within one unit of either.
pub open spec fn ends_within_one(old: int, new: int) -> bool {
    rounds_toward(old, new) || magnitude(new - old) <= 1 || magnitude(new) <= 1
}

/// Steps mirror: the averages of the negated values are the negated averages.
pub proof fn lemma_ema_mirrored(old: int, new: int, weight: nat, steps: nat)
    ensures
        ema_after(-old, -new, weight, steps) == -ema_after(old, new, weight, steps),
    decreases steps,
{
    if steps > 0 {
        lemma_ema_mirrored(old, new, weight, (steps - 1) as nat);
        let before = ema_after(old, new, weight, (steps - 1) as nat);
        assert((-before) * weight + (-new) == -(before * weight + new)) by (nonlinear_arith);
    }
}

/// The gap never grows.
pub proof fn lemma_ema_never_widens(old: int, new: int, weight: nat, steps: nat)
    ensures
        magnitude(new - ema_after(old, new, weight, steps)) <= magnitude(new - old),
    decreases steps,
{
    if steps > 0 {
        lemma_ema_never_widens(old, new, weight, (steps - 1) as nat);
        lemma_step_between(ema_after(old, new, weight, (steps - 1) as nat), new, weight);
    }
}

/// Below zero and below the value, a step moves up by one unit at least;
/// at zero or above, it stays there.
proof fn lemma_step_from_below_zero(old: int, new: int, weight: nat)
    requires
        new >= 0,
    ensures
        old < 0 ==> ema_next(old, new, weight) >= old + 1,
        old >= 0 ==> ema_next(old, new, weight) >= 0,
{
    let d = (weight + 1) as int;
    lemma_step_movement(old, new, weight);
    lemma_sum_sign(old, new, weight);
    lemma_quotient_bounds(old - new, d);
    lemma_quotient_bounds(old * weight + new, d);
}

/// Toward a value that is not negative, the averages rise by one unit a
/// step at least until they are not negative either.
proof fn lemma_ema_crosses_zero(old: int, new: int, weight: nat, steps: nat)
    requires
        new >= 0,
    ensures
        ema_after(old, new, weight, steps) >= 0 || ema_after(old, new, weight, steps) >= old
            + steps,
    decreases steps,
{
    if steps > 0 {
        lemma_ema_crosses_zero(old, new, weight, (steps - 1) as nat);
        lemma_step_from_below_zero(ema_after(old, new, weight, (steps - 1) as nat), new, weight);
    }
}

/// The end within one unit, for a value that is not negative.
proof fn lemma_ema_within_one_above(old: int, new: int, weight: nat, steps: nat)
    requires
        new >= 0,
        ends_within_one(old, new),
        steps >= magnitude(new - old),
    ensures
        magnitude(new - ema_after(old, new, weight, steps)) <= 1,
{
    if rounds_toward(old, new) {
        lemma_ema_reaches(old, new, weight, steps);
    } else if magnitude(new - old) <= 1 {
        lemma_ema_never_widens(old, new, weight, steps);
    } else {
        // the value is one, the first average lies below zero
        lemma_ema_crosses_zero(old, new, weight, steps);
        lemma_ema_between(old, new, weight, steps);
    }
}

/// The averages lie between the first average and the value.
pub proof fn lemma_ema_between(old: int, new: int, weight: nat, steps: nat)
    ensures
        old <= new ==> old <= ema_after(old, new, weight, steps) <= new,
        new <= old ==> new <= ema_after(old, new, weight, steps) <= old,
    decreases steps,
{
    if steps > 0 {
        lemma_ema_between(old, new, weight, (steps - 1) as nat);
        lemma_step_between(ema_after(old, new, weight, (steps - 1) as nat), new, weight);
    }
}

/// Where the value lies between zero and the first average, or within one
/// unit of either, the averages end within one unit of the value.
pub proof fn lemma_ema_within_one(old: int, new: int, weight: nat, steps: nat)
    requires
        ends_within_one(old, new),
        steps >= magnitude(new - old),
    ensures
        magnitude(new - ema_after(old, new, weight, steps)) <= 1,
{
    if new >= 0 {
        lemma_ema_within_one_above(old, new, weight, steps);
    } else {
        lemma_ema_mirrored(old, new, weight, steps);
        lemma_ema_within_one_above(-old, -new, weight, steps);
    }
}

/// Two units or more below a value of two or more, a step ends two units
/// or more below it.
proof fn lemma_step_stays_far(old: int, new: int, weight: nat)
    requires
        weight >= 2,
        new >= 2,
        old <= new - 2,
    ensures
        ema_next(old, new, weight) <= new - 2,
{
    let d = (weight + 1) as int;
    let g = new - old;
    lemma_step_movement(old, new, weight);
    lemma_quotient_bounds(old * weight + new, d);
    lemma_quotient_bounds(-(old * weight + new), d);
    if old * weight + new >= 0 {
        vstd::arithmetic::div_mod::lemma_fundamental_div_mod(g, d);
        vstd::arithmetic::div_mod::lemma_mod_bound(g, d);
        let q = g / d;
        let r = g % d;
        assert(q <= g - 2) by (nonlinear_arith)
            requires
                g == d * q + r,
                0 <= r < d,
                d >= 3,
                g >= 2,
        ;
    }
}

/// Two units or more below a value of two or more, the averages stay so.
proof fn lemma_ema_stays_far_above(old: int, new: int, weight: nat, steps: nat)
    requires
        weight >= 2,
        new >= 2,
        old <= new - 2,
    ensures
        ema_after(old, new, weight, steps) <= new - 2,
    decreases steps,
{
    if steps > 0 {
        lemma_ema_stays_far_above(old, new, weight, (steps - 1) as nat);
        lemma_step_stays_far(ema_after(old, new, weight, (steps - 1) as nat), new, weight);
    }
}

/// On every other input, with a weight of two or more, the averages never
/// come within one unit of the value: rounding toward zero holds them back.
pub proof fn lemma_ema_held_back(old: int, new: int, weight: nat, steps: nat)
    requires
        weight >= 2,
        !ends_within_one(old, new),
    ensures
        magnitude(new - ema_after(old, new, weight, steps)) >= 2,
{
    if new >= 0 {
        lemma_ema_stays_far_above(old, new, weight, steps);
    } else {
        lemma_ema_mirrored(old, new, weight, steps);
        lemma_ema_stays_far_above(-old, -new, weight, steps);
    }
}

/// One smoothing step on signed values.
pub fn ema_step(old: i64, new: i64, weight: u32) -> (r: i64)
    ensures
        r == ema_next(old as int, new as int, weight as nat),
{
    proof {
        lemma_step_between(old as int, new as int, weight as nat);
        assert(-0x8000_0000_0000_0000_0000_0000 <= (old as int) * (weight as int)
            <= 0x8000_0000_0000_0000_0000_0000) by (nonlinear_arith)
            requires
                -0x8000_0000_0000_0000 <= old <= 0x8000_0000_0000_0000,
                0 <= weight <= 0x1_0000_0000,
        ;
    }
    let sum: i128 = (old as i128) * (weight as i128) + (new as i128);
    let parts: i128 = weight as i128 + 1;
    let next: i128 = if sum >= 0 {
        sum / parts
    } else {
        -((-sum) / parts)
    };
    next as i64
}

/// One smoothing step on unsigned values.
pub fn ema_step_unsigned(old: u64, new: u64, weight: u32) -> (r: u64)
    ensures
        r == ema_next(old as int, new as int, weight as nat),
{
    proof {
        lemma_step_between(old as int, new as int, weight as nat);
        assert(0 <= (old as int) * (weight as int) <= 0x1_0000_0000_0000_0000_0000_0000)
            by (nonlinear_arith)
            requires
                0 <= old <= 0x1_0000_0000_0000_0000,
                0 <= weight <= 0x1_0000_0000,
        ;
    }
    let sum: u128 = (old as u128) * (weight as u128) + (new as u128);
    let parts: u128 = weight as u128 + 1;
    (sum / parts) as u64
}

} // verus!

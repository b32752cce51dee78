//! Linear interpolation of whole numbers that rounds toward the target.

use vstd::prelude::*;

verus! {

/// How far a value has moved over `distance` after `step` of `steps` equal
/// steps, rounded up: the least whole number that is at least
/// `distance * step / steps`.
pub open spec fn moved(distance: int, step: int, steps: int) -> int {
    (distance * step + steps - 1) / steps
}

/// The value on the way from `start` to `target` after `step` of `steps`
/// equal steps, rounded toward `target`. Past the last step, and where
/// there are no steps at all, it is `target`.
pub open spec fn interpolated(start: int, target: int, step: int, steps: int) -> int {
    if steps <= 0 || step > steps {
        target
    } else if target >= start {
        start + moved(target - start, step, steps)
    } else {
        start - moved(start - target, step, steps)
    }
}

/// The way covered grows with the steps taken, from nothing at the start
/// to the whole distance at the last step.
pub proof fn lemma_moved(distance: int, step: int, later: int, steps: int)
    requires
        0 <= distance,
        0 <= step <= later <= steps,
        0 < steps,
    ensures
        moved(distance, 0, steps) == 0,
        moved(distance, steps, steps) == distance,
        0 <= moved(distance, step, steps) <= moved(distance, later, steps) <= distance,
{
    assert(0 <= distance * step <= distance * later <= distance * steps) by (nonlinear_arith)
        requires
            0 <= distance,
            0 <= step <= later <= steps,
    ;
    assert((distance * steps + steps - 1) / steps == distance) by (nonlinear_arith)
        requires
            0 < steps,
            0 <= distance,
    ;
    let a = distance * step + steps - 1;
    let b = distance * later + steps - 1;
    let c = distance * steps + steps - 1;
    vstd::arithmetic::div_mod::lemma_div_is_ordered(0, a, steps);
    vstd::arithmetic::div_mod::lemma_div_is_ordered(a, b, steps);
    vstd::arithmetic::div_mod::lemma_div_is_ordered(b, c, steps);
    vstd::arithmetic::div_mod::lemma_basic_div(0, steps);
    vstd::arithmetic::div_mod::lemma_basic_div(steps - 1, steps);
}

/// The last step lands on the target exactly, whichever way the steps
/// before it were rounded.
pub proof fn lemma_last_step_is_target(start: int, target: int, steps: int)
    requires
        0 < steps,
    ensures
        interpolated(start, target, steps, steps) == target,
{
    if target >= start {
        lemma_moved(target - start, 0, 0, steps);
    } else {
        lemma_moved(start - target, 0, 0, steps);
    }
}

/// Before the first step the value is the start.
pub proof fn lemma_no_step_is_start(start: int, target: int, steps: int)
    requires
        0 < steps,
    ensures
        interpolated(start, target, 0, steps) == start,
{
    if target >= start {
        lemma_moved(target - start, 0, 0, steps);
    } else {
        lemma_moved(start - target, 0, 0, steps);
    }
}

/// No step overshoots: every interpolated value lies between the start and
/// the target.
pub proof fn lemma_interpolated_stays_between(start: int, target: int, step: int, steps: int)
    requires
        0 <= step,
    ensures
        start <= target ==> start <= interpolated(start, target, step, steps) <= target,
        target <= start ==> target <= interpolated(start, target, step, steps) <= start,
{
    if 0 < steps && step <= steps {
        if target >= start {
            lemma_moved(target - start, step, step, steps);
        } else {
            lemma_moved(start - target, step, step, steps);
        }
    }
}

/// A later step is never farther from the target than an earlier one.
pub proof fn lemma_interpolated_approaches_target(
    start: int,
    target: int,
    step: int,
    later: int,
    steps: int,
)
    requires
        0 <= step <= later,
    ensures
        start <= target ==> interpolated(start, target, step, steps) <= interpolated(
            start,
            target,
            later,
            steps,
        ),
        target <= start ==> interpolated(start, target, step, steps) >= interpolated(
            start,
            target,
            later,
            steps,
        ),
{
    lemma_interpolated_stays_between(start, target, step, steps);
    if 0 < steps && later <= steps {
        if target >= start {
            lemma_moved(target - start, step, later, steps);
        } else {
            lemma_moved(start - target, step, later, steps);
        }
    }
}

/// Computes the value on the way from `start` to `target` after `step` of
/// `steps` steps.
pub fn interpolate(start: u32, target: u32, step: u32, steps: u32) -> (value: u32)
    ensures
        value == interpolated(start as int, target as int, step as int, steps as int),
{
    if steps == 0 || step > steps {
        return target;
    }
    if target >= start {
        let distance: u64 = (target - start) as u64;
        proof {
            lemma_moved(distance as int, step as int, step as int, steps as int);
        }
        assert(distance * step <= 0xffff_ffff * 0xffff_ffff) by (nonlinear_arith)
            requires
                0 <= distance <= 0xffff_ffff,
                0 <= step <= 0xffff_ffff,
        ;
        let covered: u64 = (distance * (step as u64) + (steps as u64 - 1)) / (steps as u64);
        start + covered as u32
    } else {
        let distance: u64 = (start - target) as u64;
        proof {
            lemma_moved(distance as int, step as int, step as int, steps as int);
        }
        assert(distance * step <= 0xffff_ffff * 0xffff_ffff) by (nonlinear_arith)
            requires
                0 <= distance <= 0xffff_ffff,
                0 <= step <= 0xffff_ffff,
        ;
        let covered: u64 = (distance * (step as u64) + (steps as u64 - 1)) / (steps as u64);
        start - covered as u32
    }
}

/// Computes the byte on the way from `start` to `target` after `step` of
/// `steps` steps.
pub fn interpolate_byte(start: u8, target: u8, step: u32, steps: u32) -> (value: u8)
    ensures
        value == interpolated(start as int, target as int, step as int, steps as int),
{
    proof {
        lemma_interpolated_stays_between(start as int, target as int, step as int, steps as int);
    }
    interpolate(start as u32, target as u32, step, steps) as u8
}

} // verus!

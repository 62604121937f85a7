//! The demo workload handed to the dispatcher: a bounded step count of the
//! Collatz recurrence. To the dispatcher it is just one more pure
//! transformation; it is specified exactly here so that dispatching it can
//! be reasoned about end to end.

use vstd::prelude::*;
use vstd::arithmetic::power::{lemma_pow0, lemma_pow1, lemma_pow_adds, lemma_pow_increases, pow};
use crate::model::deterministic;

verus! {

/// The iteration cap of the workload: stepping stops here even when the
/// value has not reached one.
pub const STEP_CAP: u64 = 8;

/// Inputs accepted by [`compute`]: the bound keeps every intermediate value
/// of the recurrence within `u64` for up to [`STEP_CAP`] steps, each of
/// which at most triples the value and adds one.
pub const MAX_COMPUTE_INPUT: u64 = 0x1000_0000_0000;

/// One step of the recurrence: halve an even value, triple an odd one and
/// add one.
pub open spec fn collatz_step(x: int) -> int {
    if x % 2 == 0 {
        x / 2
    } else {
        3 * x + 1
    }
}

/// The value reported when stepping continues from `x` with `taken` steps
/// already taken: step until the value reaches one or the cap is hit, then
/// report the number of steps taken if the value reached one, and the value
/// itself otherwise.
pub open spec fn bounded_steps_from(x: int, taken: int) -> int
    decreases STEP_CAP - taken,
{
    if taken >= STEP_CAP || x == 1 {
        if x == 1 {
            taken
        } else {
            x
        }
    } else {
        bounded_steps_from(collatz_step(x), taken + 1)
    }
}

/// What the workload returns for input `x`.
pub open spec fn compute_spec(x: int) -> int {
    bounded_steps_from(x, 0)
}

/// The demo workload: step the Collatz recurrence from `item` for at most
/// [`STEP_CAP`] steps, stopping early at one; return the number of steps
/// taken if one was reached, and the value the stepping stopped at
/// otherwise.
pub fn compute(item: u64) -> (res: u64)
    requires
        item < MAX_COMPUTE_INPUT,
    ensures
        res as int == compute_spec(item as int),
{
    let mut i: u64 = 0;
    let mut cur: u64 = item;
    proof {
        lemma_pow0(4);
    }
    while i < STEP_CAP && cur != 1
        invariant
            i <= STEP_CAP,
            (cur as int) < (MAX_COMPUTE_INPUT as int) * pow(4, i as nat),
            bounded_steps_from(cur as int, i as int) == compute_spec(item as int),
        decreases STEP_CAP - i,
    {
        proof {
            lemma_pow_increases(4, i as nat, (STEP_CAP - 1) as nat);
            assert(pow(4, (STEP_CAP - 1) as nat) == 16384) by {
                reveal_with_fuel(pow, 8);
            }
            lemma_pow_adds(4, i as nat, 1);
            lemma_pow1(4);
            assert(pow(4, (i + 1) as nat) == 4 * pow(4, i as nat));
        }
        if cur % 2 == 0 {
            cur = cur / 2;
        } else {
            cur = cur * 3 + 1;
        }
        i = i + 1;
    }
    if cur == 1 {
        i
    } else {
        cur
    }
}

/// The workload is a pure function: its contract admits exactly one result
/// for each input, so the agreement laws apply to dispatching it.
pub proof fn lemma_compute_deterministic()
    ensures
        deterministic(compute),
{
    assert forall|x: u64, y1: u64, y2: u64|
        #[trigger] call_ensures(compute, (x,), y1) && #[trigger] call_ensures(
            compute,
            (x,),
            y2,
        ) implies y1 == y2 by {
    }
}

} // verus!

//! The dispatch entry point: a single-shot, stateless transaction that
//! evaluates the selector on the input length and runs the chosen strategy.
//! No state survives a call; every call either returns the complete ordered
//! result or fails as a whole.

use vstd::prelude::*;
use crate::model::{input_ok, maps_to, should_parallelize, THRESHOLD};
use crate::sequential::run_sequential;
use crate::threads::{fan_out_chunked, fan_out_per_item};

verus! {

/// The fan-out granularity `dispatch` uses above the threshold: one
/// concurrent unit per input element, or one per contiguous chunk of at most
/// [`THRESHOLD`] elements.
#[derive(Clone, Copy, Debug)]
pub enum FanoutMode {
    PerItem,
    Chunked,
}

/// Dispatch the input to a strategy: at or below [`THRESHOLD`] the input is
/// processed sequentially on the calling thread regardless of `mode`; above
/// it, the fan-out strategy named by `mode` runs. Either way the result is
/// the elementwise image of the input, in input order.
pub fn dispatch<T, R, F>(input: Vec<T>, f: F, mode: FanoutMode) -> (res: Vec<R>) where
    T: Copy + Send + Sync + 'static,
    R: Send + 'static,
    F: Fn(T) -> R + Copy + Send + Sync + 'static,

    requires
        input_ok(f, input@),
    ensures
        maps_to(f, input@, res@),
{
    if !should_parallelize(input.len()) {
        run_sequential(input, f)
    } else {
        match mode {
            FanoutMode::PerItem => fan_out_per_item(input, f),
            FanoutMode::Chunked => fan_out_chunked(input, f),
        }
    }
}

/// Same dispatch as [`dispatch`], and additionally reports which path was
/// taken: the flag is true exactly when the input was strictly longer than
/// [`THRESHOLD`] and the parallel path ran.
pub fn dispatch_flag<T, R, F>(input: Vec<T>, f: F, mode: FanoutMode) -> (res: (Vec<R>, bool)) where
    T: Copy + Send + Sync + 'static,
    R: Send + 'static,
    F: Fn(T) -> R + Copy + Send + Sync + 'static,

    requires
        input_ok(f, input@),
    ensures
        maps_to(f, input@, res.0@),
        res.1 == (input@.len() > THRESHOLD),
{
    let parallel = should_parallelize(input.len());
    (dispatch(input, f, mode), parallel)
}

} // verus!

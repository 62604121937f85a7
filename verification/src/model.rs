//! The mathematical model shared by every execution strategy: what it means
//! for an output sequence to be the elementwise image of an input sequence
//! under an injected transformation.

use vstd::prelude::*;

verus! {

/// Inputs of length at most this bound are processed sequentially on the
/// calling thread; longer inputs are fanned out across concurrent workers.
pub const THRESHOLD: usize = 3;

/// The transformation may be applied to every element of `input`.
pub open spec fn input_ok<T, R, F: Fn(T) -> R>(f: F, input: Seq<T>) -> bool {
    forall|i: int| 0 <= i < input.len() ==> call_requires(f, (#[trigger] input[i],))
}

/// `output` is an elementwise image of `input` under the transformation:
/// same length, and the element at each index is a result that the
/// transformation admits for the input element at the same index.
pub open spec fn maps_to<T, R, F: Fn(T) -> R>(f: F, input: Seq<T>, output: Seq<R>) -> bool {
    &&& output.len() == input.len()
    &&& forall|i: int|
        0 <= i < input.len() ==> call_ensures(f, (input[i],), #[trigger] output[i])
}

/// The transformation is a pure function: it admits at most one result for
/// each argument.
pub open spec fn deterministic<T, R, F: Fn(T) -> R>(f: F) -> bool {
    forall|x: T, y1: R, y2: R|
        #[trigger] call_ensures(f, (x,), y1) && #[trigger] call_ensures(f, (x,), y2)
            ==> y1 == y2
}

/// The selector: fan out exactly when the input is strictly longer than
/// [`THRESHOLD`].
pub fn should_parallelize(size: usize) -> (r: bool)
    ensures
        r == (size > THRESHOLD),
{
    size > THRESHOLD
}

} // verus!

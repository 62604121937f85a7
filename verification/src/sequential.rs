//! SequentialFallback: apply the transformation to each element in index
//! order on the calling thread. This strategy runs whenever the input is at
//! or below the threshold, and it also processes each chunk inside the
//! chunked fan-out strategies.

use vstd::prelude::*;
use crate::model::{input_ok, maps_to};

verus! {

/// Apply `f` to every element of `data`, in index order, on the calling
/// thread. The result has the same length as the input and each output
/// element is a result that `f` admits for the input element at the same
/// index.
pub fn run_sequential<T: Copy, R, F: Fn(T) -> R + Copy>(data: Vec<T>, f: F) -> (res: Vec<R>)
    requires
        input_ok(f, data@),
    ensures
        maps_to(f, data@, res@),
{
    let mut res: Vec<R> = Vec::new();
    let mut j: usize = 0;
    while j < data.len()
        invariant
            input_ok(f, data@),
            j <= data@.len(),
            res@.len() == j as int,
            forall|i: int| 0 <= i < j ==> call_ensures(f, (data@[i],), #[trigger] res@[i]),
        decreases data@.len() - j,
    {
        res.push(f(data[j]));
        j += 1;
    }
    res
}

} // verus!

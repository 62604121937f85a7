//! Laws that relate the strategies to one another. Every strategy ensures
//! that its output is the elementwise image of its input, so for a
//! deterministic transformation all of them — and any two runs of any one of
//! them — return the same sequence.

use vstd::prelude::*;
use crate::model::{deterministic, maps_to};

verus! {

/// Order preservation, read pointwise: when the transformation is
/// deterministic, the element at index `i` of any output the dispatch
/// contract admits is the one result the transformation admits for
/// `input[i]`.
pub proof fn lemma_order_preservation<T, R, F: Fn(T) -> R>(
    f: F,
    input: Seq<T>,
    output: Seq<R>,
    i: int,
    y: R,
)
    requires
        deterministic(f),
        maps_to(f, input, output),
        0 <= i < input.len(),
        call_ensures(f, (input[i],), y),
    ensures
        output[i] == y,
{
    assert(call_ensures(f, (input[i],), output[i]));
}

/// Strategy equivalence and idempotence: any two output sequences that the
/// dispatch contract admits for the same input and a deterministic
/// transformation are equal. Since the sequential, per-item and chunked
/// strategies — on spawned threads or on the worker pool — all ensure that
/// their output is the elementwise image of the input, any two of them agree
/// on a fixed input, and running any one of them twice yields identical
/// outputs.
pub proof fn lemma_outputs_agree<T, R, F: Fn(T) -> R>(
    f: F,
    input: Seq<T>,
    out1: Seq<R>,
    out2: Seq<R>,
)
    requires
        deterministic(f),
        maps_to(f, input, out1),
        maps_to(f, input, out2),
    ensures
        out1 == out2,
{
    assert forall|i: int| 0 <= i < out1.len() implies out1[i] == out2[i] by {
        assert(call_ensures(f, (input[i],), out1[i]));
        assert(call_ensures(f, (input[i],), out2[i]));
    }
    assert(out1 =~= out2);
}

} // verus!

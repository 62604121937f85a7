//! Fan-out over rayon's managed worker pool: the same threshold-gated
//! strategies as the thread-spawning ones, but each concurrent unit is a
//! task scheduled on the pool instead of a freshly spawned thread. The
//! parallel map itself is delegated to rayon through one trusted wrapper;
//! the threshold gate, the chunk partition and the reassembly of the chunk
//! results are verified here.

use vstd::prelude::*;
use crate::chunks::{build_chunks, chunk_of, concat_pieces};
use crate::model::{input_ok, maps_to, should_parallelize, THRESHOLD};
use crate::sequential::run_sequential;

verus! {

/// Relies on rayon's `IntoParallelIterator` for `Vec`, together with
/// `ParallelIterator::map` and `collect` into `Vec`: the parallel iterator
/// of a vector is indexed, mapping it applies the closure to every element,
/// and collecting it into a vector gathers one result per element in the
/// original element order.
#[verifier::external_body]
fn par_map_vec<T, R, F>(data: Vec<T>, f: F) -> (res: Vec<R>) where
    T: Send,
    R: Send,
    F: Fn(T) -> R + Send + Sync,

    requires
        input_ok(f, data@),
    ensures
        maps_to(f, data@, res@),
{
    rayon::iter::ParallelIterator::collect(
        rayon::iter::ParallelIterator::map(
            rayon::iter::IntoParallelIterator::into_par_iter(data),
            |item| f(item),
        ),
    )
}

/// The per-item strategy behind a threshold gate, on the worker pool:
/// inputs at or below [`THRESHOLD`] run sequentially on the calling thread,
/// longer inputs are mapped in parallel, one task per element. Either way
/// the result is the elementwise image of the input, in input order.
pub fn splitter_rayon<T, R, F>(data: Vec<T>, f: F) -> (res: Vec<R>) where
    T: Copy + Send + Sync,
    R: Send,
    F: Fn(T) -> R + Copy + Send + Sync,

    requires
        input_ok(f, data@),
    ensures
        maps_to(f, data@, res@),
{
    if should_parallelize(data.len()) {
        par_map_vec(data, f)
    } else {
        run_sequential(data, f)
    }
}

/// The chunked strategy behind a threshold gate, on the worker pool: inputs
/// at or below [`THRESHOLD`] run sequentially on the calling thread, longer
/// inputs are split into chunks of at most [`THRESHOLD`] elements, one task
/// per chunk maps its chunk sequentially, and the chunk results are
/// concatenated in chunk order, which equals input order.
pub fn splitter_rayon_chunks<T, R, F>(data: Vec<T>, f: F) -> (res: Vec<R>) where
    T: Copy + Send + Sync,
    R: Send,
    F: Fn(T) -> R + Copy + Send + Sync,

    requires
        input_ok(f, data@),
    ensures
        maps_to(f, data@, res@),
{
    if should_parallelize(data.len()) {
        let chunks = build_chunks(&data);
        let ghost chunks_view = chunks@;
        let g = (move |chunk: Vec<T>| -> (r: Vec<R>)
            requires
                input_ok(f, chunk@),
            ensures
                maps_to(f, chunk@, r@),
            { run_sequential(chunk, f) });
        assert(input_ok(g, chunks@)) by {
            assert forall|k: int| 0 <= k < chunks@.len() implies call_requires(
                g,
                (#[trigger] chunks@[k],),
            ) by {
                assert(chunks@[k]@ == chunk_of(data@, k));
                assert forall|i: int| 0 <= i < chunks@[k]@.len() implies call_requires(
                    f,
                    (#[trigger] chunks@[k]@[i],),
                ) by {
                    assert(chunks@[k]@[i] == data@[k * (THRESHOLD as int) + i]);
                }
            }
        }
        let out = par_map_vec(chunks, g);
        proof {
            assert forall|k: int| 0 <= k < out@.len() implies maps_to(
                f,
                chunk_of(data@, k),
                (#[trigger] out@[k])@,
            ) by {
                assert(call_ensures(g, (chunks_view[k],), out@[k]));
            }
        }
        concat_pieces(out, &f, Ghost(data@))
    } else {
        run_sequential(data, f)
    }
}

} // verus!

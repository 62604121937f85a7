//! Fan-out over spawned worker threads: one concurrent unit per input
//! element, or one per contiguous chunk of at most [`THRESHOLD`] elements.
//! Units run with no ordering guarantee between them; only the assembly of
//! their results is ordered, by unit creation order, which equals input
//! order. The join step blocks until every unit of the call has completed.

use vstd::prelude::*;
use vstd::*;
use crate::chunks::{chunk_of, concat_pieces, copy_range};
use crate::model::{input_ok, maps_to, should_parallelize, THRESHOLD};
use crate::sequential::run_sequential;

verus! {

/// PerItemFanout: spawn one worker thread per input element, then join the
/// units in creation order, which equals input order.
///
/// A unit that cannot be joined has produced nothing; its element is still
/// owned here, so its work is redone on the calling thread rather than
/// dropped or replaced by a default.
pub(crate) fn fan_out_per_item<T, R, F>(data: Vec<T>, f: F) -> (res: Vec<R>) where
    T: Copy + Send + Sync + 'static,
    R: Send + 'static,
    F: Fn(T) -> R + Copy + Send + Sync + 'static,

    requires
        input_ok(f, data@),
    ensures
        maps_to(f, data@, res@),
{
    let n = data.len();
    let mut handles: Vec<thread::JoinHandle<R>> = Vec::new();
    let mut j: usize = 0;
    while j < n
        invariant
            input_ok(f, data@),
            n == data@.len(),
            j <= n,
            handles@.len() == j as int,
            forall|k: int, ret: R|
                0 <= k < j && #[trigger] handles@[k].predicate(ret)
                    ==> call_ensures(f, (data@[k],), ret),
        decreases n - j,
    {
        let item = data[j];
        let handle = thread::spawn(
            (move || -> (r: R)
                requires
                    call_requires(f, (item,)),
                ensures
                    call_ensures(f, (item,), r),
                { f(item) }),
        );
        handles.push(handle);
        j += 1;
    }
    let mut res: Vec<R> = Vec::new();
    while handles.len() > 0
        invariant
            input_ok(f, data@),
            n == data@.len(),
            res@.len() + handles@.len() == n as int,
            forall|i: int|
                0 <= i < res@.len() ==> call_ensures(f, (data@[i],), #[trigger] res@[i]),
            forall|k: int, ret: R|
                0 <= k < handles@.len() && #[trigger] handles@[k].predicate(ret)
                    ==> call_ensures(f, (data@[res@.len() + k],), ret),
        decreases handles@.len(),
    {
        let handle = handles.remove(0);
        match handle.join() {
            Ok(r) => {
                res.push(r);
            },
            Err(_) => {
                let idx = res.len();
                res.push(f(data[idx]));
            },
        }
    }
    res
}

/// ChunkedFanout: spawn one worker thread per contiguous chunk of at most
/// [`THRESHOLD`] elements; each unit applies the sequential strategy to its
/// own chunk, and the chunk results are concatenated in chunk-creation
/// order, which equals input order.
///
/// A unit that cannot be joined has produced nothing; its chunk is still
/// owned here, so its work is redone on the calling thread rather than
/// dropped or replaced by a default.
pub(crate) fn fan_out_chunked<T, R, F>(data: Vec<T>, f: F) -> (res: Vec<R>) where
    T: Copy + Send + Sync + 'static,
    R: Send + 'static,
    F: Fn(T) -> R + Copy + Send + Sync + 'static,

    requires
        input_ok(f, data@),
    ensures
        maps_to(f, data@, res@),
{
    let n = data.len();
    let mut handles: Vec<thread::JoinHandle<Vec<R>>> = Vec::new();
    let mut start: usize = 0;
    while start < n
        invariant
            input_ok(f, data@),
            n == data@.len(),
            start <= n,
            start as int == (if handles@.len() * (THRESHOLD as int) <= n as int {
                handles@.len() * (THRESHOLD as int)
            } else {
                n as int
            }),
            handles@.len() * (THRESHOLD as int) < n as int + (THRESHOLD as int),
            forall|k: int, rv: Vec<R>|
                0 <= k < handles@.len() && #[trigger] handles@[k].predicate(rv)
                    ==> maps_to(f, chunk_of(data@, k), rv@),
        decreases n - start,
    {
        let ghost k = handles@.len() as int;
        assert(start as int == k * (THRESHOLD as int));
        let end = if n - start < THRESHOLD {
            n
        } else {
            start + THRESHOLD
        };
        let chunk = copy_range(&data, start, end);
        assert(chunk@ == chunk_of(data@, k));
        assert(input_ok(f, chunk@)) by {
            assert forall|i: int| 0 <= i < chunk@.len() implies call_requires(
                f,
                (#[trigger] chunk@[i],),
            ) by {
                assert(chunk@[i] == data@[start + i]);
            }
        }
        let handle = thread::spawn(
            (move || -> (r: Vec<R>)
                requires
                    input_ok(f, chunk@),
                ensures
                    maps_to(f, chunk@, r@),
                { run_sequential(chunk, f) }),
        );
        handles.push(handle);
        start = end;
    }
    let ghost total = handles@.len() as int;
    assert(n as int <= total * (THRESHOLD as int));
    let mut pieces: Vec<Vec<R>> = Vec::new();
    while handles.len() > 0
        invariant
            input_ok(f, data@),
            n == data@.len(),
            pieces@.len() + handles@.len() == total,
            n as int <= total * (THRESHOLD as int),
            total * (THRESHOLD as int) < n as int + (THRESHOLD as int),
            forall|k: int|
                0 <= k < pieces@.len() ==> maps_to(f, chunk_of(data@, k), (#[trigger] pieces@[k])@),
            forall|k: int, rv: Vec<R>|
                0 <= k < handles@.len() && #[trigger] handles@[k].predicate(rv)
                    ==> maps_to(f, chunk_of(data@, pieces@.len() + k), rv@),
        decreases handles@.len(),
    {
        let ghost c = THRESHOLD as int;
        let ghost jc = pieces@.len() as int;
        assert(jc * c <= (total - 1) * c < n as int) by {
            assert(jc <= total - 1);
            assert(jc * c <= (total - 1) * c);
            assert((total - 1) * c == total * c - c);
        }
        let handle = handles.remove(0);
        let piece: Vec<R> = match handle.join() {
            Ok(rv) => rv,
            Err(_) => {
                let s = pieces.len() * THRESHOLD;
                let e = if n - s < THRESHOLD {
                    n
                } else {
                    s + THRESHOLD
                };
                let chunk = copy_range(&data, s, e);
                assert(chunk@ == chunk_of(data@, jc));
                assert(input_ok(f, chunk@)) by {
                    assert forall|i: int| 0 <= i < chunk@.len() implies call_requires(
                        f,
                        (#[trigger] chunk@[i],),
                    ) by {
                        assert(chunk@[i] == data@[s + i]);
                    }
                }
                run_sequential(chunk, f)
            },
        };
        pieces.push(piece);
    }
    concat_pieces(pieces, &f, Ghost(data@))
}

/// The per-item strategy behind a threshold gate: inputs at or below
/// [`THRESHOLD`] run sequentially on the calling thread, longer inputs fan
/// out one worker thread per element. Either way the result is the
/// elementwise image of the input, in input order.
pub fn splitter_std<T, R, F>(data: Vec<T>, f: F) -> (res: Vec<R>) where
    T: Copy + Send + Sync + 'static,
    R: Send + 'static,
    F: Fn(T) -> R + Copy + Send + Sync + 'static,

    requires
        input_ok(f, data@),
    ensures
        maps_to(f, data@, res@),
{
    if should_parallelize(data.len()) {
        fan_out_per_item(data, f)
    } else {
        run_sequential(data, f)
    }
}

/// Same dispatch as [`splitter_std`], and additionally reports which path
/// was taken: the flag is true exactly when the input was strictly longer
/// than [`THRESHOLD`] and the parallel path ran.
pub fn splitter_std_test<T, R, F>(data: Vec<T>, f: F) -> (res: (Vec<R>, bool)) where
    T: Copy + Send + Sync + 'static,
    R: Send + 'static,
    F: Fn(T) -> R + Copy + Send + Sync + 'static,

    requires
        input_ok(f, data@),
    ensures
        maps_to(f, data@, res.0@),
        res.1 == (data@.len() > THRESHOLD),
{
    if should_parallelize(data.len()) {
        (fan_out_per_item(data, f), true)
    } else {
        (run_sequential(data, f), false)
    }
}

/// The chunked strategy behind a threshold gate: inputs at or below
/// [`THRESHOLD`] run sequentially on the calling thread, longer inputs fan
/// out one worker thread per chunk of at most [`THRESHOLD`] elements. Either
/// way the result is the elementwise image of the input, in input order.
pub fn splitter_std_chunks<T, R, F>(data: Vec<T>, f: F) -> (res: Vec<R>) where
    T: Copy + Send + Sync + 'static,
    R: Send + 'static,
    F: Fn(T) -> R + Copy + Send + Sync + 'static,

    requires
        input_ok(f, data@),
    ensures
        maps_to(f, data@, res@),
{
    if should_parallelize(data.len()) {
        fan_out_chunked(data, f)
    } else {
        run_sequential(data, f)
    }
}

} // verus!

//! The chunk partition used by the chunked fan-out strategies: the input is
//! split into contiguous chunks of at most [`THRESHOLD`] elements, in order,
//! with only the last chunk allowed to be shorter. Concatenating the chunks
//! reconstructs the input exactly, with no gaps and no overlaps.

use vstd::prelude::*;
use vstd::seq_lib::lemma_flatten_concat;
use crate::model::{maps_to, THRESHOLD};

verus! {

/// The intended boundaries of chunk `k` of `s`: it covers the input indices
/// `[k * THRESHOLD, min((k + 1) * THRESHOLD, s.len()))`.
pub open spec fn chunk_of<T>(s: Seq<T>, k: int) -> Seq<T> {
    let c = THRESHOLD as int;
    s.subrange(k * c, if (k + 1) * c <= s.len() { (k + 1) * c } else { s.len() as int })
}

/// How many chunks a sequence of length `n` splits into.
pub open spec fn chunk_count(n: int) -> int {
    (n + (THRESHOLD as int) - 1) / (THRESHOLD as int)
}

/// The partition of `s` into contiguous chunks of at most [`THRESHOLD`]
/// elements, in order; the last chunk may be shorter.
pub open spec fn chunks_of<T>(s: Seq<T>) -> Seq<Seq<T>>
    decreases s.len(),
{
    let c = THRESHOLD as int;
    if s.len() == 0 {
        Seq::empty()
    } else if s.len() <= c {
        seq![s]
    } else {
        seq![s.subrange(0, c)] + chunks_of(s.subrange(c, s.len() as int))
    }
}

/// Chunk partition correctness: the chunks cover the input index range
/// exactly, in order, with no gaps and no overlaps. Every chunk is non-empty
/// and holds at most [`THRESHOLD`] elements, every chunk but the last holds
/// exactly [`THRESHOLD`], chunk `k` sits at the intended boundaries, and
/// concatenating all the chunks reconstructs the input.
pub proof fn lemma_chunk_partition<T>(s: Seq<T>)
    ensures
        chunks_of(s).len() == chunk_count(s.len() as int),
        forall|k: int| 0 <= k < chunks_of(s).len() ==> #[trigger] chunks_of(s)[k] == chunk_of(s, k),
        forall|k: int|
            0 <= k < chunks_of(s).len() ==> 0 < (#[trigger] chunks_of(s)[k]).len() <= THRESHOLD,
        forall|k: int|
            0 <= k < chunks_of(s).len() - 1 ==> (#[trigger] chunks_of(s)[k]).len() == THRESHOLD,
        chunks_of(s).flatten() == s,
    decreases s.len(),
{
    let c = THRESHOLD as int;
    if s.len() == 0 {
        assert(chunks_of(s).flatten() =~= s);
    } else if s.len() <= c {
        assert(chunk_of(s, 0) =~= s);
        chunks_of(s).lemma_flatten_one_element();
        assert(chunks_of(s).flatten() =~= s);
    } else {
        let head = seq![s.subrange(0, c)];
        let tail = s.subrange(c, s.len() as int);
        lemma_chunk_partition(tail);
        lemma_flatten_concat(head, chunks_of(tail));
        head.lemma_flatten_one_element();
        assert(head.flatten() =~= s.subrange(0, c));
        assert(chunks_of(s).flatten() =~= s);
        assert forall|k: int| 0 <= k < chunks_of(s).len() implies #[trigger] chunks_of(s)[k]
            == chunk_of(s, k) by {
            if k == 0 {
                assert(chunks_of(s)[0] =~= chunk_of(s, 0));
            } else {
                assert(chunks_of(s)[k] == chunks_of(tail)[k - 1]);
                assert(chunks_of(tail)[k - 1] == chunk_of(tail, k - 1));
                assert((k - 1) * c == k * c - c);
                assert(k * c == (k - 1) * c + c);
                assert(chunk_of(tail, k - 1) =~= chunk_of(s, k));
            }
        }
    }
}

/// Copy the elements of `data` at indices `[start, end)` into a fresh vector.
pub(crate) fn copy_range<T: Copy>(data: &Vec<T>, start: usize, end: usize) -> (res: Vec<T>)
    requires
        start <= end <= data@.len(),
    ensures
        res@ == data@.subrange(start as int, end as int),
{
    let mut res: Vec<T> = Vec::new();
    let mut j: usize = start;
    while j < end
        invariant
            start <= j <= end <= data@.len(),
            res@ == data@.subrange(start as int, j as int),
        decreases end - j,
    {
        res.push(data[j]);
        assert(res@ =~= data@.subrange(start as int, (j + 1) as int));
        j += 1;
    }
    res
}

/// Split `data` into its chunks: chunk `k` holds copies of the elements at
/// the boundaries that [`chunk_of`] gives, so the chunks are exactly the
/// partition that [`chunks_of`] describes.
pub fn build_chunks<T: Copy>(data: &Vec<T>) -> (chunks: Vec<Vec<T>>)
    ensures
        chunks@.map_values(|v: Vec<T>| v@) == chunks_of(data@),
        chunks@.len() == chunk_count(data@.len() as int),
        data@.len() <= chunks@.len() * (THRESHOLD as int),
        chunks@.len() * (THRESHOLD as int) < data@.len() + (THRESHOLD as int),
        forall|k: int| 0 <= k < chunks@.len() ==> (#[trigger] chunks@[k])@ == chunk_of(data@, k),
{
    let n = data.len();
    let mut chunks: Vec<Vec<T>> = Vec::new();
    let mut start: usize = 0;
    while start < n
        invariant
            n == data@.len(),
            start <= n,
            start as int == (if chunks@.len() * (THRESHOLD as int) <= n as int {
                chunks@.len() * (THRESHOLD as int)
            } else {
                n as int
            }),
            chunks@.len() * (THRESHOLD as int) < n as int + (THRESHOLD as int),
            forall|k: int|
                0 <= k < chunks@.len() ==> (#[trigger] chunks@[k])@ == chunk_of(data@, k),
        decreases n - start,
    {
        let ghost k = chunks@.len() as int;
        assert(start as int == k * (THRESHOLD as int));
        let end = if n - start < THRESHOLD {
            n
        } else {
            start + THRESHOLD
        };
        let chunk = copy_range(data, start, end);
        assert(chunk@ == chunk_of(data@, k));
        chunks.push(chunk);
        start = end;
    }
    proof {
        lemma_chunk_partition(data@);
        assert(chunks@.len() == chunk_count(n as int));
        assert(chunks@.map_values(|v: Vec<T>| v@) =~= chunks_of(data@));
    }
    chunks
}

/// Concatenate per-chunk results, in chunk order, into the output sequence:
/// if piece `k` is the elementwise image of chunk `k` of `input`, the
/// concatenation is the elementwise image of `input` itself.
pub(crate) fn concat_pieces<T, R, F: Fn(T) -> R>(
    pieces: Vec<Vec<R>>,
    f: &F,
    Ghost(input): Ghost<Seq<T>>,
) -> (res: Vec<R>)
    requires
        input.len() <= pieces@.len() * (THRESHOLD as int),
        pieces@.len() * (THRESHOLD as int) < input.len() + (THRESHOLD as int),
        forall|k: int|
            0 <= k < pieces@.len() ==> maps_to(*f, chunk_of(input, k), (#[trigger] pieces@[k])@),
    ensures
        maps_to(*f, input, res@),
{
    let ghost total = pieces@.len() as int;
    let ghost c = THRESHOLD as int;
    let mut pieces = pieces;
    let mut res: Vec<R> = Vec::new();
    while pieces.len() > 0
        invariant
            c == THRESHOLD as int,
            input.len() <= total * c,
            total * c < input.len() + c,
            pieces@.len() <= total,
            res@.len() == (if pieces@.len() > 0 {
                (total - pieces@.len()) * c
            } else {
                input.len() as int
            }),
            forall|i: int| 0 <= i < res@.len() ==> call_ensures(*f, (input[i],), #[trigger] res@[i]),
            forall|k: int|
                0 <= k < pieces@.len() ==> maps_to(
                    *f,
                    chunk_of(input, (total - pieces@.len()) + k),
                    (#[trigger] pieces@[k])@,
                ),
        decreases pieces@.len(),
    {
        let ghost jc = total - pieces@.len();
        assert((total - 1) * c == total * c - c);
        assert(jc * c <= (total - 1) * c);
        let mut piece = pieces.remove(0);
        assert(maps_to(*f, chunk_of(input, jc), piece@));
        let ghost old_res = res@;
        let ghost piece_view = piece@;
        res.append(&mut piece);
        proof {
            assert((jc + 1) * c == jc * c + c);
            assert forall|i: int| 0 <= i < res@.len() implies call_ensures(
                *f,
                (input[i],),
                #[trigger] res@[i],
            ) by {
                if i >= jc * c {
                    assert(res@[i] == piece_view[i - jc * c]);
                    assert(chunk_of(input, jc)[i - jc * c] == input[i]);
                } else {
                    assert(res@[i] == old_res[i]);
                }
            }
        }
    }
    res
}

} // verus!

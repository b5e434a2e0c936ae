//! Static-asset serving: turning a file found on the host filesystem into a
//! lazy body, and a missing file into a normal not-found response.
//!
//! A present file is streamed through a bounded-size read loop: its
//! stat-reported size determines the read plan, and the bytes actually
//! streamed are exactly that many. Absence of the file is a normal,
//! non-fatal outcome: the caller maps it to a not-found response rather
//! than failing the request.

use vstd::prelude::*;

use crate::body::{all_data, chunk_data, Body, ChunkItem, ChunkStream, content_of, datas};
use crate::chunks::{chunk_count, chunks_of, lemma_chunk_count_unique, views_of};
use crate::headers::{copy_bytes, HeaderMap};
use crate::response::Response;

verus! {

/// The total of a sequence of read sizes.
pub open spec fn sum_of(s: Seq<usize>) -> int
    decreases s.len(),
{
    if s.len() == 0 {
        0
    } else {
        sum_of(s.drop_last()) + s.last()
    }
}

/// The sizes of the bounded reads that stream a file whose stat-reported
/// size is `size`: every read but the last asks for a full chunk, the reads
/// add up to the file size exactly — also when the size is not a multiple of
/// the chunk size — and there are `ceil(size / chunk_size)` of them.
pub fn read_plan(size: usize, chunk_size: usize) -> (r: Vec<usize>)
    requires
        chunk_size > 0,
    ensures
        sum_of(r@) == size,
        r@.len() == chunk_count(size as nat, chunk_size as nat),
        forall|j: int| 0 <= j < r@.len() ==> 0 < #[trigger] r@[j] <= chunk_size,
        forall|j: int| 0 <= j < r@.len() - 1 ==> #[trigger] r@[j] == chunk_size,
{
    let mut r: Vec<usize> = Vec::new();
    let mut done: usize = 0;
    while done < size
        invariant
            chunk_size > 0,
            done <= size,
            sum_of(r@) == done,
            forall|j: int| 0 <= j < r@.len() ==> 0 < #[trigger] r@[j] <= chunk_size,
            forall|j: int| 0 <= j < r@.len() - 1 ==> #[trigger] r@[j] == chunk_size,
            r@.len() == 0 ==> done == 0,
            r@.len() > 0 ==> done == (r@.len() - 1) * chunk_size + r@.last(),
            done < size ==> (r@.len() == 0 || r@.last() == chunk_size),
        decreases size - done,
    {
        let step = if size - done >= chunk_size {
            chunk_size
        } else {
            size - done
        };
        let ghost pre = r@;
        r.push(step);
        proof {
            assert(r@.drop_last() =~= pre);
            assert(r@.len() > 1 ==> (r@.len() - 2) * chunk_size + chunk_size == (r@.len() - 1)
                * chunk_size) by (nonlinear_arith);
        }
        done += step;
    }
    proof {
        if r@.len() == 0 {
            assert(size == 0);
        } else {
            let k = r@.len();
            assert((k - 1) * chunk_size < size && size <= k * chunk_size) by (nonlinear_arith)
                requires
                    size == (k - 1) * chunk_size + r@.last(),
                    0 < r@.last() <= chunk_size,
            ;
            lemma_chunk_count_unique(size as nat, chunk_size as nat, k as nat);
        }
    }
    r
}

/// Wrap a present file's content as the lazy chunk sequence of a
/// bounded-size read loop: every chunk holds at most `chunk_size` bytes, no
/// element is an error, and the chunks streamed add up to the file's
/// content exactly — its full byte count, also when that count is not a
/// multiple of the chunk size.
pub fn file_chunk_stream(content: &[u8], chunk_size: usize) -> (r: ChunkStream)
    requires
        chunk_size > 0,
    ensures
        r.wf(),
        r.cursor() == 0,
        all_data(r.items()),
        content_of(r.items()) == content@,
        r.items().len() == chunk_count(content@.len(), chunk_size as nat),
        forall|j: int|
            0 <= j < r.items().len() ==> chunk_data(#[trigger] r.items()[j]).len() <= chunk_size,
{
    let pieces = chunks_of(content, chunk_size);
    let ghost plan = views_of(pieces@);
    let mut items: Vec<ChunkItem> = Vec::new();
    let mut i: usize = 0;
    while i < pieces.len()
        invariant
            i <= pieces@.len(),
            plan == views_of(pieces@),
            items@.len() == i,
            forall|j: int| 0 <= j < i ==> #[trigger] items@[j]@ == crate::body::ChunkModel::Data(
                plan[j],
            ),
        decreases pieces@.len() - i,
    {
        items.push(ChunkItem::Data(copy_bytes(&pieces[i])));
        i += 1;
    }
    let ghost m = items@.map_values(|it: ChunkItem| it@);
    proof {
        assert(datas(m) =~= plan);
        assert(forall|j: int| 0 <= j < m.len() ==> #[trigger] m[j] is Data);
    }
    ChunkStream::new(items)
}

/// Map a static-asset lookup result to a response: a found body is served
/// with status 200; a missing file — a normal outcome — becomes an empty
/// not-found response rather than an unhandled error.
pub fn asset_response(found: Option<Body>) -> (r: Response)
    ensures
        r.headers@ == Seq::<(Seq<u8>, Seq<u8>)>::empty(),
        found matches Some(b) ==> r.status == 200 && r.body == b,
        found is None ==> r.status == 404 && r.body@ == crate::body::BodyModel::Sync(
            Seq::<u8>::empty(),
        ),
{
    match found {
        Some(body) => Response::new(body),
        None => Response { status: 404, headers: HeaderMap::new(), body: Body::Sync(Vec::new()) },
    }
}

} // verus!

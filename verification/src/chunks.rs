//! Splitting a fully materialized byte payload into bounded-size pieces.
//!
//! The host write primitive is synchronous, so every write pushed to the
//! host stream is capped at a configured chunk size. A materialized body is
//! delivered as `ceil(len / chunk_size)` pieces whose concatenation is
//! exactly the original bytes.

use vstd::prelude::*;

verus! {

/// The byte sequences held by a list of byte buffers, in order.
pub open spec fn views_of(chunks: Seq<Vec<u8>>) -> Seq<Seq<u8>> {
    chunks.map_values(|c: Vec<u8>| c@)
}

/// The concatenation of a sequence of byte chunks, front to back.
pub open spec fn concat_of(chunks: Seq<Seq<u8>>) -> Seq<u8>
    decreases chunks.len(),
{
    if chunks.len() == 0 {
        Seq::empty()
    } else {
        concat_of(chunks.drop_last()) + chunks.last()
    }
}

/// How many pieces a payload of `len` bytes yields under a positive
/// `chunk_size`: `ceil(len / chunk_size)`.
pub open spec fn chunk_count(len: nat, chunk_size: nat) -> nat {
    if len == 0 {
        0
    } else {
        ((len - 1) / (chunk_size as int) + 1) as nat
    }
}

pub(crate) proof fn lemma_chunk_count_unique(len: nat, chunk_size: nat, k: nat)
    requires
        chunk_size > 0,
        k > 0,
        (k - 1) * chunk_size < len,
        len <= k * chunk_size,
    ensures
        k == chunk_count(len, chunk_size),
{
    assert(len > 0);
    assert((k - 1) * chunk_size <= len - 1 < k * chunk_size);
    assert((len - 1) / (chunk_size as int) == k - 1) by (nonlinear_arith)
        requires
            chunk_size > 0,
            (k - 1) * chunk_size <= len - 1,
            len - 1 < k * chunk_size,
    ;
}

/// Split `data` into consecutive pieces of at most `chunk_size` bytes: every
/// piece but the last is full, their concatenation is `data`, and there are
/// exactly `ceil(len / chunk_size)` of them.
pub fn chunks_of(data: &[u8], chunk_size: usize) -> (r: Vec<Vec<u8>>)
    requires
        chunk_size > 0,
    ensures
        concat_of(views_of(r@)) == data@,
        r@.len() == chunk_count(data@.len(), chunk_size as nat),
        forall|j: int| 0 <= j < r@.len() ==> #[trigger] r@[j]@.len() <= chunk_size,
        forall|j: int| 0 <= j < r@.len() - 1 ==> #[trigger] r@[j]@.len() == chunk_size,
        forall|j: int| 0 <= j < r@.len() ==> #[trigger] r@[j]@.len() > 0,
{
    let len = data.len();
    let mut r: Vec<Vec<u8>> = Vec::new();
    let mut i: usize = 0;
    while i < len
        invariant
            chunk_size > 0,
            i <= len,
            len == data@.len(),
            concat_of(views_of(r@)) == data@.subrange(0, i as int),
            forall|j: int| 0 <= j < r@.len() ==> #[trigger] r@[j]@.len() <= chunk_size,
            forall|j: int| 0 <= j < r@.len() ==> #[trigger] r@[j]@.len() > 0,
            r@.len() == 0 ==> i == 0,
            r@.len() > 0 ==> i == (r@.len() - 1) * chunk_size + r@.last()@.len(),
            forall|j: int| 0 <= j < r@.len() - 1 ==> #[trigger] r@[j]@.len() == chunk_size,
            i < len ==> (r@.len() == 0 || r@.last()@.len() == chunk_size),
        decreases len - i,
    {
        let end = if len - i >= chunk_size { i + chunk_size } else { len };
        let mut piece: Vec<u8> = Vec::new();
        let mut k: usize = i;
        while k < end
            invariant
                i <= k <= end <= len,
                len == data@.len(),
                piece@ == data@.subrange(i as int, k as int),
            decreases end - k,
        {
            piece.push(data[k]);
            assert(piece@ =~= data@.subrange(i as int, k + 1));
            k += 1;
        }
        let ghost old_r = views_of(r@);
        let ghost old_i = i as int;
        r.push(piece);
        assert(views_of(r@).drop_last() =~= old_r);
        assert(views_of(r@).last() == data@.subrange(old_i, end as int));
        assert(concat_of(views_of(r@)) =~= data@.subrange(0, end as int)) by {
            assert(concat_of(views_of(r@)) == concat_of(old_r) + data@.subrange(
                old_i,
                end as int,
            ));
            assert(data@.subrange(0, old_i) + data@.subrange(old_i, end as int) =~= data@.subrange(
                0,
                end as int,
            ));
        }
        assert(r@.len() > 1 ==> (r@.len() - 2) * chunk_size + chunk_size == (r@.len() - 1)
            * chunk_size) by (nonlinear_arith);
        i = end;
    }
    assert(data@.subrange(0, len as int) =~= data@);
    proof {
        if r@.len() == 0 {
            assert(len == 0);
        } else {
            let k = r@.len();
            assert(i == (k - 1) * chunk_size + r@.last()@.len());
            assert(r@.last()@.len() <= chunk_size);
            assert((k - 1) * chunk_size < len && len <= k * chunk_size) by (nonlinear_arith)
                requires
                    len == (k - 1) * chunk_size + r@.last()@.len(),
                    0 < r@.last()@.len() <= chunk_size,
            ;
            lemma_chunk_count_unique(len as nat, chunk_size as nat, k as nat);
        }
    }
    r
}

} // verus!

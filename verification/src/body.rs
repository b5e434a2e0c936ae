//! The two-variant body model.
//!
//! A body is either fully materialized bytes (`Body::Sync`) with a known
//! length, or a lazy, finite, non-restartable chunk sequence (`Body::Async`)
//! whose elements are each a chunk of bytes or an error. Once constructed, a
//! body's variant never changes; only the lazy sequence's cursor advances,
//! and each element is consumed exactly once.

use vstd::prelude::*;

use crate::chunks::concat_of;

verus! {

/// An error raised by a chunk producer (file read failure, upstream stream
/// error); it travels as an element of the chunk sequence rather than
/// truncating it silently.
#[derive(Debug)]
pub struct StreamError {
    pub message: Vec<u8>,
}

/// One element of a lazy body's sequence: a chunk of bytes, or the error
/// that ended the producer.
#[derive(Debug)]
pub enum ChunkItem {
    Data(Vec<u8>),
    Failed(StreamError),
}

/// The mathematical value of one chunk element.
pub enum ChunkModel {
    Data(Seq<u8>),
    Failed(Seq<u8>),
}

impl View for ChunkItem {
    type V = ChunkModel;

    open spec fn view(&self) -> ChunkModel {
        match self {
            ChunkItem::Data(bytes) => ChunkModel::Data(bytes@),
            ChunkItem::Failed(err) => ChunkModel::Failed(err.message@),
        }
    }
}

/// The bytes an element contributes to the body's content: an error
/// contributes none.
pub open spec fn chunk_data(c: ChunkModel) -> Seq<u8> {
    match c {
        ChunkModel::Data(bytes) => bytes,
        ChunkModel::Failed(_) => Seq::empty(),
    }
}

/// The byte chunks of a sequence of elements, in order.
pub open spec fn datas(items: Seq<ChunkModel>) -> Seq<Seq<u8>> {
    items.map_values(|c: ChunkModel| chunk_data(c))
}

/// Whether every element is a data chunk (the sequence terminates normally).
pub open spec fn all_data(items: Seq<ChunkModel>) -> bool {
    forall|i: int| 0 <= i < items.len() ==> items[i] is Data
}

/// The full logical content of a chunk sequence: the concatenation of its
/// chunks, in order.
pub open spec fn content_of(items: Seq<ChunkModel>) -> Seq<u8> {
    concat_of(datas(items))
}

/// A response or request payload.
pub enum Body {
    /// The body is fully materialized, with a known length, and will be
    /// written synchronously.
    Sync(Vec<u8>),
    /// The body is produced incrementally as a lazy chunk sequence and will
    /// be written asynchronously; this execution model is also known as
    /// "streaming".
    Async(ChunkStream),
}

/// The mathematical value of a body: its variant never changes once
/// constructed; for a lazy body, only the sequence's cursor advances.
pub enum BodyModel {
    Sync(Seq<u8>),
    Async(Seq<ChunkModel>, int),
}

impl View for Body {
    type V = BodyModel;

    open spec fn view(&self) -> BodyModel {
        match self {
            Body::Sync(bytes) => BodyModel::Sync(bytes@),
            Body::Async(stream) => BodyModel::Async(stream.items(), stream.cursor()),
        }
    }
}

/// A lazy body's cursor never runs past the end of its sequence.
pub open spec fn body_wf(b: &Body) -> bool {
    match b {
        Body::Sync(_) => true,
        Body::Async(stream) => stream.wf(),
    }
}

impl From<Vec<u8>> for Body {
    /// Materialized bytes become a synchronous body.
    fn from(value: Vec<u8>) -> (r: Body) {
        Body::Sync(value)
    }
}

impl vstd::std_specs::convert::FromSpecImpl<Vec<u8>> for Body {
    open spec fn obeys_from_spec() -> bool {
        true
    }

    open spec fn from_spec(v: Vec<u8>) -> Body {
        Body::Sync(v)
    }
}

/// A finite, non-restartable lazy chunk sequence. Pulling yields each
/// element exactly once, in order; there is no rewinding.
pub struct ChunkStream {
    items: Vec<ChunkItem>,
    cursor: usize,
}

/// Copy a byte buffer.
fn clone_bytes(v: &Vec<u8>) -> (r: Vec<u8>)
    ensures
        r@ == v@,
{
    let mut r: Vec<u8> = Vec::new();
    let mut i: usize = 0;
    while i < v.len()
        invariant
            i <= v@.len(),
            r@ == v@.subrange(0, i as int),
        decreases v@.len() - i,
    {
        r.push(v[i]);
        assert(r@ =~= v@.subrange(0, i + 1));
        i += 1;
    }
    assert(r@ =~= v@);
    r
}

impl ChunkStream {
    /// The elements of the sequence, consumed and not.
    pub closed spec fn items(&self) -> Seq<ChunkModel> {
        self.items@.map_values(|it: ChunkItem| it@)
    }

    /// How many elements have been pulled so far.
    pub closed spec fn cursor(&self) -> int {
        self.cursor as int
    }

    /// The cursor never runs past the end of the sequence.
    pub open spec fn wf(&self) -> bool {
        0 <= self.cursor() <= self.items().len()
    }

    /// The elements not yet pulled.
    pub open spec fn remaining(&self) -> Seq<ChunkModel> {
        self.items().subrange(self.cursor(), self.items().len() as int)
    }

    pub fn new(items: Vec<ChunkItem>) -> (r: ChunkStream)
        ensures
            r.wf(),
            r.cursor() == 0,
            r.items() == items@.map_values(|it: ChunkItem| it@),
    {
        ChunkStream { items, cursor: 0 }
    }

    /// Produce the next element, or signal end-of-data. Each element comes
    /// out exactly once, in order; the cursor only advances.
    pub fn pull(&mut self) -> (r: Option<ChunkItem>)
        requires
            old(self).wf(),
        ensures
            final(self).wf(),
            final(self).items() == old(self).items(),
            old(self).cursor() < old(self).items().len() ==> {
                &&& r matches Some(it) && it@ == old(self).items()[old(self).cursor()]
                &&& final(self).cursor() == old(self).cursor() + 1
            },
            old(self).cursor() == old(self).items().len() ==> {
                &&& r is None
                &&& final(self).cursor() == old(self).cursor()
            },
    {
        if self.cursor < self.items.len() {
            let out = match &self.items[self.cursor] {
                ChunkItem::Data(bytes) => ChunkItem::Data(clone_bytes(bytes)),
                ChunkItem::Failed(err) => ChunkItem::Failed(
                    StreamError { message: clone_bytes(&err.message) },
                ),
            };
            self.cursor = self.cursor + 1;
            Some(out)
        } else {
            None
        }
    }

    /// Materialize the rest of the sequence: pull until end-of-data or the
    /// first error. On normal termination the result is the concatenation of
    /// all chunks pulled, in order, with no gaps or duplicates; the first
    /// error element ends the pull and comes back as the error.
    pub fn collect_remaining(&mut self) -> (r: Result<Vec<u8>, StreamError>)
        requires
            old(self).wf(),
        ensures
            final(self).wf(),
            final(self).items() == old(self).items(),
            r matches Ok(bytes) ==> {
                &&& all_data(old(self).remaining())
                &&& bytes@ == content_of(old(self).remaining())
                &&& final(self).cursor() == final(self).items().len()
            },
            r matches Err(e) ==> {
                &&& old(self).cursor() <= final(self).cursor() - 1 < final(self).items().len()
                &&& final(self).items()[final(self).cursor() - 1] == ChunkModel::Failed(e.message@)
                &&& forall|i: int|
                    old(self).cursor() <= i < final(self).cursor() - 1 ==> final(self).items()[i] is Data
            },
            all_data(old(self).remaining()) ==> r is Ok,
    {
        let ghost start = self.cursor();
        let mut acc: Vec<u8> = Vec::new();
        loop
            invariant
                self.wf(),
                self.items() == old(self).items(),
                start == old(self).cursor(),
                start <= self.cursor() <= self.items().len(),
                acc@ == content_of(self.items().subrange(start, self.cursor())),
                forall|i: int| start <= i < self.cursor() ==> self.items()[i] is Data,
            decreases self.items().len() - self.cursor(),
        {
            let ghost k = self.cursor();
            match self.pull() {
                None => {
                    proof {
                        assert(self.items().subrange(start, k) =~= old(self).remaining());
                        assert forall|i: int| 0 <= i < old(self).remaining().len() implies old(
                            self,
                        ).remaining()[i] is Data by {
                            assert(old(self).remaining()[i] == self.items()[start + i]);
                        }
                    }
                    return Ok(acc);
                },
                Some(ChunkItem::Data(mut bytes)) => {
                    let ghost pre = self.items().subrange(start, k);
                    acc.append(&mut bytes);
                    proof {
                        let cur = self.items().subrange(start, k + 1);
                        assert(cur.drop_last() =~= pre);
                        assert(datas(cur).drop_last() =~= datas(pre));
                        assert(datas(cur).last() == chunk_data(self.items()[k]));
                    }
                },
                Some(ChunkItem::Failed(err)) => {
                    proof {
                        assert(old(self).remaining()[k - start] == self.items()[k]);
                        assert(!(old(self).remaining()[k - start] is Data));
                    }
                    return Err(err);
                },
            }
        }
    }

}

} // verus!

//! The outbound side: a model of the host's one-time response placeholder
//! and output stream, the write-readiness adapter, the streaming writer's
//! decision core, and the commit step that sets status and headers exactly
//! once and then delivers the body.
//!
//! The streaming writer pulls the next chunk from a lazy body, and before
//! each write suspends the owning task until the write-readiness handle
//! reports ready. On end-of-sequence it closes the stream cleanly; on a
//! chunk-producer error it aborts the stream and reports the error — a
//! partially written stream is never left open.

use vstd::prelude::*;

use crate::body::{all_data, chunk_data, content_of, datas, Body, ChunkItem, ChunkModel,
    ChunkStream, StreamError};
use crate::chunks::{chunk_count, chunks_of, concat_of, views_of};
use crate::headers::HeaderEntry;
use crate::response::{all_valid, valid_entry, Headers, Response, ResponseError};

verus! {

/// Why a response could not be delivered to the host.
#[derive(Debug)]
pub enum CommitError {
    /// Status and headers had already been committed for this response; the
    /// second attempt fails rather than silently succeeding.
    AlreadyCommitted,
    /// A header entry is not representable by the host header encoding;
    /// nothing was applied.
    InvalidHeader(HeaderEntry),
    /// The body's chunk producer failed mid-stream; the output stream was
    /// closed in an error state.
    Stream(StreamError),
}

/// How the host output stream has ended, if it has.
#[derive(PartialEq, Eq, Structural, Clone, Copy, Debug)]
pub enum StreamEnd {
    /// Still accepting writes.
    Open,
    /// Flushed and closed after the last chunk.
    Clean,
    /// Closed in an error state after a chunk producer failed.
    Aborted,
}

/// A model of the host's output placeholder: it accepts a one-time "set
/// status and headers" transition, then body writes, then a close.
pub struct HostOutput {
    pub committed: bool,
    pub status: u16,
    pub header_fields: Headers,
    pub writes: Vec<Vec<u8>>,
    pub end: StreamEnd,
}

impl HostOutput {
    /// The chunks written so far, as byte sequences.
    pub open spec fn written(&self) -> Seq<Seq<u8>> {
        views_of(self.writes@)
    }

    /// Headers precede body bytes, and nothing moves after a close.
    pub open spec fn wf(&self) -> bool {
        !self.committed ==> self.writes@.len() == 0 && self.end == StreamEnd::Open
    }

    /// A fresh placeholder: nothing committed, nothing written.
    pub fn new() -> (r: HostOutput)
        ensures
            r.wf(),
            !r.committed,
            r.written() == Seq::<Seq<u8>>::empty(),
            r.end == StreamEnd::Open,
    {
        let r = HostOutput {
            committed: false,
            status: 0,
            header_fields: Headers { fields: Vec::new() },
            writes: Vec::new(),
            end: StreamEnd::Open,
        };
        proof {
            assert(r.written() =~= Seq::<Seq<u8>>::empty());
        }
        r
    }

    /// Set status and headers, exactly once per response. A second attempt —
    /// in particular after the body has started streaming — fails and
    /// changes nothing.
    pub fn set_response(&mut self, status: u16, header_fields: Headers) -> (r: Result<
        (),
        CommitError,
    >)
        requires
            old(self).wf(),
        ensures
            final(self).wf(),
            r is Ok <==> !old(self).committed,
            r is Ok ==> {
                &&& final(self).committed
                &&& final(self).status == status
                &&& final(self).header_fields@ == header_fields@
                &&& final(self).writes@ == old(self).writes@
                &&& final(self).end == old(self).end
            },
            r is Err ==> *final(self) == *old(self) && r matches Err(
                CommitError::AlreadyCommitted,
            ),
    {
        if self.committed {
            return Err(CommitError::AlreadyCommitted);
        }
        self.committed = true;
        self.status = status;
        self.header_fields = header_fields;
        Ok(())
    }

    /// Push one chunk of body bytes to the output stream.
    pub fn write_chunk(&mut self, chunk: Vec<u8>)
        requires
            old(self).committed,
            old(self).end == StreamEnd::Open,
        ensures
            final(self).written() == old(self).written().push(chunk@),
            final(self).committed == old(self).committed,
            final(self).status == old(self).status,
            final(self).header_fields@ == old(self).header_fields@,
            final(self).end == old(self).end,
            final(self).wf(),
    {
        let ghost pre = self.written();
        let ghost c = chunk@;
        self.writes.push(chunk);
        proof {
            assert(self.written() =~= pre.push(c));
        }
    }

    /// Flush and close the output stream after the last chunk.
    pub fn finish(&mut self)
        requires
            old(self).committed,
            old(self).end == StreamEnd::Open,
        ensures
            final(self).end == StreamEnd::Clean,
            final(self).committed == old(self).committed,
            final(self).status == old(self).status,
            final(self).header_fields@ == old(self).header_fields@,
            final(self).writes@ == old(self).writes@,
            final(self).written() == old(self).written(),
            final(self).wf(),
    {
        self.end = StreamEnd::Clean;
    }

    /// Close the output stream in an error state, mid-body.
    pub fn abort(&mut self)
        requires
            old(self).committed,
            old(self).end == StreamEnd::Open,
        ensures
            final(self).end == StreamEnd::Aborted,
            final(self).committed == old(self).committed,
            final(self).status == old(self).status,
            final(self).header_fields@ == old(self).header_fields@,
            final(self).writes@ == old(self).writes@,
            final(self).written() == old(self).written(),
            final(self).wf(),
    {
        self.end = StreamEnd::Aborted;
    }
}

/// A model of a host-owned write-readiness handle: it reports "not ready" a
/// bounded number of times, then "ready" — and once readiness has been
/// observed, repeated polls keep reporting ready (the check is idempotent).
pub struct ReadinessHandle {
    pub delay: usize,
    pub observed: usize,
}

impl ReadinessHandle {
    /// A handle that reports "not ready" `delay` times before turning ready.
    pub fn new(delay: usize) -> (r: ReadinessHandle)
        ensures
            r.delay == delay,
            r.observed == 0,
    {
        ReadinessHandle { delay, observed: 0 }
    }

    /// Non-blocking readiness check. Safe to poll repeatedly after
    /// readiness is observed.
    pub fn is_ready(&mut self) -> (r: bool)
        ensures
            r == (old(self).observed >= old(self).delay),
            final(self).delay == old(self).delay,
            r ==> final(self).observed == old(self).observed,
            !r ==> final(self).observed == old(self).observed + 1,
    {
        if self.observed >= self.delay {
            true
        } else {
            self.observed = self.observed + 1;
            false
        }
    }
}

/// Where the streaming writer stands between host interactions.
pub enum WriterState {
    /// About to ask the body for its next element.
    Pulling,
    /// Holding a chunk that has not been written yet.
    Pending(Vec<u8>),
    /// The body ended; the stream was closed cleanly.
    Closed,
    /// A chunk producer failed; the stream was aborted.
    Failed,
}

/// What the host or the body reported since the last decision.
pub enum WriterEvent {
    /// The body produced a chunk.
    PulledData(Vec<u8>),
    /// The body ended normally.
    PulledEnd,
    /// The body's producer failed.
    PulledFailed(StreamError),
    /// The write-readiness handle reports ready.
    Ready,
    /// The write-readiness handle reports not ready.
    NotReady,
}

/// What the surrounding loop must do next.
pub enum WriterAction {
    /// Check the write-readiness handle.
    Probe,
    /// Push these bytes to the host output stream, then pull again.
    Write(Vec<u8>),
    /// Park the owning task until the readiness handle wakes it.
    Suspend,
    /// Flush and close the output stream.
    Finish,
    /// Close the output stream in an error state, reporting this error.
    Abort(StreamError),
}

/// Which events make sense in which state: while pulling, only pull
/// results; while a chunk is pending, only readiness reports; the terminal
/// states take no event.
pub open spec fn writer_input_ok(state: WriterState, event: WriterEvent) -> bool {
    match state {
        WriterState::Pulling => event is PulledData || event is PulledEnd
            || event is PulledFailed,
        WriterState::Pending(_) => event is Ready || event is NotReady,
        WriterState::Closed => false,
        WriterState::Failed => false,
    }
}

/// The streaming writer's decision core, as one step of a state machine.
pub open spec fn writer_step_spec(state: WriterState, event: WriterEvent) -> (
    WriterState,
    WriterAction,
) {
    match (state, event) {
        (WriterState::Pulling, WriterEvent::PulledData(c)) => (
            WriterState::Pending(c),
            WriterAction::Probe,
        ),
        (WriterState::Pulling, WriterEvent::PulledEnd) => (
            WriterState::Closed,
            WriterAction::Finish,
        ),
        (WriterState::Pulling, WriterEvent::PulledFailed(e)) => (
            WriterState::Failed,
            WriterAction::Abort(e),
        ),
        (WriterState::Pending(c), WriterEvent::Ready) => (
            WriterState::Pulling,
            WriterAction::Write(c),
        ),
        (WriterState::Pending(c), WriterEvent::NotReady) => (
            WriterState::Pending(c),
            WriterAction::Suspend,
        ),
        (s, _) => (s, WriterAction::Suspend),
    }
}

/// Take one step of the streaming writer: from the current state and the
/// latest event, the next state and the action the loop must perform.
pub fn writer_step(state: WriterState, event: WriterEvent) -> (r: (WriterState, WriterAction))
    requires
        writer_input_ok(state, event),
    ensures
        r == writer_step_spec(state, event),
{
    match state {
        WriterState::Pulling => match event {
            WriterEvent::PulledData(c) => (WriterState::Pending(c), WriterAction::Probe),
            WriterEvent::PulledEnd => (WriterState::Closed, WriterAction::Finish),
            WriterEvent::PulledFailed(e) => (WriterState::Failed, WriterAction::Abort(e)),
            _ => (WriterState::Pulling, WriterAction::Suspend),
        },
        WriterState::Pending(c) => match event {
            WriterEvent::Ready => (WriterState::Pulling, WriterAction::Write(c)),
            WriterEvent::NotReady => (WriterState::Pending(c), WriterAction::Suspend),
            _ => (WriterState::Pending(c), WriterAction::Suspend),
        },
        WriterState::Closed => (WriterState::Closed, WriterAction::Suspend),
        WriterState::Failed => (WriterState::Failed, WriterAction::Suspend),
    }
}

/// A write-readiness handle that reports "not ready" makes the writer
/// suspend with its pending chunk untouched; when the handle then reports
/// "ready", exactly that chunk is written, once — the suspension neither
/// drops nor duplicates it.
pub proof fn lemma_suspend_resume_keeps_chunk(c: Vec<u8>)
    ensures
        writer_step_spec(WriterState::Pending(c), WriterEvent::NotReady) == (
            WriterState::Pending(c),
            WriterAction::Suspend,
        ),
        writer_step_spec(WriterState::Pending(c), WriterEvent::Ready) == (
            WriterState::Pulling,
            WriterAction::Write(c),
        ),
{
}

/// How far a writer state is from needing a fresh chunk: used only to show
/// the drive loop terminates.
pub open spec fn writer_rank(state: WriterState) -> int {
    match state {
        WriterState::Pending(_) => 1,
        _ => 0,
    }
}

/// Pull every remaining element of a lazy body and push it to the host
/// output stream, waiting for write readiness before each write. On normal
/// termination the bytes delivered are exactly the body's remaining logical
/// content, in order, and the stream closes cleanly; on a producer error
/// the stream is aborted after the chunks already written, and the error is
/// reported.
#[verifier::loop_isolation(false)]
pub fn stream_body(stream: &mut ChunkStream, ready: &mut ReadinessHandle, out: &mut HostOutput)
    -> (r: Result<(), StreamError>)
    requires
        old(stream).wf(),
        old(out).committed,
        old(out).end == StreamEnd::Open,
    ensures
        final(out).committed,
        final(out).status == old(out).status,
        final(out).header_fields@ == old(out).header_fields@,
        r is Ok <==> all_data(old(stream).remaining()),
        r is Ok ==> {
            &&& final(out).written() == old(out).written() + datas(old(stream).remaining())
            &&& concat_of(final(out).written()) == concat_of(old(out).written()) + content_of(
                old(stream).remaining(),
            )
            &&& final(out).end == StreamEnd::Clean
        },
        r matches Err(e) ==> {
            &&& final(out).end == StreamEnd::Aborted
            &&& exists|k: int|
                {
                    &&& old(stream).cursor() <= k < old(stream).items().len()
                    &&& #[trigger] old(stream).items()[k] == ChunkModel::Failed(e.message@)
                    &&& (forall|i: int|
                        old(stream).cursor() <= i < k ==> old(stream).items()[i] is Data)
                    &&& final(out).written() == old(out).written() + datas(
                        old(stream).items().subrange(old(stream).cursor(), k),
                    )
                }
        },
{
    let ghost items0 = stream.items();
    let ghost start = stream.cursor();
    let ghost base = out.written();
    let ghost status0 = out.status;
    let ghost hf0 = out.header_fields@;
    proof {
        assert(base + datas(items0.subrange(start, start)) =~= base);
    }
    let mut state = WriterState::Pulling;
    loop
        invariant
            stream.wf(),
            stream.items() == items0,
            start <= stream.cursor() <= items0.len(),
            out.committed,
            out.end == StreamEnd::Open,
            out.status == status0,
            out.header_fields@ == hf0,
            state is Pulling || state is Pending,
            state is Pulling ==> {
                &&& out.written() == base + datas(items0.subrange(start, stream.cursor()))
                &&& forall|i: int| start <= i < stream.cursor() ==> items0[i] is Data
            },
            state matches WriterState::Pending(c) ==> {
                &&& start < stream.cursor()
                &&& items0[stream.cursor() - 1] is Data
                &&& c@ == chunk_data(items0[stream.cursor() - 1])
                &&& out.written() == base + datas(items0.subrange(start, stream.cursor() - 1))
                &&& forall|i: int| start <= i < stream.cursor() - 1 ==> items0[i] is Data
            },
        decreases
            items0.len() - stream.cursor(),
            writer_rank(state),
            ready.delay - ready.observed,
    {
        let event = match &state {
            WriterState::Pulling => {
                match stream.pull() {
                    None => WriterEvent::PulledEnd,
                    Some(ChunkItem::Data(chunk)) => WriterEvent::PulledData(chunk),
                    Some(ChunkItem::Failed(err)) => WriterEvent::PulledFailed(err),
                }
            },
            WriterState::Pending(_) => {
                if ready.is_ready() {
                    WriterEvent::Ready
                } else {
                    WriterEvent::NotReady
                }
            },
            _ => WriterEvent::NotReady,
        };
        let (next, action) = writer_step(state, event);
        state = next;
        match action {
            WriterAction::Probe => {
                // a fresh chunk is pending; the next iteration probes the
                // write-readiness handle
            },
            WriterAction::Suspend => {
                // the task parks until the readiness handle wakes it; the
                // pending chunk rides along untouched
            },
            WriterAction::Write(c) => {
                let ghost k = stream.cursor() - 1;
                out.write_chunk(c);
                proof {
                    let cur = items0.subrange(start, k + 1);
                    assert(cur.drop_last() =~= items0.subrange(start, k));
                    assert(datas(cur).drop_last() =~= datas(items0.subrange(start, k)));
                    assert(datas(cur).last() == chunk_data(items0[k]));
                    assert(out.written() =~= base + datas(cur));
                }
            },
            WriterAction::Finish => {
                out.finish();
                proof {
                    let rem = items0.subrange(start, items0.len() as int);
                    assert(items0.subrange(start, stream.cursor()) =~= rem);
                    assert forall|i: int| 0 <= i < rem.len() implies rem[i] is Data by {
                        assert(rem[i] == items0[start + i]);
                    }
                    lemma_concat_append(base, datas(rem));
                }
                return Ok(());
            },
            WriterAction::Abort(err) => {
                out.abort();
                proof {
                    let k = stream.cursor() - 1;
                    let rem = items0.subrange(start, items0.len() as int);
                    assert(items0[k] == ChunkModel::Failed(err.message@));
                    assert(!(rem[k - start] is Data)) by {
                        assert(rem[k - start] == items0[k]);
                    }
                }
                return Err(err);
            },
        }
    }
}

/// Concatenation distributes over appending chunk lists.
pub proof fn lemma_concat_append(a: Seq<Seq<u8>>, b: Seq<Seq<u8>>)
    ensures
        concat_of(a + b) == concat_of(a) + concat_of(b),
    decreases b.len(),
{
    if b.len() == 0 {
        assert(a + b =~= a);
        assert(concat_of(b) =~= Seq::<u8>::empty());
        assert(concat_of(a) + concat_of(b) =~= concat_of(a));
    } else {
        lemma_concat_append(a, b.drop_last());
        assert((a + b).drop_last() =~= a + b.drop_last());
        assert((a + b).last() == b.last());
        assert(concat_of(a) + concat_of(b.drop_last()) + b.last() =~= concat_of(a) + concat_of(
            b,
        ));
    }
}

/// Deliver a response to the host: set status and headers exactly once,
/// then write the body — a materialized body as bounded-size pieces in one
/// loop, a lazy body through the streaming writer — and close the stream.
pub fn commit_response(
    out: &mut HostOutput,
    ready: &mut ReadinessHandle,
    response: Response,
    chunk_size: usize,
) -> (r: Result<(), CommitError>)
    requires
        old(out).wf(),
        chunk_size > 0,
        crate::body::body_wf(&response.body),
    ensures
        final(out).wf(),
        r matches Err(CommitError::AlreadyCommitted) <==> old(out).committed,
        r matches Err(CommitError::AlreadyCommitted) ==> *final(out) == *old(out),
        r matches Err(CommitError::InvalidHeader(en)) ==> {
            &&& !all_valid(response.headers@)
            &&& exists|k: int|
                {
                    &&& 0 <= k < response.headers@.len()
                    &&& !valid_entry(#[trigger] response.headers@[k])
                    &&& en@ == response.headers@[k]
                }
            &&& *final(out) == *old(out)
        },
        !old(out).committed && !all_valid(response.headers@) ==> r matches Err(
            CommitError::InvalidHeader(_),
        ),
        !old(out).committed && all_valid(response.headers@) ==> {
            &&& final(out).committed
            &&& final(out).status == response.status
            &&& final(out).header_fields@ == response.headers@
            &&& (response.body matches Body::Sync(data) ==> {
                &&& r is Ok
                &&& concat_of(final(out).written()) == data@
                &&& final(out).written().len() == chunk_count(data@.len(), chunk_size as nat)
                &&& (forall|j: int|
                    0 <= j < final(out).written().len()
                        ==> #[trigger] final(out).written()[j].len() <= chunk_size)
                &&& final(out).end == StreamEnd::Clean
            })
            &&& (response.body matches Body::Async(stream) ==> {
                &&& (r is Ok <==> all_data(stream.remaining()))
                &&& (r is Ok ==> {
                    &&& final(out).written() == datas(stream.remaining())
                    &&& concat_of(final(out).written()) == content_of(stream.remaining())
                    &&& final(out).end == StreamEnd::Clean
                })
                &&& (r matches Err(CommitError::Stream(e)) ==> {
                    &&& final(out).end == StreamEnd::Aborted
                    &&& exists|k: int|
                        {
                            &&& stream.cursor() <= k < stream.items().len()
                            &&& #[trigger] stream.items()[k] == ChunkModel::Failed(e.message@)
                            &&& (forall|i: int|
                                stream.cursor() <= i < k ==> stream.items()[i] is Data)
                            &&& final(out).written() == datas(
                                stream.items().subrange(stream.cursor(), k),
                            )
                        }
                })
                &&& (r is Err ==> final(out).end == StreamEnd::Aborted && r matches Err(
                    CommitError::Stream(_),
                ))
            })
        },
{
    if out.committed {
        return Err(CommitError::AlreadyCommitted);
    }
    let header_fields = match response.headers() {
        Ok(h) => h,
        Err(ResponseError::WasiHeaders(en)) => {
            return Err(CommitError::InvalidHeader(en));
        },
    };
    let set = out.set_response(response.status, header_fields);
    proof {
        assert(set is Ok);
    }
    match response.body {
        Body::Sync(data) => {
            let pieces = chunks_of(data.as_slice(), chunk_size);
            let ghost plan = views_of(pieces@);
            proof {
                assert(out.written() =~= Seq::<Seq<u8>>::empty());
                assert(out.written() =~= plan.subrange(0, 0));
            }
            let mut i: usize = 0;
            while i < pieces.len()
                invariant
                    i <= pieces@.len(),
                    plan == views_of(pieces@),
                    out.committed,
                    out.end == StreamEnd::Open,
                    out.written() == plan.subrange(0, i as int),
                    out.status == response.status,
                    out.header_fields@ == response.headers@,
                decreases pieces@.len() - i,
            {
                let piece = crate::headers::copy_bytes(&pieces[i]);
                out.write_chunk(piece);
                proof {
                    assert(out.written() =~= plan.subrange(0, i + 1));
                }
                i += 1;
            }
            proof {
                assert(plan.subrange(0, plan.len() as int) =~= plan);
            }
            out.finish();
            Ok(())
        },
        Body::Async(stream) => {
            let mut stream = stream;
            let ghost items0 = stream.items();
            let ghost cursor0 = stream.cursor();
            let ghost rem = stream.remaining();
            let ghost base0 = out.written();
            match stream_body(&mut stream, ready, out) {
                Ok(()) => {
                    proof {
                        assert(Seq::<Seq<u8>>::empty() + datas(rem) =~= datas(rem));
                        assert(Seq::<u8>::empty() + content_of(rem) =~= content_of(rem));
                        assert(concat_of(Seq::<Seq<u8>>::empty()) =~= Seq::<u8>::empty());
                        assert(out.written() =~= datas(rem));
                    }
                    Ok(())
                },
                Err(e) => {
                    proof {
                        let k = choose|k: int|
                            {
                                &&& cursor0 <= k < items0.len()
                                &&& #[trigger] items0[k] == ChunkModel::Failed(e.message@)
                                &&& (forall|i: int| cursor0 <= i < k ==> items0[i] is Data)
                                &&& out.written() == base0 + datas(items0.subrange(cursor0, k))
                            };
                        assert(base0 + datas(items0.subrange(cursor0, k)) =~= datas(
                            items0.subrange(cursor0, k),
                        ));
                    }
                    Err(CommitError::Stream(e))
                },
            }
        },
    }
}

} // verus!

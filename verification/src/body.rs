use vstd::prelude::*;

use crate::event::{ProxyEvent, ProxyEventView, ProxyState, ProxyStateView};

verus! {

/// Which side's body a stream belongs to: it decides the kind of the chunk
/// events and of the final done event.
#[derive(Clone, Copy, PartialEq, Eq, Structural, Debug)]
pub enum StreamFork {
    RequestStream,
    ResponseStream,
}

/// The content of an editor's reply, if one arrived before the callback was
/// dropped.
pub open spec fn reply_view(reply: Option<ProxyState>) -> Option<ProxyStateView> {
    match reply {
        Some(s) => Some(s@),
        None => None,
    }
}

/// The bytes a stream hands on after the editor had its chance: the
/// replacement when the reply matches the stream's own chunk kind, the
/// original bytes on a mismatched reply or a dropped callback.
pub open spec fn resolved_chunk(
    fork: StreamFork,
    original: Seq<u8>,
    reply: Option<ProxyStateView>,
) -> Seq<u8> {
    match reply {
        Some(ProxyStateView::RequestChunk(c)) => if fork is RequestStream {
            c
        } else {
            original
        },
        Some(ProxyStateView::ResponseChunk(c)) => if fork is ResponseStream {
            c
        } else {
            original
        },
        _ => original,
    }
}

/// The chunk-event kind this fork emits, carrying the given bytes.
pub open spec fn chunk_kind(fork: StreamFork, bytes: Seq<u8>) -> ProxyStateView {
    match fork {
        StreamFork::RequestStream => ProxyStateView::RequestChunk(bytes),
        StreamFork::ResponseStream => ProxyStateView::ResponseChunk(bytes),
    }
}

/// The done-event kind this fork emits when its body ends.
pub open spec fn done_kind(fork: StreamFork) -> ProxyStateView {
    match fork {
        StreamFork::RequestStream => ProxyStateView::RequestDone,
        StreamFork::ResponseStream => ProxyStateView::ResponseDone,
    }
}

impl StreamFork {
    /// One chunk through the bus: the event carries the bytes as they
    /// arrived; what travels on is the editor's replacement if the reply kind
    /// matches, else the original. A mismatched reply and a dropped callback
    /// both mean "no edit".
    pub fn send_event(&self, id: u32, chunk: Vec<u8>, reply: Option<ProxyState>) -> (r: (
        ProxyEvent,
        Vec<u8>,
    ))
        ensures
            r.0@.id == id,
            r.0@.event == chunk_kind(*self, chunk@),
            r.0@.callback,
            r.1@ == resolved_chunk(*self, chunk@, reply_view(reply)),
    {
        let event = match self {
            StreamFork::RequestStream => ProxyEvent::req_chunk(id, &chunk),
            StreamFork::ResponseStream => ProxyEvent::resp_chunk(id, &chunk),
        };
        let out = match (self, reply) {
            (StreamFork::RequestStream, Some(ProxyState::RequestChunk(c))) => c,
            (StreamFork::ResponseStream, Some(ProxyState::ResponseChunk(c))) => c,
            _ => chunk,
        };
        (event, out)
    }

    /// The done event for this fork's side.
    pub fn close(&self, id: u32) -> (r: ProxyEvent)
        ensures
            r@.id == id,
            r@.event == done_kind(*self),
            !r@.callback,
    {
        match self {
            StreamFork::RequestStream => ProxyEvent::req_done(id),
            StreamFork::ResponseStream => ProxyEvent::resp_done(id),
        }
    }
}

/// The working half of a streaming body: the request it belongs to, the side
/// it serves, and whether its done event has already been emitted. The done
/// event is emitted exactly once, at end-of-stream or when the body is
/// dropped mid-stream, whichever comes first.
#[derive(Debug)]
pub struct InnerStreamBody {
    pub id: u32,
    pub stream: StreamFork,
    pub closed: bool,
}

impl InnerStreamBody {
    /// One pulled chunk: emit the chunk event, hand on the post-edit bytes.
    pub fn on_chunk(&mut self, chunk: Vec<u8>, reply: Option<ProxyState>) -> (r: (
        ProxyEvent,
        Vec<u8>,
    ))
        requires
            !old(self).closed,
        ensures
            *final(self) == *old(self),
            r.0@.id == old(self).id,
            r.0@.event == chunk_kind(old(self).stream, chunk@),
            r.0@.callback,
            r.1@ == resolved_chunk(old(self).stream, chunk@, reply_view(reply)),
    {
        self.stream.send_event(self.id, chunk, reply)
    }

    /// The stream is over, by end-of-stream or by being dropped: emit the
    /// done event, but only if it has not been emitted before.
    pub fn close(&mut self) -> (r: Option<ProxyEvent>)
        ensures
            final(self).closed,
            final(self).id == old(self).id,
            final(self).stream == old(self).stream,
            !old(self).closed ==> (r matches Some(e) && e@.id == old(self).id && e@.event
                == done_kind(old(self).stream) && !e@.callback),
            old(self).closed ==> r is None,
    {
        if self.closed {
            None
        } else {
            self.closed = true;
            Some(self.stream.close(self.id))
        }
    }
}

/// A streaming body as the envelope holds it: single-consumer, so the inner
/// stream can be taken out exactly once.
#[derive(Debug)]
pub struct StreamBody {
    pub inner: Option<InnerStreamBody>,
}

impl StreamBody {
    /// A body for the request side of the given request.
    pub fn stream_request(id: u32) -> (r: StreamBody)
        ensures
            r.inner == Some(
                InnerStreamBody { id, stream: StreamFork::RequestStream, closed: false },
            ),
    {
        StreamBody {
            inner: Some(InnerStreamBody { id, stream: StreamFork::RequestStream, closed: false }),
        }
    }

    /// A body for the response side of the given request.
    pub fn stream_response(id: u32) -> (r: StreamBody)
        ensures
            r.inner == Some(
                InnerStreamBody { id, stream: StreamFork::ResponseStream, closed: false },
            ),
    {
        StreamBody {
            inner: Some(InnerStreamBody { id, stream: StreamFork::ResponseStream, closed: false }),
        }
    }

    /// Take the inner stream out; succeeds at most once.
    pub fn try_take(&mut self) -> (r: Option<InnerStreamBody>)
        ensures
            r == old(self).inner,
            final(self).inner is None,
    {
        self.inner.take()
    }

    /// The single consumption of the body: the first call gets the stream,
    /// every later call gets nothing.
    pub fn try_into_body(&mut self) -> (r: Option<InnerStreamBody>)
        ensures
            r == old(self).inner,
            final(self).inner is None,
    {
        self.try_take()
    }
}

/// The contents of a list of byte chunks.
pub open spec fn chunks_view(chunks: Seq<Vec<u8>>) -> Seq<Seq<u8>> {
    chunks.map_values(|c: Vec<u8>| c@)
}

/// The contents of a list of events.
pub open spec fn events_view(evs: Seq<ProxyEvent>) -> Seq<ProxyEventView> {
    evs.map_values(|e: ProxyEvent| e@)
}

/// All the chunks laid end to end.
pub open spec fn concat_bytes(chunks: Seq<Seq<u8>>) -> Seq<u8>
    decreases chunks.len(),
{
    if chunks.len() == 0 {
        Seq::empty()
    } else {
        chunks[0] + concat_bytes(chunks.drop_first())
    }
}

/// The whole life of one streaming body, as the envelope's stream loop runs
/// it: every pulled chunk goes through `on_chunk`, then the stream closes.
/// A body dropped mid-stream runs the same way with the chunks that never
/// arrived left off: the close comes from the destructor path instead, and
/// emits the same done event.
pub fn run_stream(inner: &mut InnerStreamBody, chunks: &Vec<Vec<u8>>, replies: Vec<
    Option<ProxyState>,
>) -> (r: (Vec<ProxyEvent>, Vec<Vec<u8>>))
    requires
        !old(inner).closed,
        replies@.len() == chunks@.len(),
    ensures
        final(inner).closed,
        final(inner).id == old(inner).id,
        final(inner).stream == old(inner).stream,
        events_view(r.0@).len() == chunks@.len() + 1,
        forall|i: int|
            0 <= i < chunks@.len() ==> ((#[trigger] events_view(r.0@)[i]).id == old(inner).id
                && events_view(r.0@)[i].event == chunk_kind(old(inner).stream, chunks@[i]@)
                && events_view(r.0@)[i].callback),
        events_view(r.0@)[chunks@.len() as int].id == old(inner).id,
        events_view(r.0@)[chunks@.len() as int].event == done_kind(old(inner).stream),
        !events_view(r.0@)[chunks@.len() as int].callback,
        chunks_view(r.1@).len() == chunks@.len(),
        forall|i: int|
            0 <= i < chunks@.len() ==> chunks_view(r.1@)[i] == resolved_chunk(
                old(inner).stream,
                chunks@[i]@,
                reply_view(replies@[i]),
            ),
{
    let ghost replies0 = replies@;
    let mut replies = replies;
    let mut events: Vec<ProxyEvent> = Vec::new();
    let mut outs: Vec<Vec<u8>> = Vec::new();
    let mut i: usize = 0;
    let n = chunks.len();
    while i < n
        invariant
            n == chunks@.len(),
            i <= n,
            replies0.len() == n,
            replies@ =~= replies0.subrange(i as int, n as int),
            !inner.closed,
            inner.id == old(inner).id,
            inner.stream == old(inner).stream,
            events@.len() == i,
            outs@.len() == i,
            forall|k: int|
                0 <= k < i ==> ((#[trigger] events@[k])@.id == old(inner).id
                    && events@[k]@.event == chunk_kind(old(inner).stream, chunks@[k]@)
                    && events@[k]@.callback),
            forall|k: int|
                0 <= k < i ==> outs@[k]@ == resolved_chunk(
                    old(inner).stream,
                    chunks@[k]@,
                    reply_view(replies0[k]),
                ),
        decreases n - i,
    {
        let chunk = crate::headers::clone_bytes(&chunks[i]);
        let reply = replies.remove(0);
        proof {
            assert(reply == replies0[i as int]);
            assert(replies@ =~= replies0.subrange(i + 1, n as int));
        }
        let (ev, out) = inner.on_chunk(chunk, reply);
        events.push(ev);
        outs.push(out);
        i += 1;
    }
    let done = inner.close();
    match done {
        Some(e) => {
            events.push(e);
        },
        None => {
            proof {
                assert(false);
            }
        },
    }
    proof {
        assert forall|k: int| 0 <= k < chunks@.len() + 1 implies events_view(events@)[k]
            == events@[k]@ by {}
        assert forall|k: int| 0 <= k < chunks@.len() implies chunks_view(outs@)[k]
            == outs@[k]@ by {}
    }
    (events, outs)
}

/// How many events of the trace are this fork's done event.
pub open spec fn count_done(fork: StreamFork, evs: Seq<ProxyEventView>) -> nat
    decreases evs.len(),
{
    if evs.len() == 0 {
        0
    } else {
        (if evs[0].event == done_kind(fork) {
            1nat
        } else {
            0nat
        }) + count_done(fork, evs.drop_first())
    }
}

/// The chunk payloads of this fork's chunk events, in emission order.
pub open spec fn chunk_payloads(fork: StreamFork, evs: Seq<ProxyEventView>) -> Seq<Seq<u8>>
    decreases evs.len(),
{
    if evs.len() == 0 {
        Seq::empty()
    } else {
        let rest = chunk_payloads(fork, evs.drop_first());
        match (fork, evs[0].event) {
            (StreamFork::RequestStream, ProxyStateView::RequestChunk(c)) => seq![c] + rest,
            (StreamFork::ResponseStream, ProxyStateView::ResponseChunk(c)) => seq![c] + rest,
            _ => rest,
        }
    }
}

/// Done-once: a body trace — the chunk events of one stream followed by its
/// done event — holds that done event exactly once, however early the stream
/// was cut off.
pub proof fn lemma_done_once(fork: StreamFork, evs: Seq<ProxyEventView>, chunks: Seq<Seq<u8>>)
    requires
        evs.len() == chunks.len() + 1,
        forall|i: int| 0 <= i < chunks.len() ==> evs[i].event == chunk_kind(fork, chunks[i]),
        evs[chunks.len() as int].event == done_kind(fork),
    ensures
        count_done(fork, evs) == 1,
    decreases evs.len(),
{
    if chunks.len() == 0 {
        assert(evs.drop_first().len() == 0);
        assert(count_done(fork, evs.drop_first()) == 0);
    } else {
        let evs1 = evs.drop_first();
        let chunks1 = chunks.drop_first();
        assert forall|i: int| 0 <= i < chunks1.len() implies evs1[i].event == chunk_kind(
            fork,
            chunks1[i],
        ) by {
            assert(evs1[i] == evs[i + 1]);
        }
        assert(evs1[chunks1.len() as int] == evs[chunks.len() as int]);
        lemma_done_once(fork, evs1, chunks1);
        assert(evs[0].event == chunk_kind(fork, chunks[0]));
        assert(evs[0].event != done_kind(fork));
    }
}

/// A body trace's chunk events carry exactly the original chunks, in order.
pub proof fn lemma_trace_payloads(fork: StreamFork, evs: Seq<ProxyEventView>, chunks: Seq<Seq<u8>>)
    requires
        evs.len() == chunks.len() + 1,
        forall|i: int| 0 <= i < chunks.len() ==> evs[i].event == chunk_kind(fork, chunks[i]),
        evs[chunks.len() as int].event == done_kind(fork),
    ensures
        chunk_payloads(fork, evs) == chunks,
    decreases evs.len(),
{
    if chunks.len() == 0 {
        assert(evs.drop_first().len() == 0);
        assert(chunk_payloads(fork, evs.drop_first()) =~= Seq::<Seq<u8>>::empty());
        assert(chunk_payloads(fork, evs) =~= chunks);
    } else {
        let evs1 = evs.drop_first();
        let chunks1 = chunks.drop_first();
        assert forall|i: int| 0 <= i < chunks1.len() implies evs1[i].event == chunk_kind(
            fork,
            chunks1[i],
        ) by {
            assert(evs1[i] == evs[i + 1]);
        }
        assert(evs1[chunks1.len() as int] == evs[chunks.len() as int]);
        lemma_trace_payloads(fork, evs1, chunks1);
        assert(evs[0].event == chunk_kind(fork, chunks[0]));
        assert(chunk_payloads(fork, evs) =~= seq![chunks[0]] + chunks1);
        assert(seq![chunks[0]] + chunks1 =~= chunks);
    }
}

/// Chunk order: in a body trace, the concatenation of the chunk events'
/// payloads equals the original body laid end to end; and when no reply
/// replaced a chunk, it also equals the bytes the peer received.
pub proof fn lemma_chunk_order(
    fork: StreamFork,
    evs: Seq<ProxyEventView>,
    chunks: Seq<Seq<u8>>,
    outs: Seq<Seq<u8>>,
    replies: Seq<Option<ProxyStateView>>,
)
    requires
        evs.len() == chunks.len() + 1,
        forall|i: int| 0 <= i < chunks.len() ==> evs[i].event == chunk_kind(fork, chunks[i]),
        evs[chunks.len() as int].event == done_kind(fork),
        replies.len() == chunks.len(),
        outs.len() == chunks.len(),
        forall|i: int|
            0 <= i < chunks.len() ==> outs[i] == resolved_chunk(fork, chunks[i], replies[i]),
        forall|i: int|
            0 <= i < chunks.len() ==> resolved_chunk(fork, chunks[i], replies[i]) == chunks[i],
    ensures
        concat_bytes(chunk_payloads(fork, evs)) == concat_bytes(chunks),
        concat_bytes(outs) == concat_bytes(chunks),
{
    lemma_trace_payloads(fork, evs, chunks);
    assert(outs =~= chunks);
}

} // verus!

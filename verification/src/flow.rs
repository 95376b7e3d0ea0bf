use vstd::prelude::*;

use crate::body::{
    chunk_kind, chunks_view, count_done, done_kind, events_view, reply_view, resolved_chunk,
    run_stream, StreamFork,
};
use crate::bus::EventBus;
use crate::event::{ProxyEvent, ProxyEventView, ProxyState, ProxyStateView};
use crate::proxy::{rewritten_head, spec_fresh, ProxyServer};
use crate::request::{resolved_req_head, Request, RequestHead, RequestHeadView};
use crate::response::{resolved_resp_head, Response, ResponseHead, ResponseHeadView};

verus! {

/// How many events of a trace carry a request head.
pub open spec fn count_req_head(evs: Seq<ProxyEventView>) -> nat
    decreases evs.len(),
{
    if evs.len() == 0 {
        0
    } else {
        (if evs[0].event matches ProxyStateView::RequestHead(_) {
            1nat
        } else {
            0nat
        }) + count_req_head(evs.drop_first())
    }
}

/// How many events of a trace carry a response head.
pub open spec fn count_resp_head(evs: Seq<ProxyEventView>) -> nat
    decreases evs.len(),
{
    if evs.len() == 0 {
        0
    } else {
        (if evs[0].event matches ProxyStateView::ResponseHead(_) {
            1nat
        } else {
            0nat
        }) + count_resp_head(evs.drop_first())
    }
}

/// The shape of one request's trace: its head event first, one chunk event
/// per body chunk in arrival order, its done event last, all under one id.
pub open spec fn request_trace_shape(
    evs: Seq<ProxyEventView>,
    id: u32,
    head: RequestHeadView,
    chunks: Seq<Seq<u8>>,
) -> bool {
    &&& evs.len() == chunks.len() + 2
    &&& evs[0].id == id
    &&& evs[0].event == ProxyStateView::RequestHead(head)
    &&& evs[0].callback
    &&& forall|j: int|
        1 <= j <= chunks.len() ==> ((#[trigger] evs[j]).id == id && evs[j].event == chunk_kind(
            StreamFork::RequestStream,
            chunks[j - 1],
        ) && evs[j].callback)
    &&& evs[chunks.len() as int + 1].id == id
    &&& evs[chunks.len() as int + 1].event == ProxyStateView::RequestDone
    &&& !evs[chunks.len() as int + 1].callback
}

/// The shape of one response's trace.
pub open spec fn response_trace_shape(
    evs: Seq<ProxyEventView>,
    id: u32,
    head: ResponseHeadView,
    chunks: Seq<Seq<u8>>,
) -> bool {
    &&& evs.len() == chunks.len() + 2
    &&& evs[0].id == id
    &&& evs[0].event == ProxyStateView::ResponseHead(head)
    &&& evs[0].callback
    &&& forall|j: int|
        1 <= j <= chunks.len() ==> ((#[trigger] evs[j]).id == id && evs[j].event == chunk_kind(
            StreamFork::ResponseStream,
            chunks[j - 1],
        ) && evs[j].callback)
    &&& evs[chunks.len() as int + 1].id == id
    &&& evs[chunks.len() as int + 1].event == ProxyStateView::ResponseDone
    &&& !evs[chunks.len() as int + 1].callback
}

/// One request's whole passage through the proxy, event-side: the head event
/// with its edit resolved, every body chunk through the bus with its edit
/// resolved, and the done event; beside the trace, the head and the chunks
/// the upstream receives. A request cancelled mid-body runs the same way
/// with the chunks that never arrived left off.
pub fn run_request(
    head: RequestHead,
    id: u32,
    head_reply: Option<ProxyState>,
    chunks: &Vec<Vec<u8>>,
    replies: Vec<Option<ProxyState>>,
) -> (r: (Vec<ProxyEvent>, RequestHead, Vec<Vec<u8>>))
    requires
        replies@.len() == chunks@.len(),
    ensures
        request_trace_shape(events_view(r.0@), id, head@, chunks_view(chunks@)),
        r.1@ == resolved_req_head(head@, reply_view(head_reply)),
        chunks_view(r.2@).len() == chunks@.len(),
        forall|i: int|
            0 <= i < chunks@.len() ==> chunks_view(r.2@)[i] == resolved_chunk(
                StreamFork::RequestStream,
                chunks@[i]@,
                reply_view(replies@[i]),
            ),
{
    let (req, head_ev) = Request::from_request(head, id, head_reply);
    let (resolved_head, inner) = req.into_message();
    let mut inner = inner;
    let (mut stream_events, outs) = run_stream(&mut inner, chunks, replies);
    let ghost sevs = stream_events@;
    let mut events: Vec<ProxyEvent> = Vec::new();
    events.push(head_ev);
    events.append(&mut stream_events);
    proof {
        assert forall|k: int| 0 <= k < events@.len() implies events_view(events@)[k]
            == events@[k]@ by {}
        assert forall|j: int| 1 <= j <= chunks@.len() implies ((#[trigger] events_view(
            events@,
        )[j]).id == id && events_view(events@)[j].event == chunk_kind(
            StreamFork::RequestStream,
            chunks_view(chunks@)[j - 1],
        ) && events_view(events@)[j].callback) by {
            assert(events@[j] == sevs[j - 1]);
            assert(events_view(sevs)[j - 1] == sevs[j - 1]@);
            assert(chunks_view(chunks@)[j - 1] == chunks@[j - 1]@);
        }
        assert(events@[chunks@.len() as int + 1] == sevs[chunks@.len() as int]);
        assert(events_view(sevs)[chunks@.len() as int] == sevs[chunks@.len() as int]@);
    }
    (events, resolved_head, outs)
}

/// One response's whole passage back, event-side; symmetric to the request's.
pub fn run_response(
    head: ResponseHead,
    id: u32,
    head_reply: Option<ProxyState>,
    chunks: &Vec<Vec<u8>>,
    replies: Vec<Option<ProxyState>>,
) -> (r: (Vec<ProxyEvent>, ResponseHead, Vec<Vec<u8>>))
    requires
        replies@.len() == chunks@.len(),
    ensures
        response_trace_shape(events_view(r.0@), id, head@, chunks_view(chunks@)),
        r.1@ == resolved_resp_head(head@, reply_view(head_reply)),
        chunks_view(r.2@).len() == chunks@.len(),
        forall|i: int|
            0 <= i < chunks@.len() ==> chunks_view(r.2@)[i] == resolved_chunk(
                StreamFork::ResponseStream,
                chunks@[i]@,
                reply_view(replies@[i]),
            ),
{
    let (resp, head_ev) = Response::from_response(head, id, head_reply);
    let (resolved_head, inner) = resp.into_message();
    let mut inner = inner;
    let (mut stream_events, outs) = run_stream(&mut inner, chunks, replies);
    let ghost sevs = stream_events@;
    let mut events: Vec<ProxyEvent> = Vec::new();
    events.push(head_ev);
    events.append(&mut stream_events);
    proof {
        assert forall|k: int| 0 <= k < events@.len() implies events_view(events@)[k]
            == events@[k]@ by {}
        assert forall|j: int| 1 <= j <= chunks@.len() implies ((#[trigger] events_view(
            events@,
        )[j]).id == id && events_view(events@)[j].event == chunk_kind(
            StreamFork::ResponseStream,
            chunks_view(chunks@)[j - 1],
        ) && events_view(events@)[j].callback) by {
            assert(events@[j] == sevs[j - 1]);
            assert(events_view(sevs)[j - 1] == sevs[j - 1]@);
            assert(chunks_view(chunks@)[j - 1] == chunks@[j - 1]@);
        }
        assert(events@[chunks@.len() as int + 1] == sevs[chunks@.len() as int]);
        assert(events_view(sevs)[chunks@.len() as int] == sevs[chunks@.len() as int]@);
    }
    (events, resolved_head, outs)
}

/// Publish a trace to the bus, in emission order.
fn publish_all(bus: &mut EventBus, events: Vec<ProxyEvent>)
    requires
        old(bus).well_formed(),
        old(bus).events@.len() + events@.len() <= usize::MAX,
    ensures
        final(bus).well_formed(),
        final(bus).capacity == old(bus).capacity,
        final(bus).subs@ == old(bus).subs@,
        final(bus).events@ == old(bus).events@ + events@,
{
    let ghost evs0 = events@;
    let mut events = events;
    while events.len() > 0
        invariant
            bus.well_formed(),
            bus.capacity == old(bus).capacity,
            bus.subs@ == old(bus).subs@,
            events@.len() <= evs0.len(),
            events@ =~= evs0.subrange(evs0.len() - events@.len(), evs0.len() as int),
            bus.events@ =~= old(bus).events@ + evs0.subrange(
                0,
                evs0.len() - events@.len(),
            ),
            old(bus).events@.len() + evs0.len() <= usize::MAX,
        decreases events@.len(),
    {
        let ghost done_before = evs0.len() - events@.len();
        let e = events.remove(0);
        proof {
            assert(e == evs0[done_before]);
            assert(events@ =~= evs0.subrange(done_before + 1, evs0.len() as int));
        }
        bus.send(e);
        proof {
            assert(bus.events@ =~= old(bus).events@ + evs0.subrange(0, done_before + 1));
        }
    }
    proof {
        assert(evs0.subrange(0, evs0.len() as int) =~= evs0);
        assert(bus.events@ =~= old(bus).events@ + evs0);
    }
}

impl ProxyServer {
    /// One whole proxied exchange through this proxy: the request is admitted
    /// against the shared counter — drawing the next id and rewriting its
    /// target to the chosen host — both envelopes and bodies run with their
    /// editors' replies resolved, and every event goes to the bus in emission
    /// order, the request's trace first, then the response's, all under the
    /// drawn id. The running proxy does the same work a piece at a time,
    /// between the awaits of its connection task.
    pub fn proxy_exchange(
        &mut self,
        head: RequestHead,
        host: String,
        head_reply: Option<ProxyState>,
        req_chunks: &Vec<Vec<u8>>,
        req_replies: Vec<Option<ProxyState>>,
        resp_head: ResponseHead,
        resp_head_reply: Option<ProxyState>,
        resp_chunks: &Vec<Vec<u8>>,
        resp_replies: Vec<Option<ProxyState>>,
    ) -> (r: (u32, RequestHead, Vec<Vec<u8>>, ResponseHead, Vec<Vec<u8>>))
        requires
            old(self).ids.ids_left(),
            old(self).bus.well_formed(),
            req_replies@.len() == req_chunks@.len(),
            resp_replies@.len() == resp_chunks@.len(),
            old(self).bus.events@.len() + req_chunks@.len() + resp_chunks@.len() + 4
                <= usize::MAX,
    ensures
            final(self).listen == old(self).listen,
            final(self).core == old(self).core,
            final(self).cert_store == old(self).cert_store,
            (r.0, final(self).ids) == spec_fresh(old(self).ids),
            final(self).bus.well_formed(),
            final(self).bus.capacity == old(self).bus.capacity,
            final(self).bus.subs@ == old(self).bus.subs@,
            final(self).bus.events@.len() == old(self).bus.events@.len() + req_chunks@.len()
                + resp_chunks@.len() + 4,
            final(self).bus.events@.subrange(0, old(self).bus.events@.len() as int) == old(
                self,
            ).bus.events@,
            request_trace_shape(
                events_view(
                    final(self).bus.events@.subrange(
                        old(self).bus.events@.len() as int,
                        old(self).bus.events@.len() as int + req_chunks@.len() + 2,
                    ),
                ),
                r.0,
                rewritten_head(head@, host@),
                chunks_view(req_chunks@),
            ),
            response_trace_shape(
                events_view(
                    final(self).bus.events@.subrange(
                        old(self).bus.events@.len() as int + req_chunks@.len() + 2,
                        final(self).bus.events@.len() as int,
                    ),
                ),
                r.0,
                resp_head@,
                chunks_view(resp_chunks@),
            ),
            r.1@ == resolved_req_head(rewritten_head(head@, host@), reply_view(head_reply)),
            chunks_view(r.2@).len() == req_chunks@.len(),
            forall|i: int|
                0 <= i < req_chunks@.len() ==> chunks_view(r.2@)[i] == resolved_chunk(
                    StreamFork::RequestStream,
                    req_chunks@[i]@,
                    reply_view(req_replies@[i]),
                ),
            r.3@ == resolved_resp_head(resp_head@, reply_view(resp_head_reply)),
            chunks_view(r.4@).len() == resp_chunks@.len(),
            forall|i: int|
                0 <= i < resp_chunks@.len() ==> chunks_view(r.4@)[i] == resolved_chunk(
                    StreamFork::ResponseStream,
                    resp_chunks@[i]@,
                    reply_view(resp_replies@[i]),
                ),
    {
        let ghost base = self.bus.events@;
        let (id, admitted) = self.core.admit_request(&mut self.ids, head, host);
        let (req_events, upstream_head, upstream_chunks) = run_request(
            admitted,
            id,
            head_reply,
            req_chunks,
            req_replies,
        );
        let ghost reqevs = req_events@;
        publish_all(&mut self.bus, req_events);
        let (resp_events, client_head, client_chunks) = run_response(
            resp_head,
            id,
            resp_head_reply,
            resp_chunks,
            resp_replies,
        );
        let ghost respevs = resp_events@;
        publish_all(&mut self.bus, resp_events);
        proof {
            assert(self.bus.events@ =~= base + reqevs + respevs);
            assert(self.bus.events@.subrange(0, base.len() as int) =~= base);
            assert(self.bus.events@.subrange(
                base.len() as int,
                base.len() as int + req_chunks@.len() + 2,
            ) =~= reqevs);
            assert(self.bus.events@.subrange(
                base.len() as int + req_chunks@.len() + 2,
                self.bus.events@.len() as int,
            ) =~= respevs);
        }
        (id, upstream_head, upstream_chunks, client_head, client_chunks)
    }
}

/// No event of a body trace's tail is a request head.
proof fn lemma_count_req_head_zero(evs: Seq<ProxyEventView>, chunks: Seq<Seq<u8>>)
    requires
        evs.len() == chunks.len() + 1,
        forall|i: int|
            0 <= i < chunks.len() ==> (#[trigger] evs[i]).event == chunk_kind(
                StreamFork::RequestStream,
                chunks[i],
            ),
        evs[chunks.len() as int].event == ProxyStateView::RequestDone,
    ensures
        count_req_head(evs) == 0,
    decreases evs.len(),
{
    if chunks.len() == 0 {
        assert(evs.drop_first().len() == 0);
        assert(count_req_head(evs.drop_first()) == 0);
    } else {
        let evs1 = evs.drop_first();
        let chunks1 = chunks.drop_first();
        assert forall|i: int| 0 <= i < chunks1.len() implies (#[trigger] evs1[i]).event
            == chunk_kind(StreamFork::RequestStream, chunks1[i]) by {
            assert(evs1[i] == evs[i + 1]);
        }
        assert(evs1[chunks1.len() as int] == evs[chunks.len() as int]);
        lemma_count_req_head_zero(evs1, chunks1);
        assert(evs[0].event == chunk_kind(StreamFork::RequestStream, chunks[0]));
    }
}

/// No event of a response body trace's tail is a response head.
proof fn lemma_count_resp_head_zero(evs: Seq<ProxyEventView>, chunks: Seq<Seq<u8>>)
    requires
        evs.len() == chunks.len() + 1,
        forall|i: int|
            0 <= i < chunks.len() ==> (#[trigger] evs[i]).event == chunk_kind(
                StreamFork::ResponseStream,
                chunks[i],
            ),
        evs[chunks.len() as int].event == ProxyStateView::ResponseDone,
    ensures
        count_resp_head(evs) == 0,
    decreases evs.len(),
{
    if chunks.len() == 0 {
        assert(evs.drop_first().len() == 0);
        assert(count_resp_head(evs.drop_first()) == 0);
    } else {
        let evs1 = evs.drop_first();
        let chunks1 = chunks.drop_first();
        assert forall|i: int| 0 <= i < chunks1.len() implies (#[trigger] evs1[i]).event
            == chunk_kind(StreamFork::ResponseStream, chunks1[i]) by {
            assert(evs1[i] == evs[i + 1]);
        }
        assert(evs1[chunks1.len() as int] == evs[chunks.len() as int]);
        lemma_count_resp_head_zero(evs1, chunks1);
        assert(evs[0].event == chunk_kind(StreamFork::ResponseStream, chunks[0]));
    }
}

/// Head-once / done-once, request side: a request's trace emits exactly one
/// RequestHead and exactly one RequestDone — also when the client
/// disconnected or the body was cut short, whose trace has the same shape
/// with fewer chunks, the done coming from the destructor path.
pub proof fn lemma_head_once_done_once(
    evs: Seq<ProxyEventView>,
    id: u32,
    head: RequestHeadView,
    chunks: Seq<Seq<u8>>,
)
    requires
        request_trace_shape(evs, id, head, chunks),
    ensures
        count_req_head(evs) == 1,
        count_done(StreamFork::RequestStream, evs) == 1,
{
    let evs1 = evs.drop_first();
    assert forall|i: int| 0 <= i < chunks.len() implies evs1[i].event == chunk_kind(
        StreamFork::RequestStream,
        chunks[i],
    ) by {
        assert(evs1[i] == evs[i + 1]);
    }
    assert(evs1[chunks.len() as int] == evs[chunks.len() as int + 1]);
    assert(done_kind(StreamFork::RequestStream) == ProxyStateView::RequestDone);
    crate::body::lemma_done_once(StreamFork::RequestStream, evs1, chunks);
    assert(count_done(StreamFork::RequestStream, evs) == count_done(
        StreamFork::RequestStream,
        evs1,
    ));
    lemma_count_req_head_zero(evs1, chunks);
    assert(count_req_head(evs) == 1 + count_req_head(evs1));
}

/// Head-once / done-once, response side.
pub proof fn lemma_resp_head_once_done_once(
    evs: Seq<ProxyEventView>,
    id: u32,
    head: ResponseHeadView,
    chunks: Seq<Seq<u8>>,
)
    requires
        response_trace_shape(evs, id, head, chunks),
    ensures
        count_resp_head(evs) == 1,
        count_done(StreamFork::ResponseStream, evs) == 1,
{
    let evs1 = evs.drop_first();
    assert forall|i: int| 0 <= i < chunks.len() implies evs1[i].event == chunk_kind(
        StreamFork::ResponseStream,
        chunks[i],
    ) by {
        assert(evs1[i] == evs[i + 1]);
    }
    assert(evs1[chunks.len() as int] == evs[chunks.len() as int + 1]);
    assert(done_kind(StreamFork::ResponseStream) == ProxyStateView::ResponseDone);
    crate::body::lemma_done_once(StreamFork::ResponseStream, evs1, chunks);
    assert(count_done(StreamFork::ResponseStream, evs) == count_done(
        StreamFork::ResponseStream,
        evs1,
    ));
    lemma_count_resp_head_zero(evs1, chunks);
    assert(count_resp_head(evs) == 1 + count_resp_head(evs1));
}

} // verus!

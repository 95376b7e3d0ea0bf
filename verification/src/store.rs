use vstd::prelude::*;

use crate::bus::{EventBus, RecvOutcome};
use crate::event::{ProxyState, ProxyStateView};
use crate::headers::clone_bytes;
use crate::request::{RequestHead, RequestHeadView};
use crate::response::{ResponseHead, ResponseHeadView};

verus! {

/// How far one side of a stored pair has come: still streaming, finished
/// cleanly, or ended by an error.
#[derive(Debug)]
pub enum StoredResult {
    Pending,
    Done,
    Error(String),
}

/// The mathematical content of a stored status.
pub ghost enum StoredResultView {
    Pending,
    Done,
    Error(Seq<char>),
}

impl View for StoredResult {
    type V = StoredResultView;

    open spec fn view(&self) -> StoredResultView {
        match self {
            StoredResult::Pending => StoredResultView::Pending,
            StoredResult::Done => StoredResultView::Done,
            StoredResult::Error(m) => StoredResultView::Error(m@),
        }
    }
}

impl StoredResult {
    /// A fresh status with the same content.
    pub fn duplicate(&self) -> (r: StoredResult)
        ensures
            r@ == self@,
    {
        match self {
            StoredResult::Pending => StoredResult::Pending,
            StoredResult::Done => StoredResult::Done,
            StoredResult::Error(m) => StoredResult::Error(m.clone()),
        }
    }
}

/// The stored request half of one captured pair: the head as observed, the
/// body accumulated chunk by chunk, and how far it has come.
#[derive(Debug)]
pub struct StoredRequest {
    pub head: RequestHead,
    pub body: Vec<u8>,
    pub last_chunk_id: u32,
    pub status: StoredResult,
}

/// The mathematical content of a stored request.
pub ghost struct StoredRequestView {
    pub head: RequestHeadView,
    pub body: Seq<u8>,
    pub last_chunk_id: u32,
    pub status: StoredResultView,
}

impl View for StoredRequest {
    type V = StoredRequestView;

    open spec fn view(&self) -> StoredRequestView {
        StoredRequestView {
            head: self.head@,
            body: self.body@,
            last_chunk_id: self.last_chunk_id,
            status: self.status@,
        }
    }
}

impl StoredRequest {
    /// A fresh copy with the same content.
    pub fn duplicate(&self) -> (r: StoredRequest)
        ensures
            r@ == self@,
    {
        StoredRequest {
            head: self.head.duplicate(),
            body: clone_bytes(&self.body),
            last_chunk_id: self.last_chunk_id,
            status: self.status.duplicate(),
        }
    }
}

/// The stored response half of one captured pair.
#[derive(Debug)]
pub struct StoredResponse {
    pub head: ResponseHead,
    pub body: Vec<u8>,
    pub last_chunk_id: u32,
    pub status: StoredResult,
}

/// The mathematical content of a stored response.
pub ghost struct StoredResponseView {
    pub head: ResponseHeadView,
    pub body: Seq<u8>,
    pub last_chunk_id: u32,
    pub status: StoredResultView,
}

impl View for StoredResponse {
    type V = StoredResponseView;

    open spec fn view(&self) -> StoredResponseView {
        StoredResponseView {
            head: self.head@,
            body: self.body@,
            last_chunk_id: self.last_chunk_id,
            status: self.status@,
        }
    }
}

impl StoredResponse {
    /// A fresh copy with the same content.
    pub fn duplicate(&self) -> (r: StoredResponse)
        ensures
            r@ == self@,
    {
        StoredResponse {
            head: self.head.duplicate(),
            body: clone_bytes(&self.body),
            last_chunk_id: self.last_chunk_id,
            status: self.status.duplicate(),
        }
    }
}

/// One captured request/response pair, either half possibly still missing.
#[derive(Debug)]
pub struct StoredPair {
    pub request: Option<StoredRequest>,
    pub response: Option<StoredResponse>,
}

/// The mathematical content of one captured pair.
pub ghost struct StoredPairView {
    pub request: Option<StoredRequestView>,
    pub response: Option<StoredResponseView>,
}

/// The content of an optional stored request.
pub open spec fn opt_req_view(o: Option<StoredRequest>) -> Option<StoredRequestView> {
    match o {
        Some(r) => Some(r@),
        None => None,
    }
}

/// The content of an optional stored response.
pub open spec fn opt_resp_view(o: Option<StoredResponse>) -> Option<StoredResponseView> {
    match o {
        Some(r) => Some(r@),
        None => None,
    }
}

impl View for StoredPair {
    type V = StoredPairView;

    open spec fn view(&self) -> StoredPairView {
        StoredPairView {
            request: opt_req_view(self.request),
            response: opt_resp_view(self.response),
        }
    }
}

impl Default for StoredPair {
    /// A slot with neither half yet.
    fn default() -> (r: StoredPair)
        ensures
            r@.request is None,
            r@.response is None,
    {
        StoredPair { request: None, response: None }
    }
}

/// A fresh copy of an optional stored request, same content.
fn dup_opt_req(o: &Option<StoredRequest>) -> (r: Option<StoredRequest>)
    ensures
        opt_req_view(r) == opt_req_view(*o),
{
    match o {
        Some(req) => Some(req.duplicate()),
        None => None,
    }
}

/// A fresh copy of an optional stored response, same content.
fn dup_opt_resp(o: &Option<StoredResponse>) -> (r: Option<StoredResponse>)
    ensures
        opt_resp_view(r) == opt_resp_view(*o),
{
    match o {
        Some(resp) => Some(resp.duplicate()),
        None => None,
    }
}

/// An empty slot.
pub open spec fn empty_pair() -> StoredPairView {
    StoredPairView { request: None, response: None }
}

/// The slot a request head opens.
pub open spec fn fresh_request(h: RequestHeadView) -> StoredRequestView {
    StoredRequestView {
        head: h,
        body: Seq::empty(),
        last_chunk_id: 0,
        status: StoredResultView::Pending,
    }
}

/// The half a response head opens.
pub open spec fn fresh_response(h: ResponseHeadView) -> StoredResponseView {
    StoredResponseView {
        head: h,
        body: Seq::empty(),
        last_chunk_id: 0,
        status: StoredResultView::Pending,
    }
}

/// The cache extended with empty slots up to length `n`.
pub open spec fn padded(cache: Seq<StoredPairView>, n: int) -> Seq<StoredPairView> {
    cache + Seq::new((n - cache.len()) as nat, |i: int| empty_pair())
}

/// The content of the whole cache.
pub open spec fn store_view(cache: Seq<StoredPair>) -> Seq<StoredPairView> {
    cache.map_values(|p: StoredPair| p@)
}

/// What one event does to the cache. Id 0 is bus-wide news and stores
/// nothing; request ids map to slot id - 1. A request head opens its slot —
/// padding with empty slots if earlier requests were missed, and never
/// overwriting a slot already holding a request. Chunks extend the matching
/// half's body; done events mark it finished; an error marks the response
/// half if one exists, else the request half. Upgrade traffic and messages
/// change nothing here.
pub open spec fn apply_event_spec(
    cache: Seq<StoredPairView>,
    id: u32,
    ev: ProxyStateView,
) -> Seq<StoredPairView> {
    if id == 0 {
        cache
    } else {
        let idx = id - 1;
        match ev {
            ProxyStateView::RequestHead(h) => {
                if cache.len() <= idx {
                    padded(cache, idx).push(
                        StoredPairView { request: Some(fresh_request(h)), response: None },
                    )
                } else if cache[idx].request is None {
                    cache.update(
                        idx,
                        StoredPairView {
                            request: Some(fresh_request(h)),
                            response: cache[idx].response,
                        },
                    )
                } else {
                    cache
                }
            },
            ProxyStateView::RequestChunk(c) => {
                if idx < cache.len() {
                    match cache[idx].request {
                        Some(req) => cache.update(
                            idx,
                            StoredPairView {
                                request: Some(
                                    StoredRequestView {
                                        head: req.head,
                                        body: req.body + c,
                                        last_chunk_id: req.last_chunk_id,
                                        status: req.status,
                                    },
                                ),
                                response: cache[idx].response,
                            },
                        ),
                        None => cache,
                    }
                } else {
                    cache
                }
            },
            ProxyStateView::RequestDone => {
                if idx < cache.len() {
                    match cache[idx].request {
                        Some(req) => cache.update(
                            idx,
                            StoredPairView {
                                request: Some(
                                    StoredRequestView {
                                        head: req.head,
                                        body: req.body,
                                        last_chunk_id: req.last_chunk_id,
                                        status: StoredResultView::Done,
                                    },
                                ),
                                response: cache[idx].response,
                            },
                        ),
                        None => cache,
                    }
                } else {
                    cache
                }
            },
            ProxyStateView::ResponseHead(h) => {
                if idx < cache.len() && cache[idx].response is None {
                    cache.update(
                        idx,
                        StoredPairView {
                            request: cache[idx].request,
                            response: Some(fresh_response(h)),
                        },
                    )
                } else {
                    cache
                }
            },
            ProxyStateView::ResponseChunk(c) => {
                if idx < cache.len() {
                    match cache[idx].response {
                        Some(resp) => cache.update(
                            idx,
                            StoredPairView {
                                request: cache[idx].request,
                                response: Some(
                                    StoredResponseView {
                                        head: resp.head,
                                        body: resp.body + c,
                                        last_chunk_id: resp.last_chunk_id,
                                        status: resp.status,
                                    },
                                ),
                            },
                        ),
                        None => cache,
                    }
                } else {
                    cache
                }
            },
            ProxyStateView::ResponseDone => {
                if idx < cache.len() {
                    match cache[idx].response {
                        Some(resp) => cache.update(
                            idx,
                            StoredPairView {
                                request: cache[idx].request,
                                response: Some(
                                    StoredResponseView {
                                        head: resp.head,
                                        body: resp.body,
                                        last_chunk_id: resp.last_chunk_id,
                                        status: StoredResultView::Done,
                                    },
                                ),
                            },
                        ),
                        None => cache,
                    }
                } else {
                    cache
                }
            },
            ProxyStateView::Error(m) => {
                if idx < cache.len() {
                    match cache[idx].response {
                        Some(resp) => cache.update(
                            idx,
                            StoredPairView {
                                request: cache[idx].request,
                                response: Some(
                                    StoredResponseView {
                                        head: resp.head,
                                        body: resp.body,
                                        last_chunk_id: resp.last_chunk_id,
                                        status: StoredResultView::Error(m),
                                    },
                                ),
                            },
                        ),
                        None => match cache[idx].request {
                            Some(req) => cache.update(
                                idx,
                                StoredPairView {
                                    request: Some(
                                        StoredRequestView {
                                            head: req.head,
                                            body: req.body,
                                            last_chunk_id: req.last_chunk_id,
                                            status: StoredResultView::Error(m),
                                        },
                                    ),
                                    response: cache[idx].response,
                                },
                            ),
                            None => cache,
                        },
                    }
                } else {
                    cache
                }
            },
            _ => cache,
        }
    }
}

/// The observer store: the ring of captured pairs the inspection surface
/// reads, filled by folding the event stream, and its subscription to the
/// bus.
#[derive(Debug)]
pub struct Store {
    pub cache: Vec<StoredPair>,
    pub active: Option<usize>,
    pub sub: Option<usize>,
}

impl Store {
    /// An empty store, not yet subscribed.
    pub fn new() -> (r: Store)
        ensures
            r.cache@.len() == 0,
            r.active is None,
            r.sub is None,
    {
        Store { cache: Vec::new(), active: None, sub: None }
    }

    /// How many pairs are stored.
    pub fn size(&self) -> (r: Option<usize>)
        ensures
            r == Some(self.cache@.len() as usize),
    {
        Some(self.cache.len())
    }

    /// The status of both halves of one stored pair; a missing half counts
    /// as pending.
    pub fn get_status(&self, idx: usize) -> (r: Option<(StoredResult, StoredResult)>)
        ensures
            idx < self.cache@.len() ==> (r matches Some(s) && s.0@ == (match self.cache@[idx as int]@.request {
                Some(req) => req.status,
                None => StoredResultView::Pending,
            }) && s.1@ == (match self.cache@[idx as int]@.response {
                Some(resp) => resp.status,
                None => StoredResultView::Pending,
            })),
            idx >= self.cache@.len() ==> r is None,
    {
        if idx < self.cache.len() {
            let pair = &self.cache[idx];
            let req_status = match &pair.request {
                Some(req) => req.status.duplicate(),
                None => StoredResult::Pending,
            };
            let resp_status = match &pair.response {
                Some(resp) => resp.status.duplicate(),
                None => StoredResult::Pending,
            };
            Some((req_status, resp_status))
        } else {
            None
        }
    }

    /// Register this store on the bus; it will see events from here on.
    pub fn subscribe(&mut self, bus: &mut EventBus)
        requires
            old(bus).well_formed(),
        ensures
            final(bus).well_formed(),
            final(bus).capacity == old(bus).capacity,
            final(bus).events@ == old(bus).events@,
            final(bus).subs@ == old(bus).subs@.push(
                crate::bus::BusSubscriber {
                    next_pos: old(bus).events@.len() as usize,
                    lag: 0,
                },
            ),
            final(self).sub == Some(old(bus).subs@.len() as usize),
            final(self).cache@ == old(self).cache@,
            final(self).active == old(self).active,
    {
        let sub = bus.subscribe();
        self.sub = Some(sub);
    }

    /// Fold one event into the cache.
    pub fn apply_event(&mut self, id: u32, event: ProxyState)
        ensures
            store_view(final(self).cache@) == apply_event_spec(
                store_view(old(self).cache@),
                id,
                event@,
            ),
            final(self).active == old(self).active,
            final(self).sub == old(self).sub,
    {
        if id == 0 {
            return ;
        }
        let idx = (id - 1) as usize;
        let ghost cache0 = store_view(self.cache@);
        match event {
            ProxyState::RequestHead(h) => {
                if self.cache.len() <= idx {
                    while self.cache.len() < idx
                        invariant
                            self.cache@.len() <= idx,
                            store_view(self.cache@) =~= padded(
                                cache0,
                                self.cache@.len() as int,
                            ),
                            cache0.len() <= self.cache@.len(),
                            self.active == old(self).active,
                            self.sub == old(self).sub,
                        decreases idx - self.cache@.len(),
                    {
                        let ghost prev = self.cache@;
                        self.cache.push(StoredPair::default());
                        proof {
                            assert(self.cache@.drop_last() =~= prev);
                            assert(self.cache@.last()@ == empty_pair());
                            lemma_store_view_push(self.cache@);
                            assert(store_view(self.cache@) =~= padded(
                                cache0,
                                self.cache@.len() as int,
                            ));
                        }
                    }
                    let ghost prev = self.cache@;
                    let ghost hv = h@;
                    self.cache.push(
                        StoredPair {
                            request: Some(
                                StoredRequest {
                                    head: h,
                                    body: Vec::new(),
                                    last_chunk_id: 0,
                                    status: StoredResult::Pending,
                                },
                            ),
                            response: None,
                        },
                    );
                    proof {
                        assert(self.cache@.drop_last() =~= prev);
                        assert(self.cache@.last()@ == (StoredPairView {
                            request: Some(fresh_request(hv)),
                            response: None,
                        }));
                        lemma_store_view_push(self.cache@);
                        assert(store_view(self.cache@) =~= apply_event_spec(
                            cache0,
                            id,
                            ProxyStateView::RequestHead(hv),
                        ));
                    }
                } else {
                    let fill = match &self.cache[idx].request {
                        Some(_) => false,
                        None => true,
                    };
                    if fill {
                        let resp = dup_opt_resp(&self.cache[idx].response);
                        self.cache.set(
                            idx,
                            StoredPair {
                                request: Some(
                                    StoredRequest {
                                        head: h,
                                        body: Vec::new(),
                                        last_chunk_id: 0,
                                        status: StoredResult::Pending,
                                    },
                                ),
                                response: resp,
                            },
                        );
                        proof {
                            lemma_store_view_update(old(self).cache@, self.cache@, idx as int);
                        }
                    }
                }
            },
            ProxyState::RequestChunk(c) => {
                if idx < self.cache.len() {
                    let pair = &self.cache[idx];
                    match &pair.request {
                        Some(req) => {
                            let mut body = clone_bytes(&req.body);
                            let mut tail = c;
                            body.append(&mut tail);
                            let new_req = StoredRequest {
                                head: req.head.duplicate(),
                                body,
                                last_chunk_id: req.last_chunk_id,
                                status: req.status.duplicate(),
                            };
                            let resp = dup_opt_resp(&pair.response);
                            self.cache.set(
                                idx,
                                StoredPair { request: Some(new_req), response: resp },
                            );
                            proof {
                                lemma_store_view_update(old(self).cache@, self.cache@, idx as int);
                            }
                        },
                        None => {},
                    }
                }
            },
            ProxyState::RequestDone => {
                if idx < self.cache.len() {
                    let pair = &self.cache[idx];
                    match &pair.request {
                        Some(req) => {
                            let new_req = StoredRequest {
                                head: req.head.duplicate(),
                                body: clone_bytes(&req.body),
                                last_chunk_id: req.last_chunk_id,
                                status: StoredResult::Done,
                            };
                            let resp = dup_opt_resp(&pair.response);
                            self.cache.set(
                                idx,
                                StoredPair { request: Some(new_req), response: resp },
                            );
                            proof {
                                lemma_store_view_update(old(self).cache@, self.cache@, idx as int);
                            }
                        },
                        None => {},
                    }
                }
            },
            ProxyState::ResponseHead(h) => {
                if idx < self.cache.len() {
                    let fill = match &self.cache[idx].response {
                        Some(_) => false,
                        None => true,
                    };
                    if fill {
                        let req = dup_opt_req(&self.cache[idx].request);
                        self.cache.set(
                            idx,
                            StoredPair {
                                request: req,
                                response: Some(
                                    StoredResponse {
                                        head: h,
                                        body: Vec::new(),
                                        last_chunk_id: 0,
                                        status: StoredResult::Pending,
                                    },
                                ),
                            },
                        );
                        proof {
                            lemma_store_view_update(old(self).cache@, self.cache@, idx as int);
                        }
                    }
                }
            },
            ProxyState::ResponseChunk(c) => {
                if idx < self.cache.len() {
                    let pair = &self.cache[idx];
                    match &pair.response {
                        Some(resp) => {
                            let mut body = clone_bytes(&resp.body);
                            let mut tail = c;
                            body.append(&mut tail);
                            let new_resp = StoredResponse {
                                head: resp.head.duplicate(),
                                body,
                                last_chunk_id: resp.last_chunk_id,
                                status: resp.status.duplicate(),
                            };
                            let req = dup_opt_req(&pair.request);
                            self.cache.set(
                                idx,
                                StoredPair { request: req, response: Some(new_resp) },
                            );
                            proof {
                                lemma_store_view_update(old(self).cache@, self.cache@, idx as int);
                            }
                        },
                        None => {},
                    }
                }
            },
            ProxyState::ResponseDone => {
                if idx < self.cache.len() {
                    let pair = &self.cache[idx];
                    match &pair.response {
                        Some(resp) => {
                            let new_resp = StoredResponse {
                                head: resp.head.duplicate(),
                                body: clone_bytes(&resp.body),
                                last_chunk_id: resp.last_chunk_id,
                                status: StoredResult::Done,
                            };
                            let req = dup_opt_req(&pair.request);
                            self.cache.set(
                                idx,
                                StoredPair { request: req, response: Some(new_resp) },
                            );
                            proof {
                                lemma_store_view_update(old(self).cache@, self.cache@, idx as int);
                            }
                        },
                        None => {},
                    }
                }
            },
            ProxyState::Error(m) => {
                if idx < self.cache.len() {
                    let pair = &self.cache[idx];
                    match &pair.response {
                        Some(resp) => {
                            let new_resp = StoredResponse {
                                head: resp.head.duplicate(),
                                body: clone_bytes(&resp.body),
                                last_chunk_id: resp.last_chunk_id,
                                status: StoredResult::Error(m),
                            };
                            let req = dup_opt_req(&pair.request);
                            self.cache.set(
                                idx,
                                StoredPair { request: req, response: Some(new_resp) },
                            );
                            proof {
                                lemma_store_view_update(old(self).cache@, self.cache@, idx as int);
                            }
                        },
                        None => {
                            match &pair.request {
                                Some(req) => {
                                    let new_req = StoredRequest {
                                        head: req.head.duplicate(),
                                        body: clone_bytes(&req.body),
                                        last_chunk_id: req.last_chunk_id,
                                        status: StoredResult::Error(m),
                                    };
                                    let resp = dup_opt_resp(&pair.response);
                                    self.cache.set(
                                        idx,
                                        StoredPair { request: Some(new_req), response: resp },
                                    );
                                    proof {
                                        lemma_store_view_update(
                                            old(self).cache@,
                                            self.cache@,
                                            idx as int,
                                        );
                                    }
                                },
                                None => {},
                            }
                        },
                    }
                }
            },
            _ => {},
        }
    }
}

/// What one step of the subscriber loop did.
#[derive(Clone, Copy, PartialEq, Eq, Structural, Debug)]
pub enum PumpOutcome {
    Applied,
    LaggedBy(usize),
    Idle,
}

impl Store {
    /// One step of the subscriber loop: take the next event from the bus and
    /// fold it into the cache, or report how far behind the bus this store
    /// fell, or that nothing new is there. The store only observes: in the
    /// running proxy its callback replies carry the event back unchanged.
    pub fn pump(&mut self, bus: &mut EventBus) -> (r: PumpOutcome)
        requires
            old(self).sub matches Some(s) && s < old(bus).subs@.len(),
            old(bus).well_formed(),
        ensures
            final(bus).well_formed(),
            final(bus).events@ == old(bus).events@,
            final(bus).capacity == old(bus).capacity,
            final(bus).subs@.len() == old(bus).subs@.len(),
            final(self).sub == old(self).sub,
            final(self).active == old(self).active,
            ({
                let s = old(self).sub->0 as int;
                let pos = old(bus).subs@[s].next_pos;
                let cut = old(bus).cutoff();
                if pos < cut {
                    r == PumpOutcome::LaggedBy((cut - pos) as usize) && store_view(
                        final(self).cache@,
                    ) == store_view(old(self).cache@)
                } else if pos < old(bus).events@.len() {
                    r == PumpOutcome::Applied && store_view(final(self).cache@)
                        == apply_event_spec(
                        store_view(old(self).cache@),
                        old(bus).events@[pos as int]@.id,
                        old(bus).events@[pos as int]@.event,
                    )
                } else {
                    r == PumpOutcome::Idle && store_view(final(self).cache@) == store_view(
                        old(self).cache@,
                    )
                }
            }),
    {
        let sub = match self.sub {
            Some(s) => s,
            None => {
                proof {
                    assert(false);
                }
                unreached()
            },
        };
        match bus.recv(sub) {
            RecvOutcome::Item(i) => {
                let ev = bus.event_at(i).duplicate();
                self.apply_event(ev.id, ev.event);
                PumpOutcome::Applied
            },
            RecvOutcome::Lagged(n) => PumpOutcome::LaggedBy(n),
            RecvOutcome::Empty => PumpOutcome::Idle,
        }
    }
}

/// The sidebar's range clamp: the rows asked for, pulled back inside the
/// cache. An empty cache clamps everything to the empty range; otherwise a
/// start past the end moves to the last row, the end is capped at the length,
/// and an inverted range collapses to its start.
pub open spec fn clamp_range_spec(start: int, end: int, len: int) -> (int, int) {
    if len == 0 {
        (0int, 0int)
    } else {
        let s = if start > len {
            len - 1
        } else {
            start
        };
        let e0 = if end > len {
            len
        } else {
            end
        };
        let e = if s > e0 {
            s
        } else {
            e0
        };
        (s, e)
    }
}

/// Clamp a requested row range to the stored rows.
pub fn clamp_range(start: usize, end: usize, len: usize) -> (r: (usize, usize))
    ensures
        (r.0 as int, r.1 as int) == clamp_range_spec(start as int, end as int, len as int),
{
    if len == 0 {
        (0, 0)
    } else {
        let s = if start > len {
            len - 1
        } else {
            start
        };
        let e0 = if end > len {
            len
        } else {
            end
        };
        let e = if s > e0 {
            s
        } else {
            e0
        };
        (s, e)
    }
}

/// One sidebar row: the method and the path, cut down with an ellipsis when
/// the row is wider than the line. The cut keeps `width - method - 5`
/// characters of the path — none when even that underflows.
pub open spec fn sidebar_line_spec(method: Seq<char>, path: Seq<char>, width: int) -> Seq<char> {
    if method.len() + path.len() + 1 <= width {
        method + " "@ + path
    } else {
        let prec = if width >= method.len() + 5 {
            width - method.len() - 5
        } else {
            0int
        };
        method + " "@ + path.subrange(0, prec) + "..."@
    }
}

/// Render one sidebar row.
pub fn sidebar_line(method: &String, path: &String, line_width: usize) -> (r: String)
    ensures
        r@ == sidebar_line_spec(method@, path@, line_width as int),
{
    let mlen = method.as_str().unicode_len();
    let plen = path.as_str().unicode_len();
    let mut out = method.clone();
    out.append(" ");
    if mlen < line_width && line_width - mlen - 1 >= plen {
        out.append(path.as_str());
        out
    } else {
        let prec: usize = if line_width >= 5 && mlen <= line_width - 5 {
            line_width - mlen - 5
        } else {
            0
        };
        proof {
            assert(prec <= path@.len());
        }
        out.append(path.as_str().substring_char(0, prec));
        out.append("...");
        out
    }
}

/// Pushing one pair appends its content to the view.
proof fn lemma_store_view_push(cache: Seq<StoredPair>)
    requires
        cache.len() > 0,
    ensures
        store_view(cache) =~= store_view(cache.drop_last()).push(cache.last()@),
{
}

/// Replacing one pair updates just its slot of the view.
proof fn lemma_store_view_update(before: Seq<StoredPair>, after: Seq<StoredPair>, i: int)
    requires
        0 <= i < before.len(),
        after =~= before.update(i, after[i]),
    ensures
        store_view(after) =~= store_view(before).update(i, after[i]@),
{
}

} // verus!

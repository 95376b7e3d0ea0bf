use vstd::prelude::*;

use crate::body::{concat_bytes, events_view};
use crate::bus::EventBus;
use crate::cert::CertStore;
use crate::event::{ProxyEvent, ProxyEventView, ProxyStateView};
use crate::headers::HttpVersion;
use crate::request::RequestHead;
use crate::response::ResponseHead;
use crate::request::RequestHeadView;
use crate::uri::{host_of_spec, UriParts, UriView};

verus! {

/// The process-wide request counter. Ids are handed out strictly in order;
/// id 0 is reserved for bus-wide news, so counting starts at 1 by default.
#[derive(Clone, Copy, PartialEq, Eq, Structural, Debug)]
pub struct IdCounter {
    pub next: u32,
}

/// What one draw does: the id handed out and the counter left behind.
pub open spec fn spec_fresh(c: IdCounter) -> (u32, IdCounter) {
    (c.next, IdCounter { next: (c.next + 1) as u32 })
}

/// The counter after `k` draws.
pub open spec fn counter_after(c: IdCounter, k: nat) -> IdCounter
    decreases k,
{
    if k == 0 {
        c
    } else {
        spec_fresh(counter_after(c, (k - 1) as nat)).1
    }
}

impl IdCounter {
    /// A counter that will hand out `start` first.
    pub fn new(start: u32) -> (r: IdCounter)
        ensures
            r.next == start,
    {
        IdCounter { next: start }
    }

    /// Draw the next id.
    pub fn fresh(&mut self) -> (id: u32)
        requires
            old(self).ids_left(),
        ensures
            (id, *final(self)) == spec_fresh(*old(self)),
    {
        let id = self.next;
        self.next = self.next + 1;
        id
    }

    /// Whether another id can still be drawn.
    pub open spec fn ids_left(&self) -> bool {
        self.next < u32::MAX
    }

    /// The runnable test of `ids_left`, for callers outside verified code.
    pub fn has_ids_left(&self) -> (r: bool)
        ensures
            r == self.ids_left(),
    {
        self.next < u32::MAX
    }
}

/// Id monotonicity: of two requests admitted from the same counter, the one
/// admitted later — however many admissions stand between them — draws the
/// strictly greater id.
pub proof fn lemma_id_monotonic(c: IdCounter, j: nat, k: nat)
    requires
        j < k,
        c.next + k < u32::MAX,
    ensures
        spec_fresh(counter_after(c, j)).0 < spec_fresh(counter_after(c, k)).0,
    decreases k,
{
    lemma_counter_after_next(c, j);
    lemma_counter_after_next(c, k);
}

/// After `k` draws the counter stands exactly `k` past where it started.
pub proof fn lemma_counter_after_next(c: IdCounter, k: nat)
    requires
        c.next + k <= u32::MAX,
    ensures
        counter_after(c, k).next == c.next + k,
    decreases k,
{
    if k > 0 {
        lemma_counter_after_next(c, (k - 1) as nat);
    }
}

/// Where the proxy listens.
#[derive(Clone, Copy, Debug)]
pub struct ListenAddr {
    pub ip: [u8; 4],
    pub port: u16,
}

/// How a proxy is set up: where the root identity is persisted, where to
/// listen, and the first request id to hand out.
#[derive(Debug)]
pub struct ProxyConfig {
    pub pubkey_path: String,
    pub privkey_path: String,
    pub listen: ListenAddr,
    pub starting_id: u32,
    pub accept_invalid_upstream_certs: bool,
}

impl Default for ProxyConfig {
    /// The stock setup: root identity under `data/`, every interface on port
    /// 1337, request numbering from 1 with 0 left for bus-wide news.
    fn default() -> (r: ProxyConfig)
        ensures
            r.pubkey_path@ == "data/cert"@,
            r.privkey_path@ == "data/key"@,
            r.listen == (ListenAddr { ip: [0u8, 0u8, 0u8, 0u8], port: 1337u16 }),
            r.starting_id == 1,
            r.accept_invalid_upstream_certs,
    {
        ProxyConfig {
            pubkey_path: String::from_str("data/cert"),
            privkey_path: String::from_str("data/key"),
            listen: ListenAddr { ip: [0, 0, 0, 0], port: 1337 },
            starting_id: 1,
            accept_invalid_upstream_certs: true,
        }
    }
}

/// The per-connection handler state: the fallback host a later request
/// without an authority will be sent to (the SNI of the enclosing TLS
/// session, or the CONNECT target), and whether the upstream's certificate
/// goes unchecked — deliberately permissive by default, this is a debugging
/// tool.
#[derive(Debug)]
pub struct ProxyCore {
    pub fallback_host: Option<String>,
    pub accept_invalid_upstream_certs: bool,
}

/// The proxy: its listen address, the event bus every handler publishes to,
/// the shared request counter, the root identity, and the handler state new
/// connections start from.
#[derive(Debug)]
pub struct ProxyServer {
    pub listen: ListenAddr,
    pub bus: EventBus,
    pub ids: IdCounter,
    pub cert_store: CertStore,
    pub core: ProxyCore,
}

impl ProxyConfig {
    /// Assemble the proxy for this setup around an already-loaded root
    /// identity.
    pub fn build(self, store: CertStore) -> (r: ProxyServer)
        ensures
            r.listen == self.listen,
            r.ids.next == self.starting_id,
            r.bus.well_formed(),
            r.bus.capacity == 128,
            r.bus.events@.len() == 0,
            r.bus.subs@.len() == 0,
            r.core.fallback_host is None,
            r.core.accept_invalid_upstream_certs == self.accept_invalid_upstream_certs,
            r.cert_store == store,
    {
        ProxyServer::new(self, store)
    }
}

impl ProxyServer {
    /// A fresh proxy: an empty bus that retains the last 128 events, the
    /// counter at the configured start, no fallback host yet, and upstream
    /// certificates accepted unseen.
    pub fn new(conf: ProxyConfig, store: CertStore) -> (r: ProxyServer)
        ensures
            r.listen == conf.listen,
            r.ids.next == conf.starting_id,
            r.bus.well_formed(),
            r.bus.capacity == 128,
            r.bus.events@.len() == 0,
            r.bus.subs@.len() == 0,
            r.core.fallback_host is None,
            r.core.accept_invalid_upstream_certs == conf.accept_invalid_upstream_certs,
            r.cert_store == store,
    {
        ProxyServer {
            listen: conf.listen,
            bus: EventBus::new(128),
            ids: IdCounter::new(conf.starting_id),
            cert_store: store,
            core: ProxyCore {
                fallback_host: None,
                accept_invalid_upstream_certs: conf.accept_invalid_upstream_certs,
            },
        }
    }

    /// A new observer of the event bus; it sees only what is emitted from
    /// now on.
    pub fn subscribe(&mut self) -> (sub: usize)
        requires
            old(self).bus.well_formed(),
        ensures
            final(self).bus.well_formed(),
            final(self).bus.capacity == old(self).bus.capacity,
            final(self).bus.events@ == old(self).bus.events@,
            sub == old(self).bus.subs@.len(),
            final(self).bus.subs@ == old(self).bus.subs@.push(
                crate::bus::BusSubscriber {
                    next_pos: old(self).bus.events@.len() as usize,
                    lag: 0,
                },
            ),
            final(self).listen == old(self).listen,
            final(self).ids == old(self).ids,
    {
        self.bus.subscribe()
    }
}

/// What the handler decides to do with one incoming request.
#[derive(Debug)]
pub enum RouteDecision {
    /// A CONNECT: answer 200 with an empty body and turn the socket into a
    /// TLS session, remembering the tunnel target as the fallback host.
    Tunnel { connect_host: Option<String> },
    /// Proxy the request to this host.
    Forward { host: String },
    /// No authority on the request and no fallback host: the request cannot
    /// be routed and the connection fails with an invalid-input error.
    Reject,
}

/// The target host of a request: the host of its own authority if it has
/// one, else the handler's fallback host.
pub open spec fn spec_target_host(
    uri_authority: Option<Seq<char>>,
    fallback: Option<Seq<char>>,
) -> Option<Seq<char>> {
    match uri_authority {
        Some(a) => Some(host_of_spec(a)),
        None => fallback,
    }
}

/// The rewrite a forwarded request's target undergoes: the authority becomes
/// the chosen host; a missing scheme is forced to `https`, an existing one
/// and the path and query stay.
pub open spec fn rewritten_uri(uri: UriView, host: Seq<char>) -> UriView {
    UriView {
        scheme: match uri.scheme {
            Some(s) => Some(s),
            None => Some("https"@),
        },
        authority: Some(host),
        path_and_query: uri.path_and_query,
    }
}

/// An admitted request's head: the same message, aimed at the chosen host.
pub open spec fn rewritten_head(h: RequestHeadView, host: Seq<char>) -> RequestHeadView {
    RequestHeadView { method: h.method, uri: rewritten_uri(h.uri, host), version: h.version, headers: h.headers }
}

/// The fallback host's content.
pub open spec fn opt_string_view(h: Option<String>) -> Option<Seq<char>> {
    match h {
        Some(s) => Some(s@),
        None => None,
    }
}

impl ProxyCore {
    /// The routing decision for one request: CONNECT becomes a tunnel whose
    /// target is the request's own host; anything else is forwarded to its
    /// own host, or to the fallback host, or rejected when neither exists.
    pub fn route(&self, method: &String, uri: &UriParts) -> (r: RouteDecision)
        ensures
            method@ == "CONNECT"@ ==> (r matches RouteDecision::Tunnel { connect_host }
                && opt_string_view(connect_host) == (match uri@.authority {
                Some(a) => Some(host_of_spec(a)),
                None => None,
            })),
            method@ != "CONNECT"@ ==> match spec_target_host(
                uri@.authority,
                opt_string_view(self.fallback_host),
            ) {
                Some(h) => r matches RouteDecision::Forward { host } && host@ == h,
                None => r is Reject,
            },
    {
        let host = uri.host();
        if method.eq(&String::from_str("CONNECT")) {
            RouteDecision::Tunnel { connect_host: host }
        } else {
            match host {
                Some(h) => RouteDecision::Forward { host: h },
                None => match &self.fallback_host {
                    Some(f) => RouteDecision::Forward { host: f.clone() },
                    None => RouteDecision::Reject,
                },
            }
        }
    }

    /// Admission of one request chosen for forwarding: it draws the next id
    /// and its target is rewritten — the authority becomes the chosen host
    /// and a missing scheme is forced to `https`; method, version, headers
    /// and the path stay as they were.
    pub fn admit_request(&self, ids: &mut IdCounter, head: RequestHead, host: String) -> (r: (
        u32,
        RequestHead,
    ))
        requires
            old(ids).ids_left(),
        ensures
            (r.0, *final(ids)) == spec_fresh(*old(ids)),
            r.1@ == rewritten_head(head@, host@),
    {
        let id = ids.fresh();
        let RequestHead { method, uri, version, headers } = head;
        let uri = uri.rewrite(host);
        let admitted = RequestHead { method, uri, version, headers };
        proof {
            assert(admitted@.uri == rewritten_uri(head@.uri, host@));
        }
        (id, admitted)
    }

    /// The upstream could not be reached or failed: the error event for this
    /// request, and the 500 answer with the fixed text body the client gets.
    pub fn on_upstream_error(id: u32, msg: String) -> (r: (ProxyEvent, ResponseHead, String))
        ensures
            r.0@.id == id,
            r.0@.event == ProxyStateView::Error(msg@),
            !r.0@.callback,
            r.1.status == 500,
            r.1.version == HttpVersion::Http11,
            r.1@.headers.len() == 0,
            r.2@ == "Internal Proxy Error"@,
    {
        let event = ProxyEvent::err(id, msg);
        let head = ResponseHead {
            status: 500,
            version: HttpVersion::Http11,
            headers: Vec::new(),
        };
        proof {
            assert(head@.headers =~= Seq::<crate::headers::HeaderView>::empty());
        }
        (event, head, String::from_str("Internal Proxy Error"))
    }

    /// The fallback host for the handler of a decrypted stream: the SNI the
    /// client sent, or failing that the host of the CONNECT that opened the
    /// tunnel.
    pub fn get_host(sni: Option<String>, fallback_host: &Option<String>) -> (r: Option<String>)
        ensures
            sni is Some ==> r == sni,
            sni is None ==> opt_string_view(r) == opt_string_view(*fallback_host),
    {
        match sni {
            Some(s) => Some(s),
            None => match fallback_host {
                Some(f) => Some(f.clone()),
                None => None,
            },
        }
    }

    /// The handler that serves requests arriving inside a finished TLS
    /// session: this one, with the fallback host set for that session.
    pub fn after_tls_upgrade(&self, sni: Option<String>, connect_host: Option<String>) -> (r:
        ProxyCore)
        ensures
            sni matches Some(s) ==> opt_string_view(r.fallback_host) == Some(s@),
            sni is None ==> opt_string_view(r.fallback_host) == opt_string_view(connect_host),
            r.accept_invalid_upstream_certs == self.accept_invalid_upstream_certs,
    {
        let fallback = match sni {
            Some(s) => Some(s),
            None => connect_host,
        };
        ProxyCore {
            fallback_host: fallback,
            accept_invalid_upstream_certs: self.accept_invalid_upstream_certs,
        }
    }
}

/// One successful read inside the post-upgrade relay: which side the bytes
/// came from, and the bytes. A read of zero bytes, or a failed one, ends the
/// relay instead and never becomes one of these.
#[derive(Debug)]
pub struct ShuttleRead {
    pub from_client: bool,
    pub data: Vec<u8>,
}

/// The bytes one side contributed, laid end to end in read order.
pub open spec fn side_bytes(reads: Seq<ShuttleRead>, from_client: bool) -> Seq<u8>
    decreases reads.len(),
{
    if reads.len() == 0 {
        Seq::empty()
    } else {
        (if reads[0].from_client == from_client {
            reads[0].data@
        } else {
            Seq::empty()
        }) + side_bytes(reads.drop_first(), from_client)
    }
}

/// One more read at the end contributes its bytes at the end.
pub proof fn lemma_side_bytes_snoc(reads: Seq<ShuttleRead>, x: ShuttleRead, from_client: bool)
    ensures
        side_bytes(reads.push(x), from_client) == side_bytes(reads, from_client) + (if x.from_client
            == from_client {
            x.data@
        } else {
            Seq::<u8>::empty()
        }),
    decreases reads.len(),
{
    let extra: Seq<u8> = if x.from_client == from_client {
        x.data@
    } else {
        Seq::<u8>::empty()
    };
    if reads.len() == 0 {
        assert(reads.push(x).drop_first() =~= Seq::<ShuttleRead>::empty());
        assert(side_bytes(reads.push(x).drop_first(), from_client) == Seq::<u8>::empty());
        assert(reads.push(x)[0] == x);
        assert(side_bytes(reads.push(x), from_client) =~= side_bytes(reads, from_client) + extra);
    } else {
        let head: Seq<u8> = if reads[0].from_client == from_client {
            reads[0].data@
        } else {
            Seq::<u8>::empty()
        };
        assert(reads.push(x).drop_first() =~= reads.drop_first().push(x));
        lemma_side_bytes_snoc(reads.drop_first(), x, from_client);
        assert(reads.push(x)[0] == reads[0]);
        assert(side_bytes(reads.push(x), from_client) == head + side_bytes(
            reads.drop_first().push(x),
            from_client,
        ));
        assert(side_bytes(reads.drop_first().push(x), from_client) == side_bytes(
            reads.drop_first(),
            from_client,
        ) + extra);
        assert(side_bytes(reads, from_client) == head + side_bytes(
            reads.drop_first(),
            from_client,
        ));
        assert(side_bytes(reads.push(x), from_client) =~= side_bytes(reads, from_client) + extra);
    }
}

/// The tagged event the relay emits for one read, under this connection-wide
/// block number.
pub open spec fn shuttle_event_kind(read: ShuttleRead, number: u32) -> ProxyStateView {
    if read.from_client {
        ProxyStateView::UpgradeTx { id: number, chunk: read.data@ }
    } else {
        ProxyStateView::UpgradeRx { id: number, chunk: read.data@ }
    }
}

/// Append the bytes of one read to the right accumulator.
fn append_bytes(out: &mut Vec<u8>, data: &Vec<u8>)
    requires
        old(out)@.len() + data@.len() <= usize::MAX,
    ensures
        final(out)@ == old(out)@ + data@,
{
    let mut i: usize = 0;
    while i < data.len()
        invariant
            i <= data@.len(),
            old(out)@.len() + data@.len() <= usize::MAX,
            out@.len() == old(out)@.len() + i,
            out@ =~= old(out)@ + data@.subrange(0, i as int),
        decreases data@.len() - i,
    {
        out.push(data[i]);
        proof {
            assert(out@ =~= old(out)@ + data@.subrange(0, i + 1));
        }
        i += 1;
    }
    proof {
        assert(data@.subrange(0, data@.len() as int) =~= data@);
    }
}

/// The duplex relay that runs once both sides of a request have switched
/// protocols. It announces itself with one UpgradeOpen, then handles each
/// successful read in arrival order: the bytes are reported under the next
/// connection-wide block number — UpgradeTx for the client's side, UpgradeRx
/// for the upstream's — and written verbatim to the other side. When either
/// side ends, one UpgradeClose follows, and nothing after it.
pub fn run_shuttle(req_id: u32, reads: Vec<ShuttleRead>) -> (r: (Vec<ProxyEvent>, Vec<u8>, Vec<u8>))
    requires
        reads@.len() < u32::MAX,
        side_bytes(reads@, true).len() <= usize::MAX,
        side_bytes(reads@, false).len() <= usize::MAX,
    ensures
        events_view(r.0@).len() == reads@.len() + 2,
        events_view(r.0@)[0].id == req_id,
        events_view(r.0@)[0].event == ProxyStateView::UpgradeOpen,
        forall|j: int|
            1 <= j <= reads@.len() ==> ((#[trigger] events_view(r.0@)[j]).id == req_id
                && events_view(r.0@)[j].event == shuttle_event_kind(reads@[j - 1], (j - 1) as u32)),
        events_view(r.0@)[reads@.len() as int + 1].id == req_id,
        events_view(r.0@)[reads@.len() as int + 1].event == ProxyStateView::UpgradeClose,
        r.1@ == side_bytes(reads@, true),
        r.2@ == side_bytes(reads@, false),
{
    let mut events: Vec<ProxyEvent> = Vec::new();
    let mut to_upstream: Vec<u8> = Vec::new();
    let mut to_client: Vec<u8> = Vec::new();
    events.push(ProxyEvent::upgrade_open(req_id));
    let n = reads.len();
    let mut i: usize = 0;
    while i < n
        invariant
            n == reads@.len(),
            n < u32::MAX,
            i <= n,
            side_bytes(reads@, true).len() <= usize::MAX,
            side_bytes(reads@, false).len() <= usize::MAX,
            events@.len() == i + 1,
            events@[0]@.id == req_id,
            events@[0]@.event == ProxyStateView::UpgradeOpen,
            forall|j: int|
                1 <= j <= i ==> ((#[trigger] events@[j])@.id == req_id && events@[j]@.event
                    == shuttle_event_kind(reads@[j - 1], (j - 1) as u32)),
            to_upstream@ == side_bytes(reads@.subrange(0, i as int), true),
            to_client@ == side_bytes(reads@.subrange(0, i as int), false),
        decreases n - i,
    {
        let read = &reads[i];
        let number = i as u32;
        let event = if read.from_client {
            ProxyEvent::upgrade_tx(req_id, number, &read.data)
        } else {
            ProxyEvent::upgrade_rx(req_id, number, &read.data)
        };
        events.push(event);
        proof {
            assert(reads@.subrange(0, i + 1) =~= reads@.subrange(0, i as int).push(reads@[i as int]));
            lemma_side_bytes_snoc(reads@.subrange(0, i as int), reads@[i as int], true);
            lemma_side_bytes_snoc(reads@.subrange(0, i as int), reads@[i as int], false);
            lemma_side_bytes_prefix_len(reads@, i + 1, true);
            lemma_side_bytes_prefix_len(reads@, i + 1, false);
        }
        if read.from_client {
            append_bytes(&mut to_upstream, &read.data);
            proof {
                assert(to_client@ =~= side_bytes(reads@.subrange(0, i + 1), false));
            }
        } else {
            append_bytes(&mut to_client, &read.data);
            proof {
                assert(to_upstream@ =~= side_bytes(reads@.subrange(0, i + 1), true));
            }
        }
        i += 1;
    }
    events.push(ProxyEvent::upgrade_close(req_id));
    proof {
        assert(reads@.subrange(0, n as int) =~= reads@);
        assert forall|k: int| 0 <= k < reads@.len() + 2 implies events_view(events@)[k]
            == events@[k]@ by {}
    }
    (events, to_upstream, to_client)
}

/// A prefix contributes no more bytes than the whole.
pub proof fn lemma_side_bytes_prefix_len(reads: Seq<ShuttleRead>, n: int, from_client: bool)
    requires
        0 <= n <= reads.len(),
    ensures
        side_bytes(reads.subrange(0, n), from_client).len() <= side_bytes(reads, from_client).len(),
    decreases n,
{
    if n > 0 {
        lemma_side_bytes_prefix_len(reads, n - 1, from_client);
        lemma_side_bytes_snoc(reads.subrange(0, n - 1), reads[n - 1], from_client);
        assert(reads.subrange(0, n) =~= reads.subrange(0, n - 1).push(reads[n - 1]));
        lemma_side_bytes_suffix_contains(reads, n, from_client);
    }
}

/// The bytes of the reads from position `n` on are part of the whole: the
/// whole equals the prefix plus the rest.
pub proof fn lemma_side_bytes_suffix_contains(reads: Seq<ShuttleRead>, n: int, from_client: bool)
    requires
        0 <= n <= reads.len(),
    ensures
        side_bytes(reads, from_client) == side_bytes(reads.subrange(0, n), from_client)
            + side_bytes(reads.subrange(n, reads.len() as int), from_client),
    decreases n,
{
    if n == 0 {
        assert(reads.subrange(0, 0) =~= Seq::<ShuttleRead>::empty());
        assert(reads.subrange(0, reads.len() as int) =~= reads);
        assert(side_bytes(reads, from_client) =~= side_bytes(reads.subrange(0, 0), from_client)
            + side_bytes(reads.subrange(0, reads.len() as int), from_client));
    } else {
        lemma_side_bytes_suffix_contains(reads, n - 1, from_client);
        lemma_side_bytes_snoc(reads.subrange(0, n - 1), reads[n - 1], from_client);
        assert(reads.subrange(0, n) =~= reads.subrange(0, n - 1).push(reads[n - 1]));
        let tail_prev = reads.subrange(n - 1, reads.len() as int);
        let tail_cur = reads.subrange(n, reads.len() as int);
        assert(tail_prev.len() > 0);
        assert(tail_prev.drop_first() =~= tail_cur);
        assert(tail_prev[0] == reads[n - 1]);
        assert(side_bytes(reads, from_client) =~= side_bytes(reads.subrange(0, n), from_client)
            + side_bytes(tail_cur, from_client));
    }
}

/// The payloads of one side's upgrade events, in emission order.
pub open spec fn upgrade_payloads(evs: Seq<ProxyEventView>, from_client: bool) -> Seq<Seq<u8>>
    decreases evs.len(),
{
    if evs.len() == 0 {
        Seq::empty()
    } else {
        let rest = upgrade_payloads(evs.drop_first(), from_client);
        match evs[0].event {
            ProxyStateView::UpgradeTx { id, chunk } => if from_client {
                seq![chunk] + rest
            } else {
                rest
            },
            ProxyStateView::UpgradeRx { id, chunk } => if !from_client {
                seq![chunk] + rest
            } else {
                rest
            },
            _ => rest,
        }
    }
}

/// The middle of a shuttle trace carries exactly each side's blocks, in order.
proof fn lemma_shuttle_payloads(
    evs: Seq<ProxyEventView>,
    reads: Seq<ShuttleRead>,
    base: int,
    from_client: bool,
)
    requires
        evs.len() == reads.len(),
        forall|i: int|
            0 <= i < reads.len() ==> (#[trigger] evs[i]).event == shuttle_event_kind(
                reads[i],
                ((base + i) as u32),
            ),
        base >= 0,
        base + reads.len() < u32::MAX,
    ensures
        concat_bytes(upgrade_payloads(evs, from_client)) == side_bytes(reads, from_client),
    decreases evs.len(),
{
    if evs.len() > 0 {
        assert(evs[0].event == shuttle_event_kind(reads[0], base as u32));
        assert forall|i: int| 0 <= i < reads.drop_first().len() implies (#[trigger] evs.drop_first()[i]).event
            == shuttle_event_kind(reads.drop_first()[i], (((base + 1) + i) as u32)) by {
            assert(evs.drop_first()[i] == evs[i + 1]);
            assert(reads.drop_first()[i] == reads[i + 1]);
        }
        lemma_shuttle_payloads(evs.drop_first(), reads.drop_first(), base + 1, from_client);
        let p = upgrade_payloads(evs.drop_first(), from_client);
        if reads[0].from_client == from_client {
            let d0 = reads[0].data@;
            assert(upgrade_payloads(evs, from_client) == seq![d0] + p);
            assert((seq![d0] + p)[0] == d0);
            assert((seq![d0] + p).drop_first() =~= p);
            assert(concat_bytes(seq![d0] + p) == d0 + concat_bytes(p));
            assert(side_bytes(reads, from_client) == d0 + side_bytes(
                reads.drop_first(),
                from_client,
            ));
        } else {
            assert(upgrade_payloads(evs, from_client) == p);
            assert(side_bytes(reads, from_client) == Seq::<u8>::empty() + side_bytes(
                reads.drop_first(),
                from_client,
            ));
            assert(Seq::<u8>::empty() + side_bytes(reads.drop_first(), from_client) =~= side_bytes(
                reads.drop_first(),
                from_client,
            ));
        }
    }
}

/// An event that is no upgrade block at the end changes nothing.
proof fn lemma_upgrade_payloads_snoc_other(
    evs: Seq<ProxyEventView>,
    x: ProxyEventView,
    from_client: bool,
)
    requires
        !(x.event matches ProxyStateView::UpgradeTx { .. }),
        !(x.event matches ProxyStateView::UpgradeRx { .. }),
    ensures
        upgrade_payloads(evs.push(x), from_client) == upgrade_payloads(evs, from_client),
    decreases evs.len(),
{
    if evs.len() == 0 {
        assert(evs.push(x).drop_first() =~= Seq::<ProxyEventView>::empty());
        assert(evs.push(x)[0] == x);
        assert(upgrade_payloads(evs.push(x).drop_first(), from_client) == Seq::<
            Seq<u8>,
        >::empty());
        assert(upgrade_payloads(evs.push(x), from_client) =~= upgrade_payloads(evs, from_client));
    } else {
        assert(evs.push(x).drop_first() =~= evs.drop_first().push(x));
        lemma_upgrade_payloads_snoc_other(evs.drop_first(), x, from_client);
        assert(evs.push(x)[0] == evs[0]);
        assert(upgrade_payloads(evs.push(x).drop_first(), from_client) == upgrade_payloads(
            evs.drop_first(),
            from_client,
        ));
        match evs[0].event {
            ProxyStateView::UpgradeTx { id, chunk } => {
                if from_client {
                    assert(upgrade_payloads(evs.push(x), from_client) =~= seq![chunk]
                        + upgrade_payloads(evs.drop_first(), from_client));
                    assert(upgrade_payloads(evs, from_client) =~= seq![chunk] + upgrade_payloads(
                        evs.drop_first(),
                        from_client,
                    ));
                }
            },
            ProxyStateView::UpgradeRx { id, chunk } => {
                if !from_client {
                    assert(upgrade_payloads(evs.push(x), from_client) =~= seq![chunk]
                        + upgrade_payloads(evs.drop_first(), from_client));
                    assert(upgrade_payloads(evs, from_client) =~= seq![chunk] + upgrade_payloads(
                        evs.drop_first(),
                        from_client,
                    ));
                }
            },
            _ => {},
        }
        assert(upgrade_payloads(evs.push(x), from_client) =~= upgrade_payloads(evs, from_client));
    }
}

/// Upgrade transparency: over a whole shuttle trace — UpgradeOpen, one tagged
/// event per block, UpgradeClose — the UpgradeTx payloads concatenated are
/// byte for byte what the client sent after the upgrade, and the UpgradeRx
/// payloads likewise what the upstream sent.
pub proof fn lemma_upgrade_transparency(evs: Seq<ProxyEventView>, reads: Seq<ShuttleRead>)
    requires
        evs.len() == reads.len() + 2,
        evs[0].event == ProxyStateView::UpgradeOpen,
        forall|j: int|
            1 <= j <= reads.len() ==> (#[trigger] evs[j]).event == shuttle_event_kind(
                reads[j - 1],
                (j - 1) as u32,
            ),
        evs[reads.len() as int + 1].event == ProxyStateView::UpgradeClose,
        reads.len() < u32::MAX,
    ensures
        concat_bytes(upgrade_payloads(evs, true)) == side_bytes(reads, true),
        concat_bytes(upgrade_payloads(evs, false)) == side_bytes(reads, false),
{
    let mid = evs.subrange(1, reads.len() as int + 1);
    assert forall|i: int| 0 <= i < reads.len() implies (#[trigger] mid[i]).event
        == shuttle_event_kind(reads[i], ((0 + i) as u32)) by {
        assert(mid[i] == evs[i + 1]);
    }
    lemma_shuttle_payloads(mid, reads, 0, true);
    lemma_shuttle_payloads(mid, reads, 0, false);
    let close = evs[reads.len() as int + 1];
    assert(evs.drop_first() =~= mid.push(close));
    lemma_upgrade_payloads_snoc_other(mid, close, true);
    lemma_upgrade_payloads_snoc_other(mid, close, false);
    assert(upgrade_payloads(evs, true) =~= upgrade_payloads(evs.drop_first(), true));
    assert(upgrade_payloads(evs, false) =~= upgrade_payloads(evs.drop_first(), false));
}

} // verus!

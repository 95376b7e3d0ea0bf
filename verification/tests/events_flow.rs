use mitm_proxy::body::{run_stream, InnerStreamBody, StreamBody};
use mitm_proxy::bus::{EventBus, RecvOutcome};
use mitm_proxy::event::{ProxyEvent, ProxyState};
use mitm_proxy::flow::{run_request, run_response};
use mitm_proxy::headers::{Header, HttpVersion};
use mitm_proxy::proxy::{run_shuttle, ShuttleRead};
use mitm_proxy::request::RequestHead;
use mitm_proxy::response::ResponseHead;
use mitm_proxy::uri::UriParts;

fn get_head(path: &str) -> RequestHead {
    RequestHead {
        method: "GET".to_string(),
        uri: UriParts {
            scheme: Some("http".to_string()),
            authority: Some("example.com".to_string()),
            path_and_query: path.to_string(),
        },
        version: HttpVersion::Http11,
        headers: vec![Header { name: "host".to_string(), value: b"example.com".to_vec() }],
    }
}

fn ok_head() -> ResponseHead {
    ResponseHead { status: 200, version: HttpVersion::Http11, headers: Vec::new() }
}

#[test]
fn plain_get_emits_head_then_done_and_nothing_else() {
    let (events, upstream_head, upstream_chunks) =
        run_request(get_head("/"), 1, None, &Vec::new(), Vec::new());
    assert_eq!(events.len(), 2);
    assert_eq!(events[0].id, 1);
    assert!(matches!(events[0].event, ProxyState::RequestHead(_)));
    assert!(events[0].callback);
    assert_eq!(events[1].id, 1);
    assert!(matches!(events[1].event, ProxyState::RequestDone));
    assert!(!events[1].callback);
    assert_eq!(upstream_head.method, "GET");
    assert_eq!(upstream_head.uri.path_and_query, "/");
    assert!(upstream_chunks.is_empty());
}

#[test]
fn response_streams_chunks_in_order_and_closes_once() {
    let chunks = vec![b"hel".to_vec(), b"lo".to_vec()];
    let replies = vec![None, None];
    let (events, client_head, client_chunks) =
        run_response(ok_head(), 4, None, &chunks, replies);
    assert_eq!(events.len(), 4);
    assert!(matches!(events[0].event, ProxyState::ResponseHead(_)));
    match &events[1].event {
        ProxyState::ResponseChunk(c) => assert_eq!(c, b"hel"),
        other => panic!("expected a chunk, got {:?}", other),
    }
    match &events[2].event {
        ProxyState::ResponseChunk(c) => assert_eq!(c, b"lo"),
        other => panic!("expected a chunk, got {:?}", other),
    }
    assert!(matches!(events[3].event, ProxyState::ResponseDone));
    assert_eq!(client_head.status, 200);
    let received: Vec<u8> = client_chunks.concat();
    assert_eq!(received, b"hello");
}

#[test]
fn head_edit_reaches_upstream_and_mismatched_reply_does_not() {
    let mut replacement = get_head("/replaced");
    replacement.method = "POST".to_string();
    let reply = Some(ProxyState::RequestHead(replacement));
    let (_, upstream_head, _) = run_request(get_head("/original"), 2, reply, &Vec::new(), Vec::new());
    assert_eq!(upstream_head.uri.path_and_query, "/replaced");
    assert_eq!(upstream_head.method, "POST");

    let mismatched = Some(ProxyState::Msg("not a head".to_string()));
    let (_, upstream_head, _) =
        run_request(get_head("/original"), 3, mismatched, &Vec::new(), Vec::new());
    assert_eq!(upstream_head.uri.path_and_query, "/original");
    assert_eq!(upstream_head.method, "GET");
}

#[test]
fn added_header_reaches_upstream_and_chunks_stay_unchanged() {
    let mut edited = get_head("/");
    edited.headers.push(Header { name: "x-test".to_string(), value: b"1".to_vec() });
    let reply = Some(ProxyState::RequestHead(edited));
    let chunks = vec![b"payload".to_vec()];
    let replies = vec![None];
    let (_, upstream_head, upstream_chunks) = run_request(get_head("/"), 7, reply, &chunks, replies);
    assert!(upstream_head
        .headers
        .iter()
        .any(|h| h.name == "x-test" && h.value == b"1"));
    assert_eq!(upstream_chunks[0], b"payload");
}

#[test]
fn chunk_events_carry_pre_edit_bytes_and_downstream_gets_post_edit() {
    let chunks = vec![b"secret".to_vec()];
    let replies = vec![Some(ProxyState::RequestChunk(b"edited".to_vec()))];
    let (events, _, upstream_chunks) = run_request(get_head("/"), 5, None, &chunks, replies);
    match &events[1].event {
        ProxyState::RequestChunk(c) => assert_eq!(c, b"secret"),
        other => panic!("expected a chunk, got {:?}", other),
    }
    assert_eq!(upstream_chunks.len(), 1);
    assert_eq!(upstream_chunks[0], b"edited");
}

#[test]
fn mismatched_chunk_reply_is_ignored() {
    let chunks = vec![b"keep".to_vec()];
    let replies = vec![Some(ProxyState::ResponseChunk(b"wrong kind".to_vec()))];
    let (_, _, upstream_chunks) = run_request(get_head("/"), 6, None, &chunks, replies);
    assert_eq!(upstream_chunks[0], b"keep");
}

#[test]
fn body_close_emits_done_exactly_once() {
    let mut body = StreamBody::stream_request(9);
    let mut inner: InnerStreamBody = body.try_take().expect("first take succeeds");
    assert!(body.try_take().is_none(), "the body is single-consumer");
    let first = inner.close().expect("first close emits the done event");
    assert_eq!(first.id, 9);
    assert!(matches!(first.event, ProxyState::RequestDone));
    assert!(inner.close().is_none(), "a second close emits nothing");
}

#[test]
fn interrupted_stream_still_ends_with_done() {
    let mut body = StreamBody::stream_response(11);
    let mut inner = body.try_into_body().expect("body not yet consumed");
    let chunks = vec![b"partial".to_vec()];
    let replies = vec![None];
    let (events, outs) = run_stream(&mut inner, &chunks, replies);
    assert_eq!(events.len(), 2);
    assert!(matches!(events[1].event, ProxyState::ResponseDone));
    assert_eq!(outs[0], b"partial");
    assert!(inner.close().is_none(), "the destructor path does not emit a second done");
}

#[test]
fn shuttle_relays_each_side_byte_for_byte() {
    let reads = vec![
        ShuttleRead { from_client: true, data: b"ab".to_vec() },
        ShuttleRead { from_client: false, data: b"cd".to_vec() },
        ShuttleRead { from_client: true, data: b"e".to_vec() },
    ];
    let (events, to_upstream, to_client) = run_shuttle(21, reads);
    assert_eq!(events.len(), 5);
    assert!(matches!(events[0].event, ProxyState::UpgradeOpen));
    match &events[1].event {
        ProxyState::UpgradeTx { id, chunk } => {
            assert_eq!(*id, 0);
            assert_eq!(chunk, b"ab");
        }
        other => panic!("expected client bytes, got {:?}", other),
    }
    match &events[2].event {
        ProxyState::UpgradeRx { id, chunk } => {
            assert_eq!(*id, 1);
            assert_eq!(chunk, b"cd");
        }
        other => panic!("expected upstream bytes, got {:?}", other),
    }
    match &events[3].event {
        ProxyState::UpgradeTx { id, chunk } => {
            assert_eq!(*id, 2);
            assert_eq!(chunk, b"e");
        }
        other => panic!("expected client bytes, got {:?}", other),
    }
    assert!(matches!(events[4].event, ProxyState::UpgradeClose));
    assert!(events.iter().all(|e| e.id == 21));
    assert_eq!(to_upstream, b"abe");
    assert_eq!(to_client, b"cd");
}

#[test]
fn bus_gives_every_event_to_a_keeping_up_subscriber() {
    let mut bus = EventBus::new(128);
    let sub = bus.subscribe();
    bus.send(ProxyEvent::req_done(1));
    bus.send(ProxyEvent::resp_done(1));
    match bus.recv(sub) {
        RecvOutcome::Item(i) => {
            assert_eq!(i, 0);
            assert!(matches!(bus.event_at(i).event, ProxyState::RequestDone));
        }
        other => panic!("expected the first event, got {:?}", other),
    }
    match bus.recv(sub) {
        RecvOutcome::Item(i) => assert_eq!(i, 1),
        other => panic!("expected the second event, got {:?}", other),
    }
    assert!(matches!(bus.recv(sub), RecvOutcome::Empty));
    assert_eq!(bus.lag(sub), 0);
}

#[test]
fn late_subscriber_sees_only_later_events() {
    let mut bus = EventBus::new(128);
    bus.send(ProxyEvent::msg("early".to_string()));
    let sub = bus.subscribe();
    bus.send(ProxyEvent::msg("late".to_string()));
    match bus.recv(sub) {
        RecvOutcome::Item(i) => {
            assert_eq!(i, 1);
            match &bus.event_at(i).event {
                ProxyState::Msg(m) => assert_eq!(m, "late"),
                other => panic!("expected a message, got {:?}", other),
            }
        }
        other => panic!("expected the late event, got {:?}", other),
    }
}

#[test]
fn slow_subscriber_lags_and_the_sender_never_blocks() {
    let mut bus = EventBus::new(2);
    let sub = bus.subscribe();
    for i in 0..5u32 {
        bus.send(ProxyEvent::req_done(i + 1));
    }
    match bus.recv(sub) {
        RecvOutcome::Lagged(n) => assert_eq!(n, 3),
        other => panic!("expected a lag report, got {:?}", other),
    }
    assert_eq!(bus.lag(sub), 3);
    match bus.recv(sub) {
        RecvOutcome::Item(i) => assert_eq!(i, 3),
        other => panic!("expected the oldest retained event, got {:?}", other),
    }
    match bus.recv(sub) {
        RecvOutcome::Item(i) => assert_eq!(i, 4),
        other => panic!("expected the newest event, got {:?}", other),
    }
    assert!(matches!(bus.recv(sub), RecvOutcome::Empty));
}

#[test]
fn shutdown_is_published_under_id_zero() {
    let mut bus = EventBus::new(4);
    let sub = bus.subscribe();
    bus.shutdown();
    match bus.recv(sub) {
        RecvOutcome::Item(i) => {
            let ev = bus.event_at(i);
            assert_eq!(ev.id, 0);
            assert!(matches!(ev.event, ProxyState::Shutdown));
        }
        other => panic!("expected the shutdown event, got {:?}", other),
    }
}

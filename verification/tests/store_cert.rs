use mitm_proxy::bus::EventBus;
use mitm_proxy::cert::{root_params, CertResolver, CertStore, LoadPlan, SignatureDigest};
use mitm_proxy::event::{ProxyEvent, ProxyState};
use mitm_proxy::headers::{Header, HttpVersion};
use mitm_proxy::proxy::ProxyConfig;
use mitm_proxy::request::RequestHead;
use mitm_proxy::response::ResponseHead;
use mitm_proxy::store::{clamp_range, sidebar_line, PumpOutcome, Store, StoredResult};
use mitm_proxy::uri::UriParts;

use std::sync::Arc;

fn req_head(path: &str) -> RequestHead {
    RequestHead {
        method: "GET".to_string(),
        uri: UriParts {
            scheme: Some("https".to_string()),
            authority: Some("example.com".to_string()),
            path_and_query: path.to_string(),
        },
        version: HttpVersion::Http11,
        headers: vec![Header { name: "accept".to_string(), value: b"*/*".to_vec() }],
    }
}

fn resp_head(status: u16) -> ResponseHead {
    ResponseHead { status, version: HttpVersion::Http11, headers: Vec::new() }
}

#[test]
fn store_folds_one_exchange() {
    let mut store = Store::new();
    store.apply_event(1, ProxyState::RequestHead(req_head("/")));
    store.apply_event(1, ProxyState::RequestChunk(b"ab".to_vec()));
    store.apply_event(1, ProxyState::RequestChunk(b"cd".to_vec()));
    store.apply_event(1, ProxyState::RequestDone);
    store.apply_event(1, ProxyState::ResponseHead(resp_head(200)));
    store.apply_event(1, ProxyState::ResponseChunk(b"ok".to_vec()));
    store.apply_event(1, ProxyState::ResponseDone);
    assert_eq!(store.size(), Some(1));
    let pair = &store.cache[0];
    let req = pair.request.as_ref().expect("the request half is filled");
    assert_eq!(req.body, b"abcd");
    assert!(matches!(req.status, StoredResult::Done));
    let resp = pair.response.as_ref().expect("the response half is filled");
    assert_eq!(resp.head.status, 200);
    assert_eq!(resp.body, b"ok");
    assert!(matches!(resp.status, StoredResult::Done));
    let (req_status, resp_status) = store.get_status(0).expect("the pair exists");
    assert!(matches!(req_status, StoredResult::Done));
    assert!(matches!(resp_status, StoredResult::Done));
}

#[test]
fn store_pads_missed_requests_and_never_overwrites() {
    let mut store = Store::new();
    store.apply_event(3, ProxyState::RequestHead(req_head("/third")));
    assert_eq!(store.size(), Some(3));
    assert!(store.cache[0].request.is_none());
    assert!(store.cache[1].request.is_none());
    assert!(store.cache[2].request.is_some());

    store.apply_event(3, ProxyState::RequestHead(req_head("/imposter")));
    let kept = store.cache[2].request.as_ref().unwrap();
    assert_eq!(kept.head.uri.path_and_query, "/third");
}

#[test]
fn store_ignores_bus_wide_news_and_unknown_slots() {
    let mut store = Store::new();
    store.apply_event(0, ProxyState::Msg("hello".to_string()));
    store.apply_event(0, ProxyState::Shutdown);
    store.apply_event(5, ProxyState::RequestChunk(b"lost".to_vec()));
    store.apply_event(5, ProxyState::RequestDone);
    assert_eq!(store.size(), Some(0));
}

#[test]
fn error_marks_the_latest_half() {
    let mut store = Store::new();
    store.apply_event(1, ProxyState::RequestHead(req_head("/")));
    store.apply_event(1, ProxyState::Error("connection refused".to_string()));
    match &store.cache[0].request.as_ref().unwrap().status {
        StoredResult::Error(m) => assert!(m.contains("connection")),
        other => panic!("expected the request marked failed, got {:?}", other),
    }
    store.apply_event(1, ProxyState::ResponseHead(resp_head(502)));
    store.apply_event(1, ProxyState::Error("upstream hung up".to_string()));
    match &store.cache[0].response.as_ref().unwrap().status {
        StoredResult::Error(m) => assert!(m.contains("hung up")),
        other => panic!("expected the response marked failed, got {:?}", other),
    }
}

#[test]
fn store_pumps_events_from_the_bus() {
    let mut bus = EventBus::new(16);
    let mut store = Store::new();
    store.subscribe(&mut bus);
    bus.send(ProxyEvent::req_head(1, &req_head("/live")));
    bus.send(ProxyEvent::req_done(1));
    assert_eq!(store.pump(&mut bus), PumpOutcome::Applied);
    assert_eq!(store.pump(&mut bus), PumpOutcome::Applied);
    assert_eq!(store.pump(&mut bus), PumpOutcome::Idle);
    let req = store.cache[0].request.as_ref().unwrap();
    assert_eq!(req.head.uri.path_and_query, "/live");
    assert!(matches!(req.status, StoredResult::Done));
}

#[test]
fn store_reports_lag_when_it_falls_behind() {
    let mut bus = EventBus::new(1);
    let mut store = Store::new();
    store.subscribe(&mut bus);
    bus.send(ProxyEvent::req_done(1));
    bus.send(ProxyEvent::req_done(2));
    bus.send(ProxyEvent::req_done(3));
    assert_eq!(store.pump(&mut bus), PumpOutcome::LaggedBy(2));
    assert_eq!(store.pump(&mut bus), PumpOutcome::Applied);
}

#[test]
fn clamp_range_stays_inside_the_cache() {
    assert_eq!(clamp_range(0, 10, 4), (0, 4));
    assert_eq!(clamp_range(2, 3, 4), (2, 3));
    assert_eq!(clamp_range(9, 12, 4), (3, 4));
    assert_eq!(clamp_range(3, 1, 4), (3, 3));
    assert_eq!(clamp_range(7, 9, 0), (0, 0));
}

#[test]
fn sidebar_lines_fit_the_column() {
    assert_eq!(sidebar_line(&"GET".to_string(), &"/index.html".to_string(), 30), "GET /index.html");
    assert_eq!(
        sidebar_line(&"GET".to_string(), &"/a/very/long/path/indeed".to_string(), 16),
        "GET /a/very/..."
    );
    assert_eq!(sidebar_line(&"OPTIONS".to_string(), &"/x".to_string(), 4), "OPTIONS ...");
}

fn generated_root() -> (Vec<u8>, Vec<u8>) {
    let rsa = openssl::rsa::Rsa::generate(2048).unwrap();
    let key = openssl::pkey::PKey::from_rsa(rsa).unwrap();
    let mut name = openssl::x509::X509NameBuilder::new().unwrap();
    name.append_entry_by_text("CN", "localhost").unwrap();
    name.append_entry_by_text("O", "proxy").unwrap();
    let name = name.build();
    let mut cert = openssl::x509::X509Builder::new().unwrap();
    cert.set_version(2).unwrap();
    cert.set_not_before(&openssl::asn1::Asn1Time::days_from_now(0).unwrap()).unwrap();
    cert.set_not_after(&openssl::asn1::Asn1Time::days_from_now(365).unwrap()).unwrap();
    cert.set_issuer_name(&name).unwrap();
    cert.set_subject_name(&name).unwrap();
    cert.set_pubkey(&key).unwrap();
    cert.sign(&key, openssl::hash::MessageDigest::sha512()).unwrap();
    let cert = cert.build();
    (cert.to_pem().unwrap(), key.private_key_to_der().unwrap())
}

#[test]
fn persisted_root_is_adopted_and_corrupt_files_force_a_fresh_one() {
    let (cert_pem, key_der) = generated_root();

    let first = CertStore::try_load(&cert_pem, &key_der);
    assert!(first.is_some(), "a valid pair is adopted");
    let second = CertStore::try_load(&cert_pem, &key_der);
    assert!(second.is_some(), "the same files are adopted again on a second start");

    assert!(CertStore::try_load(&b"not a cert".to_vec(), &key_der).is_none());
    assert!(CertStore::try_load(&cert_pem, &b"not a key".to_vec()).is_none());

    match CertStore::load_plan(Some(cert_pem.clone()), Some(key_der.clone())) {
        LoadPlan::Loaded(_) => {}
        LoadPlan::CreateFresh => panic!("a valid pair must be adopted"),
    }
    match CertStore::load_plan(None, Some(key_der.clone())) {
        LoadPlan::CreateFresh => {}
        LoadPlan::Loaded(_) => panic!("a missing certificate forces a fresh root"),
    }
    match CertStore::load_plan(Some(cert_pem), None) {
        LoadPlan::CreateFresh => {}
        LoadPlan::Loaded(_) => panic!("a missing key forces a fresh root"),
    }
}

#[test]
fn minted_leaf_is_named_after_the_sni() {
    let (cert_pem, key_der) = generated_root();
    let store = CertStore::try_load(&cert_pem, &key_der).unwrap();
    let resolver = CertStore::build_cert(Arc::new(store), Some("connect.example".to_string()));
    let params = resolver.resolve(Some("sni.example".to_string())).unwrap();
    assert_eq!(params.common_name, "sni.example");
    assert_eq!(params.san_uri, "sni.example");
    assert_eq!(params.san_dns, "sni.example");
    assert_eq!(params.validity_days, 365);
    assert_eq!(params.serial_bits, 128);
    assert_eq!(params.x509_version, 2);
    assert!(params.eku_server_auth);
    assert!(params.eku_critical);
    assert_eq!(params.digest, SignatureDigest::Sha512);

    let fallback = resolver.resolve(None).unwrap();
    assert_eq!(fallback.common_name, "connect.example");

    let bare = CertResolver { cert_store: resolver.cert_store.clone(), fallback_host: None };
    assert!(bare.resolve(None).is_none(), "no SNI and no tunnel target fails the handshake");
}

#[test]
fn fresh_roots_follow_the_fixed_shape() {
    let params = root_params();
    assert_eq!(params.common_name, "localhost");
    assert_eq!(params.organization, "proxy");
    assert_eq!(params.validity_days, 365);
    assert_eq!(params.rsa_bits, 2048);
    assert_eq!(params.x509_version, 2);
    assert!(params.key_usage_critical);
    assert!(params.key_usage_cert_sign);
    assert!(params.key_usage_digital_signature);
    assert!(params.eku_server_auth);
    assert!(params.basic_constraints_critical);
    assert!(params.basic_constraints_ca);
    assert_eq!(params.digest, SignatureDigest::Sha512);
}

#[test]
fn one_exchange_reaches_every_subscriber_in_order() {
    let (cert_pem, key_der) = generated_root();
    let store = CertStore::try_load(&cert_pem, &key_der).unwrap();
    let mut server = ProxyConfig::default().build(store);
    let sub = server.subscribe();
    let (id, upstream_head, upstream_chunks, client_head, client_chunks) = server.proxy_exchange(
        req_head("/page"),
        "example.com".to_string(),
        None,
        &vec![b"body".to_vec()],
        vec![None],
        resp_head(200),
        None,
        &vec![b"answer".to_vec()],
        vec![None],
    );
    assert_eq!(id, 1);
    assert_eq!(upstream_head.uri.authority.as_deref(), Some("example.com"));
    assert_eq!(upstream_chunks.concat(), b"body");
    assert_eq!(client_head.status, 200);
    assert_eq!(client_chunks.concat(), b"answer");

    let mut kinds = Vec::new();
    let mut ids = Vec::new();
    loop {
        match server.bus.recv(sub) {
            mitm_proxy::bus::RecvOutcome::Item(i) => {
                let ev = server.bus.event_at(i);
                ids.push(ev.id);
                kinds.push(match &ev.event {
                    ProxyState::RequestHead(_) => "req_head",
                    ProxyState::RequestChunk(_) => "req_chunk",
                    ProxyState::RequestDone => "req_done",
                    ProxyState::ResponseHead(_) => "resp_head",
                    ProxyState::ResponseChunk(_) => "resp_chunk",
                    ProxyState::ResponseDone => "resp_done",
                    _ => "other",
                });
            }
            _ => break,
        }
    }
    assert_eq!(
        kinds,
        vec!["req_head", "req_chunk", "req_done", "resp_head", "resp_chunk", "resp_done"]
    );
    assert!(ids.iter().all(|i| *i == 1));

    let (id2, _, _, _, _) = server.proxy_exchange(
        req_head("/next"),
        "example.com".to_string(),
        None,
        &Vec::new(),
        Vec::new(),
        resp_head(404),
        None,
        &Vec::new(),
        Vec::new(),
    );
    assert!(id2 > id, "the later request draws the strictly greater id");
}

#[test]
fn a_server_is_assembled_from_its_config() {
    let (cert_pem, key_der) = generated_root();
    let store = CertStore::try_load(&cert_pem, &key_der).unwrap();
    let mut server = ProxyConfig::default().build(store);
    assert_eq!(server.ids.next, 1);
    assert_eq!(server.bus.capacity, 128);
    assert!(server.core.fallback_host.is_none());
    assert!(server.core.accept_invalid_upstream_certs);
    let sub = server.subscribe();
    assert_eq!(sub, 0);
}

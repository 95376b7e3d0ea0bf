use mitm_proxy::proxy::{IdCounter, ListenAddr, ProxyConfig, ProxyCore, RouteDecision};
use mitm_proxy::headers::{Header, HttpVersion};
use mitm_proxy::request::RequestHead;
use mitm_proxy::uri::{host_of, UriParts};
use mitm_proxy::util::{WaitOutcome, Waitpoint};

fn plain_head(method: &str, scheme: Option<&str>, authority: Option<&str>, path: &str) -> RequestHead {
    RequestHead {
        method: method.to_string(),
        uri: UriParts {
            scheme: scheme.map(|s| s.to_string()),
            authority: authority.map(|a| a.to_string()),
            path_and_query: path.to_string(),
        },
        version: HttpVersion::Http11,
        headers: vec![Header { name: "host".to_string(), value: b"example.com".to_vec() }],
    }
}

#[test]
fn waitpoint_completes_once_and_stays_done() {
    let mut w = Waitpoint::new();
    assert_eq!(w.poll(), WaitOutcome::Pending);
    assert!(w.inner.waker_registered);
    w.complete();
    assert_eq!(w.poll(), WaitOutcome::Ready);
    w.complete();
    assert_eq!(w.poll(), WaitOutcome::Ready);
}

#[test]
fn host_of_strips_userinfo_and_port() {
    assert_eq!(host_of("example.com"), "example.com");
    assert_eq!(host_of("example.com:443"), "example.com");
    assert_eq!(host_of("user@example.com:8443"), "example.com");
    assert_eq!(host_of("user@example.com"), "example.com");
}

#[test]
fn host_of_keeps_bracketed_addresses() {
    assert_eq!(host_of("[::1]:443"), "[::1]");
    assert_eq!(host_of("[2001:db8::1]"), "[2001:db8::1]");
}

#[test]
fn rewrite_forces_https_only_when_scheme_missing() {
    let uri = UriParts {
        scheme: None,
        authority: Some("old.example".to_string()),
        path_and_query: "/a?b=c".to_string(),
    };
    let r = uri.rewrite("new.example".to_string());
    assert_eq!(r.scheme.as_deref(), Some("https"));
    assert_eq!(r.authority.as_deref(), Some("new.example"));
    assert_eq!(r.path_and_query, "/a?b=c");

    let uri = UriParts {
        scheme: Some("http".to_string()),
        authority: None,
        path_and_query: "/".to_string(),
    };
    let r = uri.rewrite("h".to_string());
    assert_eq!(r.scheme.as_deref(), Some("http"));
    assert_eq!(r.authority.as_deref(), Some("h"));
}

#[test]
fn route_connect_becomes_tunnel_with_target() {
    let core = ProxyCore { fallback_host: None, accept_invalid_upstream_certs: true };
    let head = plain_head("CONNECT", None, Some("example.com:443"), "");
    match core.route(&head.method, &head.uri) {
        RouteDecision::Tunnel { connect_host } => {
            assert_eq!(connect_host.as_deref(), Some("example.com"));
        }
        other => panic!("expected a tunnel, got {:?}", other),
    }
}

#[test]
fn route_prefers_own_authority_then_fallback_then_rejects() {
    let core = ProxyCore {
        fallback_host: Some("fallback.example".to_string()),
        accept_invalid_upstream_certs: true,
    };
    let with_authority = plain_head("GET", Some("http"), Some("example.com"), "/");
    match core.route(&with_authority.method, &with_authority.uri) {
        RouteDecision::Forward { host } => assert_eq!(host, "example.com"),
        other => panic!("expected forward, got {:?}", other),
    }
    let without = plain_head("GET", None, None, "/");
    match core.route(&without.method, &without.uri) {
        RouteDecision::Forward { host } => assert_eq!(host, "fallback.example"),
        other => panic!("expected forward to fallback, got {:?}", other),
    }
    let bare = ProxyCore { fallback_host: None, accept_invalid_upstream_certs: true };
    match bare.route(&without.method, &without.uri) {
        RouteDecision::Reject => {}
        other => panic!("expected a rejection, got {:?}", other),
    }
}

#[test]
fn admitted_requests_draw_strictly_increasing_ids() {
    let core = ProxyCore { fallback_host: None, accept_invalid_upstream_certs: true };
    let mut ids = IdCounter::new(1);
    let (id1, first) = core.admit_request(
        &mut ids,
        plain_head("GET", None, None, "/one"),
        "example.com".to_string(),
    );
    let (id2, _) = core.admit_request(
        &mut ids,
        plain_head("GET", None, None, "/two"),
        "example.com".to_string(),
    );
    assert_eq!(id1, 1);
    assert_eq!(id2, 2);
    assert!(id2 > id1);
    assert_eq!(first.uri.scheme.as_deref(), Some("https"));
    assert_eq!(first.uri.authority.as_deref(), Some("example.com"));
    assert_eq!(first.uri.path_and_query, "/one");
    assert_eq!(first.method, "GET");
}

#[test]
fn upstream_failure_yields_error_event_and_fixed_500() {
    let (event, head, body) =
        ProxyCore::on_upstream_error(7, "connection refused".to_string());
    assert_eq!(event.id, 7);
    match event.event {
        mitm_proxy::event::ProxyState::Error(m) => assert!(m.contains("connection")),
        other => panic!("expected an error event, got {:?}", other),
    }
    assert!(!event.callback);
    assert_eq!(head.status, 500);
    assert_eq!(body, "Internal Proxy Error");
}

#[test]
fn tls_fallback_prefers_sni_over_connect_host() {
    let core = ProxyCore { fallback_host: None, accept_invalid_upstream_certs: true };
    let with_sni = core.after_tls_upgrade(
        Some("sni.example".to_string()),
        Some("connect.example".to_string()),
    );
    assert_eq!(with_sni.fallback_host.as_deref(), Some("sni.example"));
    let without_sni = core.after_tls_upgrade(None, Some("connect.example".to_string()));
    assert_eq!(without_sni.fallback_host.as_deref(), Some("connect.example"));
    let neither = core.after_tls_upgrade(None, None);
    assert_eq!(neither.fallback_host, None);
}

#[test]
fn config_defaults_match_the_stock_setup() {
    let conf = ProxyConfig::default();
    assert_eq!(conf.pubkey_path, "data/cert");
    assert_eq!(conf.privkey_path, "data/key");
    let ListenAddr { ip, port } = conf.listen;
    assert_eq!(ip, [0, 0, 0, 0]);
    assert_eq!(port, 1337);
    assert_eq!(conf.starting_id, 1);
}

use nanoproxy::credentials::{CredentialProvider, CredentialRule, Credentials};
use nanoproxy::error::ProxyError;
use nanoproxy::models::{
    parse_log_level, serialize_headers, HttpVersion, LogLevel, Opts, ProxyConnection, ProxyMethod,
    UpstreamDialer,
};
use nanoproxy::route::{parse_proxy_route, ProxyRoute};
use nanoproxy::service::{
    header_end, plan_dial, request_target, tunnel_established, tunnel_request, ClientProxy,
    ConnectDecision, HttpDecision, ProxyService, ReqwestHttpClient,
};
use nanoproxy::tracker::ConnectionTracker;

fn service() -> ProxyService {
    let rules = vec![CredentialRule {
        remote_pattern: "127.0.0.1".to_string(),
        username: "u".to_string(),
        password: "p".to_string(),
    }];
    ProxyService::new(CredentialProvider::new(rules).unwrap(), ConnectionTracker::new())
}

#[test]
fn connect_direct_is_accepted_and_tracked() {
    let mut s = service();
    match s.handle_connect_request(ProxyRoute::Direct, "google.com:443".to_string(), 7) {
        ConnectDecision::Accept { route, credentials, connection_id } => {
            assert!(route.is_direct());
            assert!(credentials.is_none());
            assert_ne!(connection_id, 0);
            let active = s.tracker.get_active_connections();
            assert_eq!(active.len(), 1);
            assert_eq!(active[0].id, connection_id);
            assert_eq!(active[0].method, "CONNECT");
            assert_eq!(active[0].route, "direct");
            s.close_connection(connection_id, 9);
            assert_eq!(s.tracker.get_active_connections().len(), 0);
        }
        ConnectDecision::Rejected { .. } => panic!("Should not be rejected"),
    }
}

#[test]
fn connect_blocked_is_rejected_without_record() {
    let mut s = service();
    let blocked = ProxyRoute::Blocked { reason: "Test block reason".to_string() };
    match s.handle_connect_request(blocked, "example.com:443".to_string(), 0) {
        ConnectDecision::Accept { .. } => panic!("Should be rejected"),
        ConnectDecision::Rejected { reason } => {
            assert_eq!(reason, "Test block reason");
            assert_eq!(s.tracker.connection_count(), 0);
        }
    }
}

#[test]
fn connect_upstream_carries_proxy_credentials() {
    let mut s = service();
    let route = parse_proxy_route("http://127.0.0.1:19996").unwrap();
    match s.handle_connect_request(route, "httpbin.org:80".to_string(), 0) {
        ConnectDecision::Accept { credentials, .. } => {
            let c = credentials.unwrap();
            assert_eq!(c.username, "u");
            assert_eq!(c.to_basic_auth(), "Basic dTpw");
        }
        ConnectDecision::Rejected { .. } => panic!("Should not be rejected"),
    }
}

#[test]
fn credentials_follow_the_proxy_host_only() {
    let mut s = service();
    assert!(s.get_credentials_for_route(&ProxyRoute::Direct).is_none());
    let blocked = ProxyRoute::Blocked { reason: "test".to_string() };
    assert!(s.get_credentials_for_route(&blocked).is_none());
    let other = parse_proxy_route("http://10.0.0.1:3128").unwrap();
    assert!(s.get_credentials_for_route(&other).is_none());
}

#[test]
fn http_forbidden_or_forwarded() {
    let mut s = service();
    let blocked = ProxyRoute::Blocked { reason: "no".to_string() };
    assert!(matches!(
        s.handle_http_request(&ProxyMethod::Get, "http://example.com/".to_string(), blocked, 0),
        HttpDecision::Forbidden
    ));
    assert_eq!(s.tracker.connection_count(), 0);
    for m in [ProxyMethod::Get, ProxyMethod::Post, ProxyMethod::Put, ProxyMethod::Delete, ProxyMethod::Head] {
        let name = m.as_str().to_string();
        match s.handle_http_request(&m, "http://example.com/".to_string(), ProxyRoute::Direct, 1) {
            HttpDecision::Forward { connection_id, .. } => {
                let active = s.tracker.get_active_connections();
                assert_eq!(active.last().unwrap().method, name);
                s.close_connection(connection_id, 2);
            }
            HttpDecision::Forbidden => panic!("direct route forwarded"),
        }
    }
    assert_eq!(s.tracker.get_active_connections().len(), 0);
}

#[test]
fn dial_plan_keeps_failover_order() {
    let routes = vec![
        parse_proxy_route("http://127.0.0.1:9").unwrap(),
        parse_proxy_route("http://127.0.0.1:19997").unwrap(),
        ProxyRoute::Direct,
    ];
    let plan = plan_dial("httpbin.org", None, &routes);
    assert!(plan.blocked.is_none());
    let got: Vec<(String, u16, bool)> =
        plan.attempts.iter().map(|a| (a.host.clone(), a.port, a.is_proxy)).collect();
    assert_eq!(
        got,
        vec![
            ("127.0.0.1".to_string(), 9, true),
            ("127.0.0.1".to_string(), 19997, true),
            ("httpbin.org".to_string(), 80, false),
        ]
    );
}

#[test]
fn dial_plan_stops_at_blocked() {
    let routes = vec![
        ProxyRoute::Direct,
        ProxyRoute::Blocked { reason: "policy".to_string() },
        parse_proxy_route("http://p").unwrap(),
    ];
    let plan = plan_dial("google.com", Some(443), &routes);
    assert_eq!(plan.attempts.len(), 1);
    assert_eq!(plan.attempts[0].port, 443);
    assert_eq!(plan.blocked.as_deref(), Some("policy"));
    let upstream = vec![parse_proxy_route("http://proxy.local").unwrap()];
    let plan = plan_dial("x", None, &upstream);
    assert_eq!(plan.attempts[0].host, "proxy.local");
    assert_eq!(plan.attempts[0].port, 80);
}

#[test]
fn client_proxy_setting() {
    let client = ReqwestHttpClient::new();
    assert!(matches!(client.proxy_for(&ProxyRoute::Direct, &None), Ok(ClientProxy::NoProxy)));
    let creds = Some(Credentials::new("a".to_string(), "b".to_string()));
    let route = parse_proxy_route("http://proxy:3128").unwrap();
    match client.proxy_for(&route, &creds) {
        Ok(ClientProxy::Proxy { url, auth }) => {
            assert_eq!(url, "http://proxy:3128/");
            assert_eq!(auth.unwrap().password, "b");
        }
        _ => panic!("expected a proxy"),
    }
    let blocked = ProxyRoute::Blocked { reason: "r".to_string() };
    assert!(matches!(client.proxy_for(&blocked, &None), Err(ProxyError::ConnectionFailed(_))));
}

#[test]
fn methods_by_name() {
    assert!(matches!(ProxyMethod::from_str("get"), ProxyMethod::Get));
    assert!(matches!(ProxyMethod::from_str("Connect"), ProxyMethod::Connect));
    match ProxyMethod::from_str("propfind") {
        ProxyMethod::Other(s) => assert_eq!(s, "PROPFIND"),
        _ => panic!("expected Other"),
    }
    assert_eq!(ProxyMethod::Trace.as_str(), "TRACE");
    assert_eq!(ProxyMethod::Other("MKCOL".to_string()).as_str(), "MKCOL");
    assert_eq!(HttpVersion::Http11, HttpVersion::Http11);
}

#[test]
fn log_levels() {
    assert_eq!(parse_log_level("DEBUG"), LogLevel::Debug);
    assert_eq!(parse_log_level("warn"), LogLevel::Warn);
    assert_eq!(parse_log_level("Off"), LogLevel::Off);
    assert_eq!(parse_log_level("verbose"), LogLevel::Info);
    let o = Opts::default();
    assert_eq!(o.port, 8888);
    assert!(!o.no_greeting);
}

#[test]
fn header_block() {
    let h = vec![
        ("host".to_string(), "example.com".to_string()),
        ("Proxy-Authorization".to_string(), "Basic YTpi".to_string()),
    ];
    assert_eq!(serialize_headers(&h), "host: example.com\r\nProxy-Authorization: Basic YTpi");
    assert_eq!(serialize_headers(&Vec::new()), "");
}

#[test]
fn upstream_dialer_credentials() {
    let mut d = UpstreamDialer::new("proxy:3128".to_string());
    assert!(d.upstream_credentials.is_none());
    d.set_credentials("username", "password");
    assert_eq!(d.upstream, "proxy:3128");
    assert_eq!(d.upstream_credentials.as_deref(), Some("Basic dXNlcm5hbWU6cGFzc3dvcmQ="));
}

#[test]
fn connection_tags() {
    let c = ProxyConnection::NoProxy { inner: 5u8 };
    let p = c.into_proxy();
    assert!(p.is_proxy());
    let m = p.metadata("h:1".to_string());
    assert!(m.is_proxy);
    let d = p.into_direct();
    assert!(!d.is_proxy());
    match d {
        ProxyConnection::NoProxy { inner } => assert_eq!(inner, 5),
        _ => panic!("expected direct"),
    }
}

#[test]
fn upstream_tunnel_request_and_reply() {
    assert_eq!(
        tunnel_request("httpbin.org:80", &None),
        "CONNECT httpbin.org:80 HTTP/1.1\r\nHost: httpbin.org:80\r\n\r\n"
    );
    let creds = Some(Credentials::new("u".to_string(), "p".to_string()));
    assert_eq!(
        tunnel_request("google.com:443", &creds),
        "CONNECT google.com:443 HTTP/1.1\r\nHost: google.com:443\r\nProxy-Authorization: Basic dTpw\r\n\r\n"
    );
    let ok = b"HTTP/1.1 200 Connection established\r\n\r\n".to_vec();
    assert_eq!(header_end(&ok), Some(35));
    assert!(tunnel_established(&ok));
    let refused = b"HTTP/1.1 407 Proxy Authentication Required\r\n\r\n".to_vec();
    assert!(!tunnel_established(&refused));
    assert_eq!(header_end(&b"HTTP/1.1 200 OK\r\n".to_vec()), None);
}

#[test]
fn request_targets() {
    assert_eq!(request_target(true, "", false, Some("google.com:443"), None).unwrap(), "https://google.com:443/");
    assert!(matches!(request_target(true, "", false, None, Some("h")), Err(ProxyError::InvalidRequest(_))));
    assert_eq!(
        request_target(false, "http://httpbin.org/headers", true, None, Some("httpbin.org")).unwrap(),
        "http://httpbin.org/headers"
    );
    assert_eq!(request_target(false, "/x?y", false, None, Some("h:8080")).unwrap(), "http://h:8080/x?y");
    assert!(matches!(request_target(false, "/", false, None, None), Err(ProxyError::MissingHost)));
    assert!(matches!(
        request_target(false, "http://httpbin.org/headers", true, None, None),
        Err(ProxyError::MissingHost)
    ));
}

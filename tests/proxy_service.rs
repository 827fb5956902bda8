use nanoproxy::credentials::CredentialProvider;
use nanoproxy::models::ProxyMethod;
use nanoproxy::route::ProxyRoute;
use nanoproxy::service::{ConnectDecision, HttpDecision, ProxyService};
use nanoproxy::tracker::ConnectionTracker;
use nanoproxy::url::parse_url;

fn new_service() -> ProxyService {
    ProxyService::new(CredentialProvider::new(Vec::new()).unwrap(), ConnectionTracker::new())
}

fn target(url: &str) -> String {
    parse_url(url).unwrap().text
}

fn open_count(s: &ProxyService) -> usize {
    s.tracker.get_active_connections().len()
}

#[test]
fn different_http_methods() {
    let methods = vec![
        ProxyMethod::Get,
        ProxyMethod::Post,
        ProxyMethod::Put,
        ProxyMethod::Delete,
        ProxyMethod::Head,
    ];
    for method in methods {
        let mut service = new_service();
        let decision = service.handle_http_request(&method, target("http://example.com"), ProxyRoute::Direct, 0);
        assert!(matches!(decision, HttpDecision::Forward { .. }));
        assert_eq!(service.tracker.connection_count(), 1);
    }
}

#[test]
fn https_requests() {
    let mut service = new_service();
    let decision =
        service.handle_http_request(&ProxyMethod::Get, target("https://example.com/path"), ProxyRoute::Direct, 0);
    match decision {
        HttpDecision::Forward { route, .. } => assert!(route.is_direct()),
        HttpDecision::Forbidden => panic!("direct route forwarded"),
    }
}

#[test]
fn connection_tracking() {
    let mut service = new_service();
    assert_eq!(service.tracker.connection_count(), 0);
    let decision = service.handle_http_request(&ProxyMethod::Get, target("http://example.com"), ProxyRoute::Direct, 0);
    assert_eq!(service.tracker.connection_count(), 1);
    assert_eq!(open_count(&service), 1);
    if let HttpDecision::Forward { connection_id, .. } = decision {
        service.close_connection(connection_id, 1);
    }
    assert_eq!(open_count(&service), 0);
}

#[test]
fn service_direct_route() {
    let mut service = new_service();
    let decision = service.handle_connect_request(ProxyRoute::Direct, "example.com:443".to_string(), 0);
    match decision {
        ConnectDecision::Accept { route, credentials: _, connection_id: _ } => {
            assert!(route.is_direct());
            assert_eq!(service.tracker.connection_count(), 1);
        }
        ConnectDecision::Rejected { .. } => panic!("Should not be rejected"),
    }
}

#[test]
fn blocked_route() {
    let blocked_route = ProxyRoute::Blocked { reason: "Test block reason".to_string() };
    let mut service = new_service();
    let decision = service.handle_connect_request(blocked_route, "example.com:443".to_string(), 0);
    match decision {
        ConnectDecision::Accept { .. } => panic!("Should be rejected"),
        ConnectDecision::Rejected { reason } => {
            assert_eq!(reason, "Test block reason");
            assert_eq!(service.tracker.connection_count(), 0);
        }
    }
}

#[test]
fn various_ports() {
    let ports = vec!["443", "8080", "3128", "9090"];
    for port in ports {
        let mut service = new_service();
        let url = format!("https://example.com:{}", port);
        let authority = parse_url(&url).unwrap().host.unwrap() + ":" + port;
        match service.handle_connect_request(ProxyRoute::Direct, authority, 0) {
            ConnectDecision::Accept { route, .. } => assert!(route.is_direct()),
            ConnectDecision::Rejected { .. } => panic!("Should not be rejected"),
        }
    }
}

#[test]
fn connection_id_returned() {
    let mut service = new_service();
    match service.handle_connect_request(ProxyRoute::Direct, "example.com:443".to_string(), 0) {
        ConnectDecision::Accept { connection_id, .. } => {
            assert_ne!(connection_id.to_be_bytes(), [0u8; 16]);
        }
        ConnectDecision::Rejected { .. } => panic!("Should not be rejected"),
    }
}

#[test]
fn close_connection() {
    let mut service = new_service();
    service.close_connection(0x1234_5678, 5);
    assert_eq!(service.tracker.connection_count(), 0);
}

#[test]
fn get_credentials_direct_route() {
    let mut service = new_service();
    let creds = service.get_credentials_for_route(&ProxyRoute::Direct);
    assert!(creds.is_none());
}

#[test]
fn get_credentials_blocked_route() {
    let mut service = new_service();
    let blocked_route = ProxyRoute::Blocked { reason: "test".to_string() };
    let creds = service.get_credentials_for_route(&blocked_route);
    assert!(creds.is_none());
}

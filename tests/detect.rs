use nanoproxy::detect::{
    BeaconPoller, DetectorAction, DetectorState, GatewayListener, GatewayRule, PacRule,
    ResolvConfListener, ResolvConfRule,
};
use nanoproxy::error::ProxyError;
use nanoproxy::resolver::{PacProxyResolver, Resolution};

fn ip(a: u32, b: u32, c: u32, d: u32) -> u32 {
    (a << 24) | (b << 16) | (c << 8) | d
}

fn gw(pattern: &str, subnet: Option<&str>, pac: &str) -> GatewayRule {
    GatewayRule {
        default_route_interface: pattern.to_string(),
        interface_ip_subnet: subnet.map(|s| s.to_string()),
        pac_url: pac.to_string(),
        when_match: Some(format!("echo matched {}", pac)),
        when_no_match: Some(format!("echo missed {}", pac)),
    }
}

fn pushed(a: &DetectorAction) -> Option<Option<String>> {
    match a {
        DetectorAction::Unchanged => None,
        DetectorAction::Push { pac_url, .. } => Some(pac_url.clone()),
    }
}

#[test]
fn network_change_scenario() {
    let a = "http://pac.example/a.pac";
    let mut listener = GatewayListener::new(vec![gw("en0", Some("10.0.0.0/24"), a)]);
    let mut resolver = PacProxyResolver::new();

    let t0 = listener.refresh("en0", &vec![ip(10, 0, 0, 5)]).unwrap();
    assert_eq!(pushed(&t0), Some(Some(a.to_string())));
    if let DetectorAction::Push { pac_url, commands } = t0 {
        assert_eq!(commands, vec![format!("echo matched {}", a)]);
        resolver.set_pac_url(pac_url);
    }
    resolver.store_script(a, "function FindProxyForURL(u, h) { return 'DIRECT'; }".to_string());

    let t5 = listener.refresh("utun0", &vec![ip(10, 8, 0, 2)]).unwrap();
    assert_eq!(pushed(&t5), Some(None));
    if let DetectorAction::Push { pac_url, commands } = t5 {
        assert_eq!(commands, vec![format!("echo missed {}", a)]);
        resolver.set_pac_url(pac_url);
    }
    assert!(resolver.pac_url().is_none());
    assert!(matches!(resolver.resolve_all_routes(), Resolution::Routes(_)));

    let t10 = listener.refresh("utun0", &vec![ip(10, 8, 0, 2)]).unwrap();
    assert!(matches!(t10, DetectorAction::Unchanged));
}

#[test]
fn first_observation_is_always_pushed() {
    let mut listener = GatewayListener::new(vec![gw("nonexistent_interface_xyz", None, "http://p")]);
    let first = listener.refresh("eth0", &vec![]).unwrap();
    assert_eq!(pushed(&first), Some(None));
    let second = listener.refresh("eth0", &vec![]).unwrap();
    assert!(matches!(second, DetectorAction::Unchanged));
}

#[test]
fn glob_and_subnet_rules() {
    let rules = vec![
        gw("en*", Some("1.2.3.0/24"), "http://first"),
        gw("utun?", None, "http://second"),
        gw("*", Some("192.168.1.0/24"), "http://third"),
    ];
    let mut l = GatewayListener::new(rules);
    let r = l.refresh("en0", &vec![ip(192, 168, 1, 7)]).unwrap();
    assert_eq!(pushed(&r), Some(Some("http://third".to_string())));
    let r = l.refresh("utun3", &vec![]).unwrap();
    assert_eq!(pushed(&r), Some(Some("http://second".to_string())));
    let r = l.refresh("en1", &vec![ip(1, 2, 3, 4)]).unwrap();
    assert_eq!(pushed(&r), Some(Some("http://first".to_string())));
}

#[test]
fn malformed_subnet_fails_and_remembers_nothing() {
    let mut l = GatewayListener::new(vec![gw("*", Some("not-a-cidr"), "http://p")]);
    assert!(matches!(l.refresh("en0", &vec![]), Err(ProxyError::ResolutionFailed(_))));
    let mut ok = GatewayListener::new(vec![gw("en0", None, "http://p"), gw("*", Some("bad"), "http://q")]);
    assert_eq!(pushed(&ok.refresh("en0", &vec![]).unwrap()), Some(Some("http://p".to_string())));
}

#[test]
fn resolv_conf_first_nameserver_decides() {
    let rules = vec![
        ResolvConfRule {
            resolver_subnet: "10.241.52.0/24".to_string(),
            pac_url: "http://dns-pac".to_string(),
            when_match: None,
            when_no_match: Some("echo off".to_string()),
        },
    ];
    let mut l = ResolvConfListener::new(rules);
    let r = l.refresh(&vec![ip(10, 241, 52, 1), ip(8, 8, 8, 8)]).unwrap();
    assert_eq!(pushed(&r), Some(Some("http://dns-pac".to_string())));
    if let DetectorAction::Push { commands, .. } = r {
        assert!(commands.is_empty());
    }
    let r = l.refresh(&vec![ip(8, 8, 8, 8), ip(10, 241, 52, 1)]).unwrap();
    assert_eq!(pushed(&r), Some(None));
    if let DetectorAction::Push { commands, .. } = r {
        assert_eq!(commands, vec!["echo off".to_string()]);
    }
    let r = l.refresh(&vec![]).unwrap();
    assert!(matches!(r, DetectorAction::Unchanged));
}

#[test]
fn beacon_first_resolvable_wins() {
    let rules = vec![
        PacRule { beacon_host: "a:1".to_string(), pac_url: "http://a".to_string() },
        PacRule { beacon_host: "b:1".to_string(), pac_url: "http://b".to_string() },
    ];
    let mut p = BeaconPoller::new(rules);
    assert_eq!(pushed(&p.refresh(&vec![false, true])), Some(Some("http://b".to_string())));
    assert!(matches!(p.refresh(&vec![false, true]), DetectorAction::Unchanged));
    assert_eq!(pushed(&p.refresh(&vec![true, true])), Some(Some("http://a".to_string())));
    assert_eq!(pushed(&p.refresh(&vec![false, false])), Some(None));
}

#[test]
fn same_value_twice_is_pushed_once() {
    let mut s = DetectorState::new();
    assert!(s.observe(&Some("http://x".to_string())));
    assert!(!s.observe(&Some("http://x".to_string())));
    assert!(s.observe(&None));
    assert!(!s.observe(&None));
}

#[test]
fn interface_globs() {
    let cases = [
        ("*cat*", "dog_cat_dog", true),
        ("c?t", "cot", true),
        ("????", "cat", false),
        ("?", "cat", false),
        ("*d", "cat", false),
        ("en*", "en0", true),
        ("en*", "utun0", false),
        ("**0", "en0", true),
        ("EN0", "en0", false),
    ];
    for (pattern, iface, expected) in cases {
        let mut l = GatewayListener::new(vec![gw(pattern, None, "http://p")]);
        let got = pushed(&l.refresh(iface, &vec![]).unwrap());
        let want = if expected { Some(Some("http://p".to_string())) } else { Some(None) };
        assert_eq!(got, want, "{} vs {}", pattern, iface);
    }
}

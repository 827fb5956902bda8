use nanoproxy::credentials::{
    encode_credentials, strip_leading_label, CredentialProvider, CredentialRule, Credentials,
};
use nanoproxy::error::ProxyError;

fn rule(pattern: &str, user: &str, password: &str) -> CredentialRule {
    CredentialRule {
        remote_pattern: pattern.to_string(),
        username: user.to_string(),
        password: password.to_string(),
    }
}

fn user_of(c: Option<Credentials>) -> Option<String> {
    c.map(|c| c.username)
}

#[test]
fn basic_auth_header_value() {
    let c = Credentials::new("username".to_string(), "password".to_string());
    assert_eq!(c.to_basic_auth(), "Basic dXNlcm5hbWU6cGFzc3dvcmQ=");
    assert_eq!(encode_credentials("a", "b"), "Basic YTpi");
}

#[test]
fn label_stripping() {
    assert_eq!(strip_leading_label("a.b.example.net"), ".b.example.net");
    assert_eq!(strip_leading_label(".b.example.net"), ".example.net");
    assert_eq!(strip_leading_label("..x.y"), ".y");
    assert_eq!(strip_leading_label("net"), "");
    assert_eq!(strip_leading_label(""), "");
}

#[test]
fn exact_pattern_match() {
    let mut p = CredentialProvider::new(vec![rule("proxy.corp", "alice", "s1")]).unwrap();
    assert_eq!(user_of(p.get_credentials("proxy.corp")), Some("alice".to_string()));
    assert_eq!(user_of(p.get_credentials("other.corp")), None);
}

#[test]
fn dot_pattern_matches_subdomains_only() {
    let mut p = CredentialProvider::new(vec![rule(".example.net", "bob", "pw")]).unwrap();
    assert_eq!(user_of(p.get_credentials("a.example.net")), Some("bob".to_string()));
    assert_eq!(user_of(p.get_credentials("x.y.example.net")), Some("bob".to_string()));
    assert_eq!(user_of(p.get_credentials("example.net")), None);
    assert_eq!(user_of(p.get_credentials("")), None);
}

#[test]
fn later_rule_wins_for_equal_patterns() {
    let mut p = CredentialProvider::new(vec![rule("h", "first", "1"), rule("h", "second", "2")]).unwrap();
    assert_eq!(user_of(p.get_credentials("h")), Some("second".to_string()));
}

#[test]
fn lookup_is_the_same_with_and_without_memo() {
    let mut p = CredentialProvider::new(vec![rule(".corp", "carol", "pw")]).unwrap();
    let first = p.get_credentials("a.corp").map(|c| c.password);
    let second = p.get_credentials("a.corp").map(|c| c.password);
    p.clear_cache();
    let third = p.get_credentials("a.corp").map(|c| c.password);
    assert_eq!(first, Some("pw".to_string()));
    assert_eq!(first, second);
    assert_eq!(second, third);
    for h in ["b.corp", "c.corp", "d.corp", "e.corp", "f.corp", "a.corp"] {
        assert_eq!(user_of(p.get_credentials(h)), Some("carol".to_string()));
    }
}

#[test]
fn empty_password_is_refused() {
    let r = CredentialProvider::new(vec![rule("h", "u", "pw"), rule("g", "v", "")]);
    assert!(matches!(r, Err(ProxyError::AuthenticationFailed(_))));
}

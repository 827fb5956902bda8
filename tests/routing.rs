use nanoproxy::pac::{
    escape_js_string, find_proxy_call, parse_pac_result, routes_from_pac_result, routes_from_tokens,
};
use nanoproxy::resolver::{first_route, routes_for_script, PacProxyResolver, Resolution};
use nanoproxy::route::{parse_proxy_route, route_from_url, ProxyRoute};
use nanoproxy::url::parse_url;
use nanoproxy::error::ProxyError;

const PROXY_ALL: &str = "function FindProxyForURL(url, host) { return \"PROXY 127.0.0.1:19996\"; }";

#[test]
fn empty_result_is_direct() {
    assert_eq!(parse_pac_result(""), vec!["direct://"]);
    let routes = routes_from_pac_result("").unwrap();
    assert_eq!(routes.len(), 1);
    assert!(matches!(routes[0], ProxyRoute::Direct));
}

#[test]
fn bare_proxy_keyword_is_direct() {
    assert_eq!(parse_pac_result("PROXY"), vec!["direct://"]);
}

#[test]
fn directives_in_order_with_blanks_skipped() {
    let tokens = parse_pac_result(" PROXY a.example:3128 ;; DIRECT; PROXY b.example:8080 ;  ");
    assert_eq!(tokens, vec!["http://a.example:3128", "direct://", "http://b.example:8080"]);
}

#[test]
fn quotes_are_dropped_and_unknown_keywords_are_direct() {
    assert_eq!(parse_pac_result("\"PROXY p:1\"; SOCKS s:2"), vec!["http://p:1", "direct://"]);
    assert_eq!(parse_pac_result("PROXY\tq:3\n extra"), vec!["http://q:3"]);
}

#[test]
fn blank_only_result_is_direct() {
    assert_eq!(parse_pac_result(" ; ;\t"), vec!["direct://"]);
}

#[test]
fn js_escaping() {
    assert_eq!(escape_js_string("a\\b'c\nd\re\tf"), "a\\\\b\\'c\\nd\\re\\tf");
    assert_eq!(escape_js_string("plain"), "plain");
}

#[test]
fn call_expression_escapes_its_arguments() {
    assert_eq!(
        find_proxy_call("http://h/it's", "h"),
        "FindProxyForURL('http://h/it\\'s', 'h')"
    );
}

#[test]
fn url_without_host_is_invalid_uri() {
    let target = parse_url("data:text/plain,hello").unwrap();
    assert!(target.host.is_none());
    let r = nanoproxy::pac::evaluate_pac(PROXY_ALL, &target);
    assert!(matches!(r, Err(ProxyError::InvalidUri(_))));
}

#[test]
fn broken_script_is_resolution_failure() {
    let target = parse_url("http://example.com/").unwrap();
    let r = nanoproxy::pac::evaluate_pac("function FindProxyForURL(url, host) {", &target);
    assert!(matches!(r, Err(ProxyError::ResolutionFailed(_))));
}

#[test]
fn tokens_convert_to_routes() {
    let tokens = vec!["direct://".to_string(), "http://127.0.0.1:9".to_string()];
    let routes = routes_from_tokens(&tokens).unwrap();
    assert!(matches!(routes[0], ProxyRoute::Direct));
    match &routes[1] {
        ProxyRoute::Upstream { proxy_url } => {
            assert_eq!(proxy_url.host.as_deref(), Some("127.0.0.1"));
            assert_eq!(proxy_url.port, Some(9));
        }
        _ => panic!("expected an upstream route"),
    }
    let bad = vec!["direct://".to_string(), "ftp://x:1".to_string()];
    assert!(matches!(routes_from_tokens(&bad), Err(ProxyError::InvalidUri(_))));
}

#[test]
fn direct_round_trip() {
    let route = parse_proxy_route("direct://").unwrap();
    assert_eq!(route.proxy_url_form().as_deref(), Some("direct://"));
    let upstream = parse_proxy_route("http://proxy.example.com:3128").unwrap();
    let text = upstream.proxy_url_form().unwrap();
    assert_eq!(text, "http://proxy.example.com:3128/");
    let again = parse_proxy_route(&text).unwrap();
    assert_eq!(again.proxy_url_form().unwrap(), text);
}

#[test]
fn url_scheme_decides_the_route() {
    let u = parse_url("direct://anything").unwrap();
    assert!(matches!(route_from_url(u), Ok(ProxyRoute::Direct)));
    let u = parse_url("socks5://h:1").unwrap();
    assert!(matches!(route_from_url(u), Err(ProxyError::InvalidUri(_))));
    assert!(parse_proxy_route("not a url").is_err());
}

#[test]
fn route_schemes() {
    assert_eq!(ProxyRoute::Direct.scheme(), "direct");
    let blocked = ProxyRoute::Blocked { reason: "policy".to_string() };
    assert_eq!(blocked.scheme(), "blocked");
    assert!(blocked.proxy_url_form().is_none());
    let upstream = parse_proxy_route("https://p:1").unwrap();
    assert_eq!(upstream.scheme(), "https");
}

#[test]
fn no_pac_url_resolves_direct() {
    let mut resolver = PacProxyResolver::new();
    match resolver.resolve_all_routes() {
        Resolution::Routes(routes) => {
            assert_eq!(routes.len(), 1);
            assert!(routes[0].is_direct());
        }
        _ => panic!("expected [Direct]"),
    }
}

#[test]
fn pac_url_change_empties_the_cache() {
    let mut resolver = PacProxyResolver::new();
    let target = parse_url("http://httpbin.org/headers").unwrap();
    resolver.set_pac_url(Some("http://pac.example/a.pac".to_string()));
    match resolver.resolve_all_routes() {
        Resolution::FetchScript(u) => assert_eq!(u, "http://pac.example/a.pac"),
        _ => panic!("expected a fetch"),
    }
    resolver.store_script("http://pac.example/a.pac", PROXY_ALL.to_string());
    match resolver.resolve_all_routes() {
        Resolution::Evaluate(script) => {
            assert_eq!(script, PROXY_ALL);
            let routes = routes_for_script(&script, &target).unwrap();
            assert_eq!(routes.len(), 1);
            assert_eq!(routes[0].proxy_url_form().unwrap(), "http://127.0.0.1:19996/");
        }
        _ => panic!("expected the cached script"),
    }
    resolver.set_pac_url(Some("http://pac.example/b.pac".to_string()));
    assert!(matches!(resolver.resolve_all_routes(), Resolution::FetchScript(_)));
    resolver.store_script("http://pac.example/a.pac", PROXY_ALL.to_string());
    assert!(matches!(resolver.resolve_all_routes(), Resolution::FetchScript(_)));
    resolver.set_pac_url(None);
    assert!(resolver.pac_url().is_none());
    assert!(matches!(resolver.resolve_all_routes(), Resolution::Routes(_)));
}

#[test]
fn empty_script_result_resolves_direct() {
    let script = "function FindProxyForURL(url, host) { return ''; }";
    let target = parse_url("http://example.com/").unwrap();
    let routes = routes_for_script(script, &target).unwrap();
    assert_eq!(routes.len(), 1);
    assert!(routes[0].is_direct());
}

#[test]
fn failover_order_is_kept() {
    let script = "function FindProxyForURL(url, host) { return 'PROXY 127.0.0.1:9 ; PROXY 127.0.0.1:19997'; }";
    let target = parse_url("http://httpbin.org/").unwrap();
    let routes = routes_for_script(script, &target).unwrap();
    assert_eq!(routes.len(), 2);
    assert_eq!(routes[0].proxy_url_form().unwrap(), "http://127.0.0.1:9/");
    assert_eq!(routes[1].proxy_url_form().unwrap(), "http://127.0.0.1:19997/");
    let first = first_route(routes).unwrap();
    assert_eq!(first.proxy_url_form().unwrap(), "http://127.0.0.1:9/");
    assert!(matches!(first_route(Vec::new()), Err(ProxyError::ResolutionFailed(_))));
}

#[test]
fn error_messages() {
    assert_eq!(ProxyError::MissingHost.message(), "Missing host in request");
    assert_eq!(ProxyError::InvalidUri("x".to_string()).message(), "Invalid URI: x");
    assert_eq!(ProxyError::Timeout.message(), "Operation timed out");
}

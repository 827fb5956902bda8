//! Routes: how one target is reached.

use vstd::prelude::*;

use crate::error::ProxyError;
use crate::text::{chars_of, same_chars};
use crate::url::{opt_view, parse_url, url_parse_of, ParsedUrl};

verus! {

/// How a target is reached: directly, through an upstream HTTP proxy, or not at all.
pub enum ProxyRoute {
    Direct,
    Upstream { proxy_url: ParsedUrl },
    Blocked { reason: String },
}

impl Clone for ProxyRoute {
    fn clone(&self) -> (r: Self)
        ensures
            r == *self,
    {
        match self {
            ProxyRoute::Direct => ProxyRoute::Direct,
            ProxyRoute::Upstream { proxy_url } => ProxyRoute::Upstream { proxy_url: proxy_url.clone() },
            ProxyRoute::Blocked { reason } => ProxyRoute::Blocked { reason: reason.clone() },
        }
    }
}

pub open spec fn direct_text() -> Seq<char> {
    seq!['d', 'i', 'r', 'e', 'c', 't', ':', '/', '/']
}

pub open spec fn http_scheme() -> Seq<char> {
    seq!['h', 't', 't', 'p']
}

pub open spec fn https_scheme() -> Seq<char> {
    seq!['h', 't', 't', 'p', 's']
}

pub open spec fn direct_scheme() -> Seq<char> {
    seq!['d', 'i', 'r', 'e', 'c', 't']
}

/// The route named by a parsed proxy URL, or `None` where the scheme names no route.
pub open spec fn route_of_url(u: ParsedUrl) -> Option<ProxyRoute> {
    if u.scheme@ == direct_scheme() {
        Some(ProxyRoute::Direct)
    } else if u.scheme@ == http_scheme() || u.scheme@ == https_scheme() {
        Some(ProxyRoute::Upstream { proxy_url: u })
    } else {
        None
    }
}

/// What a proxy-URL token converts to: `Some(route)`, or `None` where the token is refused.
pub open spec fn token_route(t: Seq<char>, parsed: Option<ParsedUrl>) -> Option<ProxyRoute> {
    if t == direct_text() {
        Some(ProxyRoute::Direct)
    } else {
        match parsed {
            Some(u) => route_of_url(u),
            None => None,
        }
    }
}

/// A parsed URL whose model is the one that `url::Url::parse` gives for `t`.
pub open spec fn parses_to(t: Seq<char>, u: ParsedUrl) -> bool {
    url_parse_of(t) == Some(u@)
}

/// The route that a proxy-URL token names when `url::Url::parse` accepts it.
pub open spec fn token_names(t: Seq<char>, r: ProxyRoute) -> bool {
    if t == direct_text() {
        r is Direct
    } else {
        exists|u: ParsedUrl| #[trigger] parses_to(t, u) && route_of_url(u) == Some(r)
    }
}

/// Whether a proxy-URL token is refused: not `direct://`, and either not
/// a URL or a URL whose scheme names no route.
pub open spec fn token_refused(t: Seq<char>) -> bool {
    t != direct_text() && (url_parse_of(t) is None || ({
        let m = url_parse_of(t)->0;
        m.scheme != direct_scheme() && m.scheme != http_scheme() && m.scheme != https_scheme()
    }))
}

/// Converts a parsed URL into the route its scheme names.
pub fn route_from_url(u: ParsedUrl) -> (r: Result<ProxyRoute, ProxyError>)
    ensures
        route_of_url(u) is Some ==> r == Ok::<ProxyRoute, ProxyError>(route_of_url(u)->0),
        route_of_url(u) is None ==> r matches Err(ProxyError::InvalidUri(_)),
{
    let s = chars_of(u.scheme.as_str());
    let direct = chars_of("direct");
    let http = chars_of("http");
    let https = chars_of("https");
    proof {
        reveal_strlit("direct");
        reveal_strlit("http");
        reveal_strlit("https");
        assert(direct@ =~= direct_scheme());
        assert(http@ =~= http_scheme());
        assert(https@ =~= https_scheme());
    }
    if same_chars(&s, &direct) {
        Ok(ProxyRoute::Direct)
    } else if same_chars(&s, &http) || same_chars(&s, &https) {
        Ok(ProxyRoute::Upstream { proxy_url: u })
    } else {
        Err(ProxyError::InvalidUri(String::from_str("unsupported proxy scheme")))
    }
}

/// Converts a proxy-URL token (`direct://`, `http://host:port`, ...) into a route.
pub fn parse_proxy_route(proxy_url: &str) -> (r: Result<ProxyRoute, ProxyError>)
    ensures
        r is Ok ==> token_names(proxy_url@, r->Ok_0),
        r is Err ==> r matches Err(ProxyError::InvalidUri(_)),
        r is Err <==> token_refused(proxy_url@),
        proxy_url@ == direct_text() ==> r == Ok::<ProxyRoute, ProxyError>(ProxyRoute::Direct),
{
    let t = chars_of(proxy_url);
    let direct = chars_of("direct://");
    proof {
        reveal_strlit("direct://");
        assert(direct@ =~= direct_text());
    }
    if same_chars(&t, &direct) {
        return Ok(ProxyRoute::Direct);
    }
    match parse_url(proxy_url) {
        Some(u) => {
            let ghost g = u;
            let r = route_from_url(u);
            proof {
                assert(parses_to(proxy_url@, g));
            }
            r
        },
        None => Err(ProxyError::InvalidUri(String::from_str("invalid proxy URL"))),
    }
}

impl ProxyRoute {
    pub open spec fn scheme_spec(&self) -> Seq<char> {
        match self {
            ProxyRoute::Direct => direct_scheme(),
            ProxyRoute::Upstream { proxy_url } => proxy_url.scheme@,
            ProxyRoute::Blocked { .. } => seq!['b', 'l', 'o', 'c', 'k', 'e', 'd'],
        }
    }

    /// The route's scheme: `direct`, the upstream URL's scheme, or `blocked`.
    pub fn scheme(&self) -> (r: &str)
        ensures
            r@ == self.scheme_spec(),
    {
        match self {
            ProxyRoute::Direct => {
                proof {
                    reveal_strlit("direct");
                }
                "direct"
            },
            ProxyRoute::Upstream { proxy_url } => proxy_url.scheme.as_str(),
            ProxyRoute::Blocked { .. } => {
                proof {
                    reveal_strlit("blocked");
                }
                "blocked"
            },
        }
    }

    pub fn is_direct(&self) -> (r: bool)
        ensures
            r == (self is Direct),
    {
        matches!(self, ProxyRoute::Direct)
    }

    pub fn is_blocked(&self) -> (r: bool)
        ensures
            r == (self is Blocked),
    {
        matches!(self, ProxyRoute::Blocked { .. })
    }

    pub open spec fn proxy_url_form_spec(&self) -> Option<Seq<char>> {
        match self {
            ProxyRoute::Direct => Some(direct_text()),
            ProxyRoute::Upstream { proxy_url } => Some(proxy_url.text@),
            ProxyRoute::Blocked { .. } => None,
        }
    }

    /// The route written back as a proxy URL: `direct://`, the upstream URL's
    /// text, or `None` for a blocked route.
    pub fn proxy_url_form(&self) -> (r: Option<String>)
        ensures
            opt_view(r) == self.proxy_url_form_spec(),
    {
        match self {
            ProxyRoute::Direct => {
                proof {
                    reveal_strlit("direct://");
                }
                Some(String::from_str("direct://"))
            },
            ProxyRoute::Upstream { proxy_url } => Some(proxy_url.text.clone()),
            ProxyRoute::Blocked { .. } => None,
        }
    }
}

/// A `direct://` token converts to the direct route, whose proxy-URL form
/// is `direct://` again.
pub proof fn lemma_direct_round_trip(r: ProxyRoute)
    requires
        token_names(direct_text(), r),
    ensures
        r is Direct,
        r.proxy_url_form_spec() == Some(direct_text()),
{
}

/// An upstream route written as its proxy URL, where the URL is parsed back
/// to the same parts, converts to the same route.
pub proof fn lemma_upstream_round_trip(u: ParsedUrl)
    requires
        u.scheme@ == http_scheme() || u.scheme@ == https_scheme(),
        u.text@ != direct_text(),
        url_parse_of(u.text@) == Some(u@),
    ensures
        token_names(u.text@, ProxyRoute::Upstream { proxy_url: u }),
{
    assert(parses_to(u.text@, u));
}

} // verus!

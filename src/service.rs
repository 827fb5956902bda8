//! The dispatcher's decisions: which credentials go with a route, what a
//! CONNECT or plain request leads to, which connection record is opened and
//! closed, and in which order the upstream connector tries the routes.

use vstd::prelude::*;

use crate::credentials::{credential_lookup, creds_opt_view, CredentialProvider, Credentials};
use crate::error::ProxyError;
use crate::models::ProxyMethod;
use crate::route::ProxyRoute;
use crate::tracker::{close_all, ConnectionInfo, ConnectionTracker};
use crate::url::copy_opt_string;

verus! {

/// The port used when an address names none.
pub const DEFAULT_HTTP_PORT: u16 = 80;

/// The credentials that go with a route, given the rules: those of the
/// upstream proxy's host for an upstream route, none otherwise.
pub open spec fn route_credentials(rules: Seq<crate::credentials::CredentialRule>, route: ProxyRoute) -> Option<
    (Seq<char>, Seq<char>),
> {
    match route {
        ProxyRoute::Upstream { proxy_url } => match proxy_url.host {
            Some(h) => credential_lookup(rules, h@),
            None => None,
        },
        _ => None,
    }
}

/// What a CONNECT request leads to.
pub enum ConnectDecision {
    /// The route is blocked: answer 403.
    Rejected { reason: String },
    /// Open the tunnel along `route`; `connection_id` is the tracked record.
    Accept { route: ProxyRoute, credentials: Option<Credentials>, connection_id: u128 },
}

/// What a plain HTTP request leads to.
pub enum HttpDecision {
    /// The route is blocked: answer 403 with no body.
    Forbidden,
    /// Forward the request along `route`; close `connection_id` when done.
    Forward { route: ProxyRoute, credentials: Option<Credentials>, connection_id: u128 },
}

/// The record a dispatch opens.
pub open spec fn opened_record(
    r: ConnectionInfo,
    id: u128,
    method: Seq<char>,
    target: Seq<char>,
    route: ProxyRoute,
    now: u64,
) -> bool {
    &&& r.id == id
    &&& r.method@ == method
    &&& r.target@ == target
    &&& r.route@ == route.scheme_spec()
    &&& r.opened_at == now
    &&& r.closed_at is None
}

/// The dispatcher's state: the credential provider and the connection tracker.
pub struct ProxyService {
    pub credentials: CredentialProvider,
    pub tracker: ConnectionTracker,
}

impl ProxyService {
    pub fn new(credentials: CredentialProvider, tracker: ConnectionTracker) -> (r: Self)
        ensures
            r.credentials == credentials,
            r.tracker == tracker,
    {
        ProxyService { credentials, tracker }
    }

    /// The credentials for a route: looked up by the upstream proxy's host,
    /// not the target's; a direct or blocked route has none.
    pub fn get_credentials_for_route(&mut self, route: &ProxyRoute) -> (r: Option<Credentials>)
        ensures
            final(self).credentials.rules() == old(self).credentials.rules(),
            final(self).tracker == old(self).tracker,
            creds_opt_view(r) == route_credentials(old(self).credentials.rules(), *route),
    {
        match route {
            ProxyRoute::Upstream { proxy_url } => match &proxy_url.host {
                Some(h) => self.credentials.get_credentials(h.as_str()),
                None => None,
            },
            _ => None,
        }
    }

    /// Decides a CONNECT to `target` along `route`: a blocked route is
    /// rejected and tracks nothing; otherwise a record is opened and the
    /// tunnel accepted with the route's credentials.
    pub fn handle_connect_request(&mut self, route: ProxyRoute, target: String, now: u64) -> (r:
        ConnectDecision)
        ensures
            final(self).credentials.rules() == old(self).credentials.rules(),
            route is Blocked <==> r is Rejected,
            r matches ConnectDecision::Rejected { reason } ==> (route matches ProxyRoute::Blocked {
                reason: b,
            } && reason == b && final(self).tracker.records() == old(self).tracker.records()),
            r matches ConnectDecision::Accept { route: taken, credentials, connection_id } ==> (taken
                == route && creds_opt_view(credentials) == route_credentials(
                old(self).credentials.rules(),
                route,
            ) && final(self).tracker.records().len() == old(self).tracker.records().len() + 1
                && final(self).tracker.records().drop_last() == old(self).tracker.records()
                && opened_record(
                final(self).tracker.records().last(),
                connection_id,
                "CONNECT"@,
                target@,
                route,
                now,
            )),
    {
        if let ProxyRoute::Blocked { reason } = &route {
            return ConnectDecision::Rejected { reason: reason.clone() };
        }
        let credentials = self.get_credentials_for_route(&route);
        let info = ConnectionInfo::new(
            String::from_str("CONNECT"),
            target,
            String::from_str(route.scheme()),
            now,
        );
        let id = info.id;
        self.tracker.track_connection(info);
        assert(self.tracker.records().drop_last() =~= old(self).tracker.records());
        ConnectDecision::Accept { route, credentials, connection_id: id }
    }

    /// Decides a plain request to `target` along `route`: a blocked route
    /// is forbidden and tracks nothing; otherwise a record is opened and the
    /// request forwarded with the route's credentials. The caller closes the
    /// record on every path once forwarding ends.
    pub fn handle_http_request(
        &mut self,
        method: &ProxyMethod,
        target: String,
        route: ProxyRoute,
        now: u64,
    ) -> (r: HttpDecision)
        ensures
            final(self).credentials.rules() == old(self).credentials.rules(),
            route is Blocked <==> r is Forbidden,
            r is Forbidden ==> final(self).tracker.records() == old(self).tracker.records(),
            r matches HttpDecision::Forward { route: taken, credentials, connection_id } ==> (taken
                == route && creds_opt_view(credentials) == route_credentials(
                old(self).credentials.rules(),
                route,
            ) && final(self).tracker.records().len() == old(self).tracker.records().len() + 1
                && final(self).tracker.records().drop_last() == old(self).tracker.records()
                && opened_record(
                final(self).tracker.records().last(),
                connection_id,
                method.name(),
                target@,
                route,
                now,
            )),
    {
        if route.is_blocked() {
            return HttpDecision::Forbidden;
        }
        let credentials = self.get_credentials_for_route(&route);
        let info = ConnectionInfo::new(
            String::from_str(method.as_str()),
            target,
            String::from_str(route.scheme()),
            now,
        );
        let id = info.id;
        self.tracker.track_connection(info);
        assert(self.tracker.records().drop_last() =~= old(self).tracker.records());
        HttpDecision::Forward { route, credentials, connection_id: id }
    }

    /// Closes a tracked record; an unknown id changes nothing.
    pub fn close_connection(&mut self, id: u128, now: u64)
        ensures
            final(self).credentials == old(self).credentials,
            final(self).tracker.records() == close_all(old(self).tracker.records(), id, now),
    {
        self.tracker.close_connection(id, now);
    }
}

/// Where one connection attempt goes.
pub struct DialTarget {
    pub host: String,
    pub port: u16,
    /// Whether the peer is an upstream proxy.
    pub is_proxy: bool,
}

/// Where the connector dials for a route, for a target at `host` and
/// `port`: the target itself for a direct route, the proxy for an upstream
/// route (port 80 where none is given); a blocked route is dialled nowhere.
pub open spec fn dial_target_of(route: ProxyRoute, host: Seq<char>, port: Option<u16>) -> Option<
    (Seq<char>, u16, bool),
> {
    match route {
        ProxyRoute::Direct => Some(
            (host, if port is Some { port->0 } else { DEFAULT_HTTP_PORT }, false),
        ),
        ProxyRoute::Upstream { proxy_url } => Some(
            (
                if proxy_url.host is Some {
                    proxy_url.host->0@
                } else {
                    Seq::<char>::empty()
                },
                if proxy_url.port is Some {
                    proxy_url.port->0
                } else {
                    DEFAULT_HTTP_PORT
                },
                true,
            ),
        ),
        ProxyRoute::Blocked { .. } => None,
    }
}

/// The attempts of one dial, in order, and the reason of the blocked route
/// that ends it, if one does.
pub struct DialPlan {
    pub attempts: Vec<DialTarget>,
    pub blocked: Option<String>,
}

/// Whether `plan` tries the routes in order, each once, up to the first
/// blocked route, which ends the dial with its reason.
pub open spec fn plans_routes(plan: DialPlan, routes: Seq<ProxyRoute>, host: Seq<char>, port: Option<u16>) -> bool {
    let n = plan.attempts@.len();
    &&& n <= routes.len()
    &&& forall|j: int|
        0 <= j < n ==> dial_target_of(#[trigger] routes[j], host, port) == Some(
            (plan.attempts@[j].host@, plan.attempts@[j].port, plan.attempts@[j].is_proxy),
        )
    &&& plan.blocked is None ==> n == routes.len()
    &&& plan.blocked matches Some(reason) ==> (n < routes.len() && (routes[n as int] matches ProxyRoute::Blocked { reason: b } && b == reason))
}

/// Plans a dial of the target at `host` and `port` through `routes`.
pub fn plan_dial(host: &str, port: Option<u16>, routes: &Vec<ProxyRoute>) -> (r: DialPlan)
    ensures
        plans_routes(r, routes@, host@, port),
{
    let mut attempts: Vec<DialTarget> = Vec::new();
    let mut i: usize = 0;
    while i < routes.len()
        invariant
            i <= routes@.len(),
            attempts@.len() == i,
            forall|j: int|
                0 <= j < i ==> dial_target_of(#[trigger] routes@[j], host@, port) == Some(
                    (attempts@[j].host@, attempts@[j].port, attempts@[j].is_proxy),
                ),
        decreases routes@.len() - i,
    {
        let target = match &routes[i] {
            ProxyRoute::Direct => DialTarget {
                host: String::from_str(host),
                port: match port {
                    Some(p) => p,
                    None => DEFAULT_HTTP_PORT,
                },
                is_proxy: false,
            },
            ProxyRoute::Upstream { proxy_url } => DialTarget {
                host: match &proxy_url.host {
                    Some(h) => h.clone(),
                    None => String::new(),
                },
                port: match proxy_url.port {
                    Some(p) => p,
                    None => DEFAULT_HTTP_PORT,
                },
                is_proxy: true,
            },
            ProxyRoute::Blocked { reason } => {
                return DialPlan { attempts, blocked: Some(reason.clone()) };
            },
        };
        attempts.push(target);
        i += 1;
    }
    DialPlan { attempts, blocked: None }
}

/// The proxy configuration of an HTTP client for one request.
pub enum ClientProxy {
    /// Connect directly; ignore any system proxy.
    NoProxy,
    /// Send through the proxy at `url`, with basic auth where given.
    Proxy { url: String, auth: Option<Credentials> },
}

/// Forwards plain requests with an HTTP client library.
pub struct ReqwestHttpClient;

impl ReqwestHttpClient {
    pub fn new() -> (r: Self) {
        ReqwestHttpClient
    }

    /// The client's proxy setting for a route: a blocked route gives
    /// `ConnectionFailed` with its reason.
    pub fn proxy_for(&self, route: &ProxyRoute, credentials: &Option<Credentials>) -> (r: Result<
        ClientProxy,
        ProxyError,
    >)
        ensures
            route is Direct ==> r matches Ok(ClientProxy::NoProxy),
            route matches ProxyRoute::Upstream { proxy_url } ==> (r matches Ok(ClientProxy::Proxy { url, auth }) && url@ == proxy_url.text@ && auth == *credentials),
            route is Blocked ==> r matches Err(ProxyError::ConnectionFailed(_)),
    {
        match route {
            ProxyRoute::Direct => Ok(ClientProxy::NoProxy),
            ProxyRoute::Upstream { proxy_url } => Ok(
                ClientProxy::Proxy {
                    url: proxy_url.text.clone(),
                    auth: match credentials {
                        Some(c) => Some(c.clone()),
                        None => None,
                    },
                },
            ),
            ProxyRoute::Blocked { reason } => Err(ProxyError::ConnectionFailed(reason.clone())),
        }
    }
}

/// The request that opens a tunnel through an upstream proxy.
pub open spec fn tunnel_request_text(authority: Seq<char>, auth: Option<Seq<char>>) -> Seq<char> {
    "CONNECT "@ + authority + " HTTP/1.1\r\nHost: "@ + authority + "\r\n"@ + match auth {
        Some(a) => "Proxy-Authorization: "@ + a + "\r\n"@,
        None => Seq::<char>::empty(),
    } + "\r\n"@
}

pub open spec fn auth_of(credentials: Option<Credentials>) -> Option<Seq<char>> {
    match credentials {
        Some(c) => Some(crate::credentials::basic_auth(c.username@, c.password@)),
        None => None,
    }
}

/// Writes the CONNECT request for `authority`, with `Proxy-Authorization`
/// when there are credentials.
pub fn tunnel_request(authority: &str, credentials: &Option<Credentials>) -> (r: String)
    ensures
        r@ == tunnel_request_text(authority@, auth_of(*credentials)),
{
    let mut r = String::from_str("CONNECT ").concat(authority).concat(" HTTP/1.1\r\nHost: ").concat(
        authority,
    ).concat("\r\n");
    match credentials {
        Some(c) => {
            let header = String::from_str("Proxy-Authorization: ").concat(c.to_basic_auth().as_str()).concat(
                "\r\n",
            );
            r.append(header.as_str());
        },
        None => {},
    }
    r.append("\r\n");
    r
}

/// Whether `head` holds CR LF CR LF starting at `i`.
pub open spec fn blank_line_at(head: Seq<u8>, i: int) -> bool {
    0 <= i && i + 4 <= head.len() && head[i] == 13 && head[i + 1] == 10 && head[i + 2] == 13 && head[
        i + 3
    ] == 10
}

/// Where the first blank line of a response head starts, if it has one.
pub fn header_end(head: &Vec<u8>) -> (r: Option<usize>)
    ensures
        r matches Some(i) ==> blank_line_at(head@, i as int) && forall|j: int|
            0 <= j < i ==> !#[trigger] blank_line_at(head@, j),
        r is None ==> forall|j: int| 0 <= j < head@.len() ==> !#[trigger] blank_line_at(head@, j),
{
    if head.len() < 4 {
        return None;
    }
    let last = head.len() - 4;
    let mut i: usize = 0;
    while i <= last
        invariant
            last + 4 == head@.len(),
            head@.len() <= usize::MAX,
            forall|j: int| 0 <= j < i ==> !#[trigger] blank_line_at(head@, j),
        decreases head@.len() - i,
    {
        if head[i] == 13 && head[i + 1] == 10 && head[i + 2] == 13 && head[i + 3] == 10 {
            return Some(i);
        }
        i += 1;
    }
    None
}

/// Whether a response head's status line is `HTTP/1.x 2xx`.
pub open spec fn is_success_head(head: Seq<u8>) -> bool {
    &&& head.len() >= 10
    &&& head[0] == 72 && head[1] == 84 && head[2] == 84 && head[3] == 80
    &&& head[4] == 47 && head[5] == 49 && head[6] == 46
    &&& head[8] == 32 && head[9] == 50
}

/// Whether the upstream proxy accepted the tunnel: a 2xx status.
pub fn tunnel_established(head: &Vec<u8>) -> (r: bool)
    ensures
        r == is_success_head(head@),
{
    head.len() >= 10 && head[0] == 72 && head[1] == 84 && head[2] == 84 && head[3] == 80 && head[4]
        == 47 && head[5] == 49 && head[6] == 46 && head[8] == 32 && head[9] == 50
}

/// The target URL text of a request: `https://authority/` for a CONNECT;
/// any other method needs a Host header, and then names the absolute
/// request URI, or, for an origin-form URI, `http://` followed by the Host
/// header and the URI.
pub open spec fn target_text(
    is_connect: bool,
    uri: Seq<char>,
    uri_is_absolute: bool,
    authority: Option<Seq<char>>,
    host_header: Option<Seq<char>>,
) -> Option<Seq<char>> {
    if is_connect {
        match authority {
            Some(a) => Some("https://"@ + a + "/"@),
            None => None,
        }
    } else {
        match host_header {
            Some(h) => if uri_is_absolute {
                Some(uri)
            } else {
                Some("http://"@ + h + uri)
            },
            None => None,
        }
    }
}

/// Names the URL a request is for; a CONNECT without an authority is an
/// invalid request, and any other request without a Host header is
/// missing its host.
pub fn request_target(
    is_connect: bool,
    uri: &str,
    uri_is_absolute: bool,
    authority: Option<&str>,
    host_header: Option<&str>,
) -> (r: Result<String, ProxyError>)
    ensures
        r matches Ok(t) ==> Some(t@) == target_text(is_connect, uri@, uri_is_absolute, opt_str(authority), opt_str(host_header)),
        r is Err <==> target_text(is_connect, uri@, uri_is_absolute, opt_str(authority), opt_str(host_header)) is None,
        r is Err ==> (if is_connect { r matches Err(ProxyError::InvalidRequest(_)) } else { r matches Err(ProxyError::MissingHost) }),
        !is_connect && host_header is None ==> r matches Err(ProxyError::MissingHost),
{
    if is_connect {
        match authority {
            Some(a) => Ok(String::from_str("https://").concat(a).concat("/")),
            None => Err(ProxyError::InvalidRequest(String::from_str("missing CONNECT authority"))),
        }
    } else {
        match host_header {
            Some(h) => if uri_is_absolute {
                Ok(String::from_str(uri))
            } else {
                Ok(String::from_str("http://").concat(h).concat(uri))
            },
            None => Err(ProxyError::MissingHost),
        }
    }
}

pub open spec fn opt_str(s: Option<&str>) -> Option<Seq<char>> {
    match s {
        Some(v) => Some(v@),
        None => None,
    }
}

} // verus!

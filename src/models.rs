//! Request-side models: HTTP methods, versions, log levels, the upstream
//! dialer's header block, and connections tagged as proxied or direct.

use vstd::prelude::*;

use crate::credentials::{basic_auth, encode_credentials};
use crate::text::joined;

verus! {

/// What `str::to_uppercase` makes of a text.
pub uninterp spec fn upper_of(s: Seq<char>) -> Seq<char>;

/// Relies on `str::to_uppercase`: the result depends on the characters alone.
#[verifier::external_body]
fn to_upper(s: &str) -> (r: String)
    ensures
        r@ == upper_of(s@),
{
    s.to_uppercase()
}

/// What `str::to_lowercase` makes of a text.
pub uninterp spec fn lower_of(s: Seq<char>) -> Seq<char>;

/// Relies on `str::to_lowercase`: the result depends on the characters alone.
#[verifier::external_body]
fn to_lower(s: &str) -> (r: String)
    ensures
        r@ == lower_of(s@),
{
    s.to_lowercase()
}

/// An HTTP request method.
pub enum ProxyMethod {
    Get,
    Post,
    Put,
    Delete,
    Head,
    Options,
    Connect,
    Patch,
    Trace,
    Other(String),
}

impl ProxyMethod {
    /// The method's name as it stands on the request line.
    pub open spec fn name(&self) -> Seq<char> {
        match self {
            ProxyMethod::Get => "GET"@,
            ProxyMethod::Post => "POST"@,
            ProxyMethod::Put => "PUT"@,
            ProxyMethod::Delete => "DELETE"@,
            ProxyMethod::Head => "HEAD"@,
            ProxyMethod::Options => "OPTIONS"@,
            ProxyMethod::Connect => "CONNECT"@,
            ProxyMethod::Patch => "PATCH"@,
            ProxyMethod::Trace => "TRACE"@,
            ProxyMethod::Other(s) => s@,
        }
    }

    pub fn as_str(&self) -> (r: &str)
        ensures
            r@ == self.name(),
    {
        match self {
            ProxyMethod::Get => "GET",
            ProxyMethod::Post => "POST",
            ProxyMethod::Put => "PUT",
            ProxyMethod::Delete => "DELETE",
            ProxyMethod::Head => "HEAD",
            ProxyMethod::Options => "OPTIONS",
            ProxyMethod::Connect => "CONNECT",
            ProxyMethod::Patch => "PATCH",
            ProxyMethod::Trace => "TRACE",
            ProxyMethod::Other(s) => s.as_str(),
        }
    }

    /// The method an upper-cased name stands for: a standard method, or
    /// `Other` with that name.
    pub open spec fn of_upper(u: Seq<char>, m: ProxyMethod) -> bool {
        if u == "GET"@ {
            m is Get
        } else if u == "POST"@ {
            m is Post
        } else if u == "PUT"@ {
            m is Put
        } else if u == "DELETE"@ {
            m is Delete
        } else if u == "HEAD"@ {
            m is Head
        } else if u == "OPTIONS"@ {
            m is Options
        } else if u == "CONNECT"@ {
            m is Connect
        } else if u == "PATCH"@ {
            m is Patch
        } else if u == "TRACE"@ {
            m is Trace
        } else {
            m matches ProxyMethod::Other(s) && s@ == u
        }
    }

    /// Reads a method name, in any case.
    pub fn from_str(s: &str) -> (r: Self)
        ensures
            ProxyMethod::of_upper(upper_of(s@), r),
    {
        let u = to_upper(s);
        if u == String::from_str("GET") {
            ProxyMethod::Get
        } else if u == String::from_str("POST") {
            ProxyMethod::Post
        } else if u == String::from_str("PUT") {
            ProxyMethod::Put
        } else if u == String::from_str("DELETE") {
            ProxyMethod::Delete
        } else if u == String::from_str("HEAD") {
            ProxyMethod::Head
        } else if u == String::from_str("OPTIONS") {
            ProxyMethod::Options
        } else if u == String::from_str("CONNECT") {
            ProxyMethod::Connect
        } else if u == String::from_str("PATCH") {
            ProxyMethod::Patch
        } else if u == String::from_str("TRACE") {
            ProxyMethod::Trace
        } else {
            ProxyMethod::Other(u)
        }
    }
}

/// An HTTP protocol version.
#[derive(PartialEq, Eq, Structural, Clone, Copy, Debug)]
pub enum HttpVersion {
    Http10,
    Http11,
    Http2,
    Http3,
}

/// How much the proxy logs.
#[derive(PartialEq, Eq, Structural, Clone, Copy, Debug)]
pub enum LogLevel {
    Off,
    Error,
    Warn,
    Info,
    Debug,
    Trace,
}

/// The log level a lower-cased name stands for; an unknown name stands for `Info`.
pub open spec fn level_of_lower(l: Seq<char>) -> LogLevel {
    if l == "error"@ {
        LogLevel::Error
    } else if l == "warn"@ {
        LogLevel::Warn
    } else if l == "info"@ {
        LogLevel::Info
    } else if l == "debug"@ {
        LogLevel::Debug
    } else if l == "trace"@ {
        LogLevel::Trace
    } else if l == "off"@ {
        LogLevel::Off
    } else {
        LogLevel::Info
    }
}

/// Reads a configured log level, in any case.
pub fn parse_log_level(level: &str) -> (r: LogLevel)
    ensures
        r == level_of_lower(lower_of(level@)),
{
    let l = to_lower(level);
    if l == String::from_str("error") {
        LogLevel::Error
    } else if l == String::from_str("warn") {
        LogLevel::Warn
    } else if l == String::from_str("info") {
        LogLevel::Info
    } else if l == String::from_str("debug") {
        LogLevel::Debug
    } else if l == String::from_str("trace") {
        LogLevel::Trace
    } else if l == String::from_str("off") {
        LogLevel::Off
    } else {
        LogLevel::Info
    }
}

/// Command-line options: the listening port and whether to skip the greeting.
pub struct Opts {
    pub port: u16,
    pub no_greeting: bool,
}

/// The port the proxy listens on by default.
pub const DEFAULT_PORT: u16 = 8888;

impl Default for Opts {
    fn default() -> (r: Self)
        ensures
            r.port == DEFAULT_PORT,
            !r.no_greeting,
    {
        Opts { port: DEFAULT_PORT, no_greeting: false }
    }
}

/// One header as it stands in a header block: `name: value`.
pub open spec fn header_line(h: (String, String)) -> Seq<char> {
    h.0@ + ": "@ + h.1@
}

/// A header block: the header lines joined by CRLF.
pub open spec fn headers_text(hs: Seq<(String, String)>) -> Seq<char>
    decreases hs.len(),
{
    if hs.len() == 0 {
        Seq::<char>::empty()
    } else if hs.len() == 1 {
        header_line(hs[0])
    } else {
        headers_text(hs.drop_last()) + "\r\n"@ + header_line(hs.last())
    }
}

/// Writes headers as a block of `name: value` lines joined by CRLF.
pub fn serialize_headers(headers: &Vec<(String, String)>) -> (r: String)
    ensures
        r@ == headers_text(headers@),
{
    let mut r = String::new();
    let mut i: usize = 0;
    while i < headers.len()
        invariant
            i <= headers@.len(),
            r@ == headers_text(headers@.take(i as int)),
        decreases headers@.len() - i,
    {
        let ghost p = headers@.take(i + 1);
        assert(p.drop_last() =~= headers@.take(i as int));
        let (name, value) = &headers[i];
        let line = joined(name.as_str(), ": ").concat(value.as_str());
        if i > 0 {
            r.append("\r\n");
        }
        r.append(line.as_str());
        if i == 0 {
            assert(r@ =~= header_line(p[0]));
        } else {
            assert(r@ =~= headers_text(p.drop_last()) + "\r\n"@ + header_line(p.last()));
        }
        i += 1;
    }
    assert(headers@.take(i as int) =~= headers@);
    r
}

/// Dials an upstream proxy, adding `Proxy-Authorization` when it has credentials.
pub struct UpstreamDialer {
    /// The upstream's `host:port`.
    pub upstream: String,
    /// The `Proxy-Authorization` header value.
    pub upstream_credentials: Option<String>,
}

impl UpstreamDialer {
    pub fn new(host: String) -> (r: Self)
        ensures
            r.upstream == host,
            r.upstream_credentials is None,
    {
        UpstreamDialer { upstream: host, upstream_credentials: None }
    }

    pub fn set_credentials(&mut self, username: &str, password: &str)
        ensures
            final(self).upstream == old(self).upstream,
            final(self).upstream_credentials matches Some(c) && c@ == basic_auth(username@, password@),
    {
        self.upstream_credentials = Some(encode_credentials(username, password));
    }
}

/// Facts about an established connection.
pub struct ConnectionMetadata {
    pub is_proxy: bool,
    pub target_addr: String,
}

/// A connection, tagged with whether its peer is a proxy.
pub enum ProxyConnection<T> {
    Proxy { inner: T },
    NoProxy { inner: T },
}

impl<T> ProxyConnection<T> {
    pub open spec fn inner_spec(&self) -> &T {
        match self {
            ProxyConnection::Proxy { inner } => inner,
            ProxyConnection::NoProxy { inner } => inner,
        }
    }

    /// The same connection, tagged as reaching a proxy.
    pub fn into_proxy(self) -> (r: Self)
        ensures
            r is Proxy,
            r.inner_spec() == self.inner_spec(),
    {
        match self {
            ProxyConnection::Proxy { inner } => ProxyConnection::Proxy { inner },
            ProxyConnection::NoProxy { inner } => ProxyConnection::Proxy { inner },
        }
    }

    /// The same connection, tagged as direct.
    pub fn into_direct(self) -> (r: Self)
        ensures
            r is NoProxy,
            r.inner_spec() == self.inner_spec(),
    {
        match self {
            ProxyConnection::Proxy { inner } => ProxyConnection::NoProxy { inner },
            ProxyConnection::NoProxy { inner } => ProxyConnection::NoProxy { inner },
        }
    }

    pub fn is_proxy(&self) -> (r: bool)
        ensures
            r == (self is Proxy),
    {
        matches!(self, ProxyConnection::Proxy { .. })
    }

    /// The connection's metadata, for a connection to `target_addr`.
    pub fn metadata(&self, target_addr: String) -> (r: ConnectionMetadata)
        ensures
            r.is_proxy == (self is Proxy),
            r.target_addr == target_addr,
    {
        ConnectionMetadata { is_proxy: self.is_proxy(), target_addr }
    }
}

} // verus!

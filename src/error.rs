//! Error kinds surfaced by the routing core.

use vstd::prelude::*;

use crate::text::joined;

verus! {

/// What went wrong; the payload, where there is one, is a human-readable detail.
#[derive(Debug)]
pub enum ProxyError {
    InvalidUri(String),
    MissingHost,
    ConnectionFailed(String),
    TunnelFailed(String),
    ResolutionFailed(String),
    AuthenticationFailed(String),
    InvalidRequest(String),
    UpstreamError(String),
    Timeout,
    Unknown(String),
}

impl ProxyError {
    /// A one-line description of the error.
    pub fn message(&self) -> (r: String) {
        match self {
            ProxyError::InvalidUri(m) => joined("Invalid URI: ", m.as_str()),
            ProxyError::MissingHost => String::from_str("Missing host in request"),
            ProxyError::ConnectionFailed(m) => joined("Connection failed: ", m.as_str()),
            ProxyError::TunnelFailed(m) => joined("Tunnel failed: ", m.as_str()),
            ProxyError::ResolutionFailed(m) => joined("Proxy resolution failed: ", m.as_str()),
            ProxyError::AuthenticationFailed(m) => joined("Authentication failed: ", m.as_str()),
            ProxyError::InvalidRequest(m) => joined("Invalid request: ", m.as_str()),
            ProxyError::UpstreamError(m) => joined("Upstream proxy error: ", m.as_str()),
            ProxyError::Timeout => String::from_str("Operation timed out"),
            ProxyError::Unknown(m) => joined("Unknown error: ", m.as_str()),
        }
    }
}

} // verus!

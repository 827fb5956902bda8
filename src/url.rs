//! Absolute URLs as the routing core reads them: the serialized text, the
//! scheme, the host and the explicit port. Parsing is the `url` crate's.

use vstd::prelude::*;

verus! {

/// A parsed absolute URL, reduced to the parts the routing core reads.
pub struct ParsedUrl {
    /// The URL's serialization.
    pub text: String,
    /// The scheme, lower case, without the ':'.
    pub scheme: String,
    pub host: Option<String>,
    /// The port when the URL names one other than its scheme's default.
    pub port: Option<u16>,
}

/// What a `ParsedUrl` holds, as plain values.
pub struct UrlModel {
    pub text: Seq<char>,
    pub scheme: Seq<char>,
    pub host: Option<Seq<char>>,
    pub port: Option<u16>,
}

pub open spec fn opt_view(s: Option<String>) -> Option<Seq<char>> {
    match s {
        Some(v) => Some(v@),
        None => None,
    }
}

impl View for ParsedUrl {
    type V = UrlModel;

    open spec fn view(&self) -> UrlModel {
        UrlModel { text: self.text@, scheme: self.scheme@, host: opt_view(self.host), port: self.port }
    }
}

pub fn copy_opt_string(s: &Option<String>) -> (r: Option<String>)
    ensures
        r == *s,
{
    match s {
        Some(v) => Some(v.clone()),
        None => None,
    }
}

impl Clone for ParsedUrl {
    fn clone(&self) -> (r: Self)
        ensures
            r == *self,
    {
        ParsedUrl {
            text: self.text.clone(),
            scheme: self.scheme.clone(),
            host: copy_opt_string(&self.host),
            port: self.port,
        }
    }
}

/// What `url::Url::parse` makes of a text: `None` where it refuses the text.
pub uninterp spec fn url_parse_of(s: Seq<char>) -> Option<UrlModel>;

/// Relies on `url::Url::parse` and the accessors `as_str`, `scheme`,
/// `host_str` and `port`: the parts depend on the text alone.
#[verifier::external_body]
pub fn parse_url(s: &str) -> (r: Option<ParsedUrl>)
    ensures
        r is Some <==> url_parse_of(s@) is Some,
        r is Some ==> r->0@ == url_parse_of(s@)->0,
{
    match ::url::Url::parse(s) {
        Ok(u) => Some(ParsedUrl {
            text: u.as_str().to_string(),
            scheme: u.scheme().to_string(),
            host: u.host_str().map(|h| h.to_string()),
            port: u.port(),
        }),
        Err(_) => None,
    }
}

} // verus!

//! PAC evaluation: the script runs in an embedded JavaScript engine, and the
//! directive string it returns is parsed here into proxy-URL tokens.

use vstd::prelude::*;

use crate::error::ProxyError;
use crate::route::{
    direct_text, parse_proxy_route, parses_to, route_of_url, token_names, token_refused, ProxyRoute,
};
use crate::text::{chars_of, is_space, is_space_char, joined, push_char, same_chars, string_of};
use crate::url::ParsedUrl;

verus! {

/// The standard PAC helper functions, appended to every script. The engine
/// has no network access, so `dnsResolve` and `isResolvable` answer only for
/// literal IPv4 addresses, and `myIpAddress` gives the loopback address.
pub const PAC_UTILS: &'static str = "
function dnsDomainIs(host, domain) {
    return host.length >= domain.length &&
        host.substring(host.length - domain.length) == domain;
}
function isPlainHostName(host) {
    return host.indexOf('.') < 0;
}
function localHostOrDomainIs(host, hostdom) {
    return host == hostdom || hostdom.lastIndexOf(host + '.', 0) == 0;
}
function dnsDomainLevels(host) {
    return host.split('.').length - 1;
}
function shExpMatch(str, shexp) {
    var re = shexp.replace(/[.+^${}()|[\\]\\\\]/g, '\\\\$&').replace(/\\*/g, '.*').replace(/\\?/g, '.');
    return new RegExp('^' + re + '$').test(str);
}
function convert_addr(ipchars) {
    var bytes = ipchars.split('.');
    return ((bytes[0] & 0xff) << 24) | ((bytes[1] & 0xff) << 16) |
        ((bytes[2] & 0xff) << 8) | (bytes[3] & 0xff);
}
function isValidIpAddress(ipchars) {
    var m = /^(\\d{1,3})\\.(\\d{1,3})\\.(\\d{1,3})\\.(\\d{1,3})$/.exec(ipchars);
    if (m == null) { return false; }
    for (var i = 1; i <= 4; i++) { if (+m[i] > 255) { return false; } }
    return true;
}
function isInNet(ipaddr, pattern, maskstr) {
    if (!isValidIpAddress(ipaddr) || !isValidIpAddress(pattern) || !isValidIpAddress(maskstr)) {
        return false;
    }
    var host = convert_addr(ipaddr);
    var pat = convert_addr(pattern);
    var mask = convert_addr(maskstr);
    return (host & mask) == (pat & mask);
}
function isResolvable(host) {
    return isValidIpAddress(host);
}
function dnsResolve(host) {
    return isValidIpAddress(host) ? host : null;
}
function myIpAddress() {
    return '127.0.0.1';
}
";

pub open spec fn proxy_word() -> Seq<char> {
    seq!['P', 'R', 'O', 'X', 'Y']
}

pub open spec fn http_prefix() -> Seq<char> {
    seq!['h', 't', 't', 'p', ':', '/', '/']
}

/// `s` without its double-quote characters.
pub open spec fn unquoted(s: Seq<char>) -> Seq<char>
    decreases s.len(),
{
    if s.len() == 0 {
        s
    } else {
        let p = unquoted(s.drop_last());
        if s.last() == '"' {
            p
        } else {
            p.push(s.last())
        }
    }
}

/// The fields of `s` between ';' separators; one more than there are separators.
pub open spec fn fields(s: Seq<char>) -> Seq<Seq<char>>
    decreases s.len(),
{
    if s.len() == 0 {
        seq![Seq::<char>::empty()]
    } else {
        let p = fields(s.drop_last());
        if s.last() == ';' {
            p.push(Seq::<char>::empty())
        } else {
            p.update(p.len() - 1, p.last().push(s.last()))
        }
    }
}

/// The maximal runs of non-white-space characters of `s`, in order.
pub open spec fn words(s: Seq<char>) -> Seq<Seq<char>>
    decreases s.len(),
{
    if s.len() == 0 {
        Seq::<Seq<char>>::empty()
    } else {
        let p = words(s.drop_last());
        let c = s.last();
        if is_space(c) {
            p
        } else if s.len() >= 2 && !is_space(s[s.len() - 2]) {
            p.update(p.len() - 1, p.last().push(c))
        } else {
            p.push(seq![c])
        }
    }
}

/// The token one directive stands for: `None` for a blank directive,
/// `http://host:port` for `PROXY host:port`, and `direct://` for anything
/// else (`DIRECT`, a bare `PROXY`, an unknown keyword).
pub open spec fn directive(item: Seq<char>) -> Option<Seq<char>> {
    let w = words(item);
    if w.len() == 0 {
        None
    } else if w[0] == proxy_word() && w.len() >= 2 {
        Some(http_prefix() + w[1])
    } else {
        Some(direct_text())
    }
}

/// The tokens of the non-blank directives among `fs`, in order.
pub open spec fn directives(fs: Seq<Seq<char>>) -> Seq<Seq<char>>
    decreases fs.len(),
{
    if fs.len() == 0 {
        Seq::<Seq<char>>::empty()
    } else {
        let p = directives(fs.drop_last());
        match directive(fs.last()) {
            Some(t) => p.push(t),
            None => p,
        }
    }
}

/// The proxy-URL tokens that a `FindProxyForURL` result stands for; a result
/// with no directive stands for `direct://`.
pub open spec fn pac_tokens(s: Seq<char>) -> Seq<Seq<char>> {
    let t = directives(fields(unquoted(s)));
    if t.len() == 0 {
        seq![direct_text()]
    } else {
        t
    }
}

/// Whether the strings `v` hold the texts `t`, in order.
pub open spec fn texts_match(v: Seq<String>, t: Seq<Seq<char>>) -> bool {
    &&& v.len() == t.len()
    &&& forall|j: int| 0 <= j < v.len() ==> #[trigger] v[j]@ == t[j]
}

proof fn lemma_words_nonempty(s: Seq<char>)
    requires
        s.len() > 0,
        !is_space(s.last()),
    ensures
        words(s).len() >= 1,
    decreases s.len(),
{
    if s.len() >= 2 && !is_space(s[s.len() - 2]) {
        lemma_words_nonempty(s.drop_last());
    }
}

fn unquote(cs: &Vec<char>) -> (r: Vec<char>)
    ensures
        r@ == unquoted(cs@),
{
    let mut r: Vec<char> = Vec::new();
    let mut i: usize = 0;
    while i < cs.len()
        invariant
            i <= cs@.len(),
            r@ == unquoted(cs@.take(i as int)),
        decreases cs@.len() - i,
    {
        assert(cs@.take(i + 1).drop_last() =~= cs@.take(i as int));
        if cs[i] != '"' {
            r.push(cs[i]);
        }
        i += 1;
    }
    assert(cs@.take(i as int) =~= cs@);
    r
}

/// The white-space separated words of `cs`.
fn words_of(cs: &Vec<char>) -> (r: Vec<Vec<char>>)
    ensures
        r@.len() == words(cs@).len(),
        forall|j: int| 0 <= j < r@.len() ==> #[trigger] r@[j]@ == words(cs@)[j],
{
    let mut r: Vec<Vec<char>> = Vec::new();
    let mut in_word = false;
    let mut i: usize = 0;
    while i < cs.len()
        invariant
            i <= cs@.len(),
            r@.len() == words(cs@.take(i as int)).len(),
            forall|j: int| 0 <= j < r@.len() ==> #[trigger] r@[j]@ == words(cs@.take(i as int))[j],
            in_word == (i > 0 && !is_space(cs@[i - 1])),
        decreases cs@.len() - i,
    {
        let ghost p = cs@.take(i as int);
        let ghost q = cs@.take(i + 1);
        assert(q.drop_last() =~= p);
        assert(q.last() == cs@[i as int]);
        if i > 0 {
            assert(q[q.len() - 2] == cs@[i - 1]);
            assert(p.last() == cs@[i - 1]);
        }
        let c = cs[i];
        if is_space_char(c) {
            in_word = false;
        } else if in_word {
            proof {
                lemma_words_nonempty(p);
            }
            let mut last = r.pop().unwrap();
            last.push(c);
            r.push(last);
            assert(forall|j: int| 0 <= j < r@.len() ==> #[trigger] r@[j]@ == words(q)[j]);
            in_word = true;
        } else {
            r.push(vec![c]);
            assert(r@.last()@ =~= seq![c]);
            assert(forall|j: int| 0 <= j < r@.len() ==> #[trigger] r@[j]@ == words(q)[j]);
            in_word = true;
        }
        i += 1;
    }
    assert(cs@.take(i as int) =~= cs@);
    r
}

/// The token of one directive, as `directive` states it.
fn directive_of(item: &Vec<char>) -> (r: Option<String>)
    ensures
        r is Some <==> directive(item@) is Some,
        r is Some ==> r->0@ == directive(item@)->0,
{
    let w = words_of(item);
    if w.len() == 0 {
        return None;
    }
    let proxy = chars_of("PROXY");
    proof {
        reveal_strlit("PROXY");
        assert(proxy@ =~= proxy_word());
        reveal_strlit("http://");
        reveal_strlit("direct://");
        assert("direct://"@ =~= direct_text());
    }
    if w.len() >= 2 && same_chars(&w[0], &proxy) {
        let host = string_of(&w[1]);
        let t = joined("http://", host.as_str());
        assert(t@ =~= http_prefix() + words(item@)[1]);
        Some(t)
    } else {
        Some(String::from_str("direct://"))
    }
}

/// Parses the string that `FindProxyForURL` returned into proxy-URL tokens:
/// double quotes are dropped, the string is split on ';', blank directives are
/// skipped, and each other directive gives one token.
pub fn parse_pac_result(result: &str) -> (r: Vec<String>)
    ensures
        texts_match(r@, pac_tokens(result@)),
        r@.len() >= 1,
{
    let cs = chars_of(result);
    let u = unquote(&cs);
    let mut toks: Vec<String> = Vec::new();
    let mut cur: Vec<char> = Vec::new();
    let mut i: usize = 0;
    while i < u.len()
        invariant
            i <= u@.len(),
            fields(u@.take(i as int)).len() >= 1,
            cur@ == fields(u@.take(i as int)).last(),
            texts_match(toks@, directives(fields(u@.take(i as int)).drop_last())),
        decreases u@.len() - i,
    {
        let ghost f = fields(u@.take(i as int));
        let ghost q = u@.take(i + 1);
        assert(q.drop_last() =~= u@.take(i as int));
        assert(q.last() == u@[i as int]);
        let c = u[i];
        if c == ';' {
            assert(fields(q) == f.push(Seq::<char>::empty()));
            assert(fields(q).drop_last() =~= f);
            let d = directive_of(&cur);
            match d {
                Some(t) => {
                    toks.push(t);
                },
                None => {},
            }
            assert(texts_match(toks@, directives(f)));
            cur = Vec::new();
            assert(cur@ =~= fields(q).last());
        } else {
            assert(fields(q).drop_last() =~= f.drop_last());
            cur.push(c);
            assert(cur@ =~= fields(q).last());
        }
        i += 1;
    }
    assert(u@.take(i as int) =~= u@);
    let ghost f = fields(u@);
    assert(f.drop_last().push(f.last()) =~= f);
    let d = directive_of(&cur);
    match d {
        Some(t) => {
            toks.push(t);
        },
        None => {},
    }
    assert(texts_match(toks@, directives(f)));
    if toks.len() == 0 {
        proof {
            reveal_strlit("direct://");
            assert("direct://"@ =~= direct_text());
        }
        toks.push(String::from_str("direct://"));
    }
    toks
}

/// One character as it stands inside a single-quoted JavaScript string.
pub open spec fn escaped_char(c: char) -> Seq<char> {
    if c == '\\' {
        seq!['\\', '\\']
    } else if c == '\'' {
        seq!['\\', '\'']
    } else if c == '\n' {
        seq!['\\', 'n']
    } else if c == '\r' {
        seq!['\\', 'r']
    } else if c == '\t' {
        seq!['\\', 't']
    } else {
        seq![c]
    }
}

/// `s` as it stands inside a single-quoted JavaScript string.
pub open spec fn js_escaped(s: Seq<char>) -> Seq<char>
    decreases s.len(),
{
    if s.len() == 0 {
        s
    } else {
        js_escaped(s.drop_last()) + escaped_char(s.last())
    }
}

/// Escapes backslash, single quote, newline, carriage return and tab, so that
/// the text can stand inside a single-quoted JavaScript string.
pub fn escape_js_string(s: &str) -> (r: String)
    ensures
        r@ == js_escaped(s@),
{
    let cs = chars_of(s);
    let mut r = String::new();
    let mut i: usize = 0;
    while i < cs.len()
        invariant
            i <= cs@.len(),
            cs@ == s@,
            r@ == js_escaped(cs@.take(i as int)),
        decreases cs@.len() - i,
    {
        assert(cs@.take(i + 1).drop_last() =~= cs@.take(i as int));
        let c = cs[i];
        if c == '\\' {
            push_char(&mut r, '\\');
            push_char(&mut r, '\\');
        } else if c == '\'' {
            push_char(&mut r, '\\');
            push_char(&mut r, '\'');
        } else if c == '\n' {
            push_char(&mut r, '\\');
            push_char(&mut r, 'n');
        } else if c == '\r' {
            push_char(&mut r, '\\');
            push_char(&mut r, 'r');
        } else if c == '\t' {
            push_char(&mut r, '\\');
            push_char(&mut r, 't');
        } else {
            push_char(&mut r, c);
        }
        assert(r@ =~= js_escaped(cs@.take(i + 1)));
        i += 1;
    }
    assert(cs@.take(i as int) =~= cs@);
    r
}

/// The script handed to the engine: the PAC file, a newline, then the helpers.
pub fn pac_payload(pac_file: &str) -> (r: String)
    ensures
        r@ == pac_file@ + "\n"@ + PAC_UTILS@,
{
    joined(pac_file, "\n").concat(PAC_UTILS)
}

pub open spec fn find_proxy_call_text(url: Seq<char>, host: Seq<char>) -> Seq<char> {
    "FindProxyForURL('"@ + js_escaped(url) + "', '"@ + js_escaped(host) + "')"@
}

/// The expression that asks the script for the route of `url` on `host`.
pub fn find_proxy_call(url: &str, host: &str) -> (r: String)
    ensures
        r@ == find_proxy_call_text(url@, host@),
{
    let u = escape_js_string(url);
    let h = escape_js_string(host);
    String::from_str("FindProxyForURL('").concat(u.as_str()).concat("', '").concat(h.as_str()).concat(
        "')",
    )
}

/// Relies on boa_engine: `Context::default`, `Context::eval` of the script and
/// then of the call, `JsValue::to_string` and `JsString::to_std_string`. A
/// script may read the clock or draw random numbers, so nothing is promised of
/// the string returned.
#[verifier::external_body]
fn run_pac_script(script: &str, call: &str) -> (r: Result<String, String>) {
    let mut context = boa_engine::Context::default();
    context.eval(boa_engine::Source::from_bytes(script)).map_err(
        |e| format!("PAC script error: {}", e),
    )?;
    let value = context.eval(boa_engine::Source::from_bytes(call)).map_err(
        |e| format!("PAC execution error: {}", e),
    )?;
    let text = value.to_string(&mut context).map_err(
        |e| format!("Failed to convert result: {}", e),
    )?;
    text.to_std_string().map_err(|_| "Failed to convert result to string".to_string())
}

/// Runs `FindProxyForURL(url, host)` from the PAC file and parses its result
/// into proxy-URL tokens. A URL without a host is refused with `InvalidUri`;
/// a script that fails to compile, to run or to give a string gives
/// `ResolutionFailed`.
pub fn evaluate_pac(pac_file: &str, url: &ParsedUrl) -> (r: Result<Vec<String>, ProxyError>)
    ensures
        url.host is None <==> r matches Err(ProxyError::InvalidUri(_)),
        r is Err ==> r matches Err(ProxyError::InvalidUri(_)) || r matches Err(
            ProxyError::ResolutionFailed(_),
        ),
        r is Ok ==> exists|s: Seq<char>| texts_match(r->Ok_0@, #[trigger] pac_tokens(s)),
        r is Ok ==> r->Ok_0@.len() >= 1,
{
    let host = match &url.host {
        Some(h) => h,
        None => {
            return Err(ProxyError::InvalidUri(String::from_str("Missing host")));
        },
    };
    let payload = pac_payload(pac_file);
    let call = find_proxy_call(url.text.as_str(), host.as_str());
    match run_pac_script(payload.as_str(), call.as_str()) {
        Ok(result) => {
            let tokens = parse_pac_result(result.as_str());
            Ok(tokens)
        },
        Err(message) => Err(ProxyError::ResolutionFailed(message)),
    }
}

/// Whether the routes `rs` are, in order, the ones the tokens `ts` name.
pub open spec fn routes_named(rs: Seq<ProxyRoute>, ts: Seq<Seq<char>>) -> bool {
    &&& rs.len() == ts.len()
    &&& forall|j: int| 0 <= j < rs.len() ==> token_names(ts[j], #[trigger] rs[j])
}

/// Whether one of the tokens `ts` is refused.
pub open spec fn some_refused(ts: Seq<Seq<char>>) -> bool {
    exists|j: int| 0 <= j < ts.len() && token_refused(#[trigger] ts[j])
}

/// Converts each token into a route; the first refused token gives `InvalidUri`.
pub fn routes_from_tokens(tokens: &Vec<String>) -> (r: Result<Vec<ProxyRoute>, ProxyError>)
    ensures
        r is Ok <==> !some_refused(tokens@.map_values(|t: String| t@)),
        r is Ok ==> routes_named(r->Ok_0@, tokens@.map_values(|t: String| t@)),
        r is Err ==> r matches Err(ProxyError::InvalidUri(_)),
{
    let ghost ts = tokens@.map_values(|t: String| t@);
    let mut routes: Vec<ProxyRoute> = Vec::new();
    let mut i: usize = 0;
    while i < tokens.len()
        invariant
            i <= tokens@.len(),
            ts == tokens@.map_values(|t: String| t@),
            routes_named(routes@, ts.take(i as int)),
            forall|j: int| 0 <= j < i ==> !token_refused(#[trigger] ts[j]),
        decreases tokens@.len() - i,
    {
        assert(ts[i as int] == tokens@[i as int]@);
        match parse_proxy_route(tokens[i].as_str()) {
            Ok(route) => {
                routes.push(route);
                assert(forall|j: int|
                    0 <= j < i + 1 ==> ts.take(i + 1)[j] == #[trigger] ts[j]);
                assert(forall|j: int|
                    0 <= j < i ==> ts.take(i as int)[j] == #[trigger] ts[j]);
            },
            Err(e) => {
                assert(token_refused(ts[i as int]));
                return Err(e);
            },
        }
        i += 1;
    }
    assert(ts.take(i as int) =~= ts);
    Ok(routes)
}

/// The routes that a `FindProxyForURL` result stands for, in failover order.
pub fn routes_from_pac_result(result: &str) -> (r: Result<Vec<ProxyRoute>, ProxyError>)
    ensures
        r is Ok <==> !some_refused(pac_tokens(result@)),
        r is Ok ==> routes_named(r->Ok_0@, pac_tokens(result@)),
        r is Ok ==> r->Ok_0@.len() >= 1,
        r matches Ok(rs) ==> forall|j: int| 0 <= j < rs@.len() ==> !(#[trigger] rs@[j] is Blocked),
        r is Err ==> r matches Err(ProxyError::InvalidUri(_)),
{
    let tokens = parse_pac_result(result);
    assert(tokens@.map_values(|t: String| t@) =~= pac_tokens(result@));
    let r = routes_from_tokens(&tokens);
    proof {
        if r is Ok {
            lemma_named_routes_not_blocked(r->Ok_0@, pac_tokens(result@));
        }
    }
    r
}

/// Routes named by tokens are direct or upstream, never blocked.
pub proof fn lemma_named_routes_not_blocked(rs: Seq<ProxyRoute>, ts: Seq<Seq<char>>)
    requires
        routes_named(rs, ts),
    ensures
        forall|j: int| 0 <= j < rs.len() ==> !(#[trigger] rs[j] is Blocked),
{
    assert forall|j: int| 0 <= j < rs.len() implies !(#[trigger] rs[j] is Blocked) by {
        assert(token_names(ts[j], rs[j]));
        if ts[j] != direct_text() {
            let u = choose|u: ParsedUrl| #[trigger] parses_to(ts[j], u) && route_of_url(u) == Some(rs[j]);
            assert(route_of_url(u) == Some(rs[j]));
        }
    }
}

/// Every result stands for at least one token.
pub proof fn lemma_pac_tokens_nonempty(s: Seq<char>)
    ensures
        pac_tokens(s).len() >= 1,
{
}

/// A `FindProxyForURL` result of `""` stands for the direct route alone.
pub proof fn lemma_empty_result_is_direct(rs: Seq<ProxyRoute>)
    requires
        routes_named(rs, pac_tokens(Seq::<char>::empty())),
    ensures
        rs.len() == 1,
        rs[0] is Direct,
{
    assert(unquoted(Seq::<char>::empty()) =~= Seq::<char>::empty());
    assert(directives(fields(Seq::<char>::empty())) =~= Seq::<Seq<char>>::empty()) by {
        reveal_with_fuel(directives, 2);
        assert(words(Seq::<char>::empty()).len() == 0);
    }
    assert(token_names(direct_text(), rs[0]));
}

/// A `PROXY` directive without a host stands for `direct://`.
pub proof fn lemma_bare_proxy_is_direct()
    ensures
        pac_tokens(proxy_word()) == seq![direct_text()],
{
    let s = proxy_word();
    reveal_with_fuel(unquoted, 6);
    assert(unquoted(s) =~= s) by {
        assert(s.take(0).len() == 0);
        assert(s.drop_last().drop_last().drop_last().drop_last().drop_last() =~= Seq::<char>::empty());
        assert(s.drop_last().drop_last().drop_last().drop_last() =~= seq!['P']);
        assert(s.drop_last().drop_last().drop_last() =~= seq!['P', 'R']);
        assert(s.drop_last().drop_last() =~= seq!['P', 'R', 'O']);
        assert(s.drop_last() =~= seq!['P', 'R', 'O', 'X']);
    }
    reveal_with_fuel(fields, 6);
    assert(fields(s) =~= seq![s]) by {
        assert(s.drop_last().drop_last().drop_last().drop_last().drop_last() =~= Seq::<char>::empty());
        assert(s.drop_last().drop_last().drop_last().drop_last() =~= seq!['P']);
        assert(s.drop_last().drop_last().drop_last() =~= seq!['P', 'R']);
        assert(s.drop_last().drop_last() =~= seq!['P', 'R', 'O']);
        assert(s.drop_last() =~= seq!['P', 'R', 'O', 'X']);
    }
    reveal_with_fuel(words, 6);
    assert(words(s) =~= seq![s]) by {
        assert(s.drop_last().drop_last().drop_last().drop_last().drop_last() =~= Seq::<char>::empty());
        assert(s.drop_last().drop_last().drop_last().drop_last() =~= seq!['P']);
        assert(s.drop_last().drop_last().drop_last() =~= seq!['P', 'R']);
        assert(s.drop_last().drop_last() =~= seq!['P', 'R', 'O']);
        assert(s.drop_last() =~= seq!['P', 'R', 'O', 'X']);
    }
    reveal_with_fuel(directives, 2);
    assert(seq![s].drop_last() =~= Seq::<Seq<char>>::empty());
    assert(directives(seq![s]) =~= seq![direct_text()]);
}

} // verus!

//! Upstream-proxy credentials: rules keyed by host pattern, lookup with
//! suffix descent, and a memo of past lookups.

use vstd::prelude::*;
use vstd::string::*;
use vstd::utf8::encode_utf8;

use lru::LruCache;

use crate::cache::{
    credential_cache_capacity, credential_cache_clear, credential_cache_get, credential_cache_put,
    credential_entries, new_credential_cache,
};
use crate::error::ProxyError;
use crate::text::{chars_of, joined};

verus! {

/// Basic-auth credentials for an upstream proxy.
pub struct Credentials {
    pub username: String,
    pub password: String,
}

impl Clone for Credentials {
    fn clone(&self) -> (r: Self)
        ensures
            r == *self,
    {
        Credentials { username: self.username.clone(), password: self.password.clone() }
    }
}

impl View for Credentials {
    type V = (Seq<char>, Seq<char>);

    open spec fn view(&self) -> (Seq<char>, Seq<char>) {
        (self.username@, self.password@)
    }
}

pub open spec fn creds_opt_view(c: Option<Credentials>) -> Option<(Seq<char>, Seq<char>)> {
    match c {
        Some(v) => Some(v@),
        None => None,
    }
}

/// What `base64`'s standard engine makes of a byte string.
pub uninterp spec fn base64_of(bytes: Seq<u8>) -> Seq<char>;

/// Relies on `base64::Engine::encode` with the `STANDARD` engine, applied to
/// the UTF-8 bytes of the text.
#[verifier::external_body]
fn base64_encode(s: &str) -> (r: String)
    ensures
        r@ == base64_of(encode_utf8(s@)),
{
    base64::Engine::encode(&base64::prelude::BASE64_STANDARD, s)
}

/// The `Proxy-Authorization` value for a user and password.
pub open spec fn basic_auth(username: Seq<char>, password: Seq<char>) -> Seq<char> {
    "Basic "@ + base64_of(encode_utf8(username + seq![':'] + password))
}

/// `Basic ` followed by the base64 form of `username:password`.
pub fn encode_credentials(username: &str, password: &str) -> (r: String)
    ensures
        r@ == basic_auth(username@, password@),
{
    let pair = joined(username, ":").concat(password);
    proof {
        reveal_strlit(":");
        assert(pair@ =~= username@ + seq![':'] + password@);
    }
    let encoded = base64_encode(pair.as_str());
    joined("Basic ", encoded.as_str())
}

impl Credentials {
    pub fn new(username: String, password: String) -> (r: Self)
        ensures
            r.username == username,
            r.password == password,
    {
        Credentials { username, password }
    }

    /// The `Proxy-Authorization` header value: `Basic base64(username:password)`.
    pub fn to_basic_auth(&self) -> (r: String)
        ensures
            r@ == basic_auth(self.username@, self.password@),
    {
        encode_credentials(self.username.as_str(), self.password.as_str())
    }
}

/// One configured rule as the configuration file states it: the password is
/// the output of a shell command.
pub struct AuthRule {
    pub remote_pattern: String,
    pub username: String,
    pub password_command: String,
}

/// One credential rule after its password was materialised.
pub struct CredentialRule {
    pub remote_pattern: String,
    pub username: String,
    pub password: String,
}

/// `s` without its leading '.' characters.
pub open spec fn leading_dots_dropped(s: Seq<char>) -> Seq<char>
    decreases s.len(),
{
    if s.len() > 0 && s[0] == '.' {
        leading_dots_dropped(s.drop_first())
    } else {
        s
    }
}

/// `s` without the characters before its first '.'.
pub open spec fn leading_label_dropped(s: Seq<char>) -> Seq<char>
    decreases s.len(),
{
    if s.len() > 0 && s[0] != '.' {
        leading_label_dropped(s.drop_first())
    } else {
        s
    }
}

/// One step of suffix descent: leading dots go, then the first label.
/// `a.example.net` becomes `.example.net`, and `.example.net` becomes `.net`.
pub open spec fn strip_label(host: Seq<char>) -> Seq<char> {
    leading_label_dropped(leading_dots_dropped(host))
}

/// The credentials of the last rule whose pattern is exactly `host`.
pub open spec fn exact_rule(rules: Seq<CredentialRule>, host: Seq<char>) -> Option<
    (Seq<char>, Seq<char>),
>
    decreases rules.len(),
{
    if rules.len() == 0 {
        None
    } else if rules.last().remote_pattern@ == host {
        Some((rules.last().username@, rules.last().password@))
    } else {
        exact_rule(rules.drop_last(), host)
    }
}

/// The credentials for `host`: an exact rule, else those of the host with
/// its first label stripped, while that leaves a shorter non-empty host.
pub open spec fn credential_lookup(rules: Seq<CredentialRule>, host: Seq<char>) -> Option<
    (Seq<char>, Seq<char>),
>
    decreases host.len(),
{
    if host.len() == 0 {
        None
    } else if exact_rule(rules, host) is Some {
        exact_rule(rules, host)
    } else {
        let t = strip_label(host);
        if 0 < t.len() < host.len() {
            credential_lookup(rules, t)
        } else {
            None
        }
    }
}

proof fn lemma_dots_dropped_suffix(s: Seq<char>)
    ensures
        leading_dots_dropped(s).len() <= s.len(),
        leading_dots_dropped(s) == s.skip(s.len() - leading_dots_dropped(s).len()),
        s.len() > 0 && s[0] == '.' ==> leading_dots_dropped(s).len() < s.len(),
    decreases s.len(),
{
    if s.len() > 0 && s[0] == '.' {
        lemma_dots_dropped_suffix(s.drop_first());
        let t = leading_dots_dropped(s.drop_first());
        assert(s.drop_first().skip(s.drop_first().len() - t.len()) =~= s.skip(s.len() - t.len()));
    } else {
        assert(s.skip(0) =~= s);
    }
}

proof fn lemma_label_dropped_suffix(s: Seq<char>)
    ensures
        leading_label_dropped(s).len() <= s.len(),
        leading_label_dropped(s) == s.skip(s.len() - leading_label_dropped(s).len()),
        s.len() > 0 && s[0] != '.' ==> leading_label_dropped(s).len() < s.len(),
    decreases s.len(),
{
    if s.len() > 0 && s[0] != '.' {
        lemma_label_dropped_suffix(s.drop_first());
        let t = leading_label_dropped(s.drop_first());
        assert(s.drop_first().skip(s.drop_first().len() - t.len()) =~= s.skip(s.len() - t.len()));
    } else {
        assert(s.skip(0) =~= s);
    }
}

/// Suffix descent terminates: each step leaves a strictly shorter suffix of
/// a non-empty host.
pub proof fn lemma_strip_label_shorter(host: Seq<char>)
    requires
        host.len() > 0,
    ensures
        strip_label(host).len() < host.len(),
        strip_label(host) == host.skip(host.len() - strip_label(host).len()),
{
    let d = leading_dots_dropped(host);
    lemma_dots_dropped_suffix(host);
    lemma_label_dropped_suffix(d);
    assert(host.skip(host.len() - d.len()).skip(d.len() - strip_label(host).len()) =~= host.skip(
        host.len() - strip_label(host).len(),
    ));
}

/// One step of suffix descent on a host.
pub fn strip_leading_label(host: &str) -> (r: String)
    ensures
        r@ == strip_label(host@),
{
    let cs = chars_of(host);
    let n = cs.len();
    let mut i: usize = 0;
    assert(cs@.skip(0) =~= cs@);
    while i < n && cs[i] == '.'
        invariant
            n == cs@.len(),
            i <= n,
            leading_dots_dropped(cs@) == leading_dots_dropped(cs@.skip(i as int)),
        decreases n - i,
    {
        assert(cs@.skip(i as int).drop_first() =~= cs@.skip(i + 1));
        i += 1;
    }
    assert(leading_dots_dropped(cs@.skip(i as int)) == cs@.skip(i as int));
    let mut j: usize = i;
    while j < n && cs[j] != '.'
        invariant
            n == cs@.len(),
            i <= j <= n,
            leading_label_dropped(cs@.skip(i as int)) == leading_label_dropped(cs@.skip(j as int)),
        decreases n - j,
    {
        assert(cs@.skip(j as int).drop_first() =~= cs@.skip(j + 1));
        j += 1;
    }
    assert(leading_label_dropped(cs@.skip(j as int)) == cs@.skip(j as int));
    let rest = host.substring_char(j, n);
    assert(rest@ =~= cs@.skip(j as int));
    String::from_str(rest)
}

/// A store of credential rules with a memo of past lookups.
pub struct CredentialProvider {
    rules: Vec<CredentialRule>,
    cache: LruCache<String, Option<Credentials>>,
}

/// How many lookups the memo keeps at most.
pub const CREDENTIAL_CACHE_CAPACITY: usize = 5;

impl CredentialProvider {
    /// The rules, in configuration order.
    pub closed spec fn rules(&self) -> Seq<CredentialRule> {
        self.rules@
    }

    /// The memoised lookups, by host.
    pub closed spec fn memo(&self) -> Map<Seq<char>, Option<(Seq<char>, Seq<char>)>> {
        credential_entries(self.cache)
    }

    /// Every memoised lookup is the lookup the rules give.
    #[verifier::type_invariant]
    pub closed spec fn wf(&self) -> bool {
        &&& forall|h: Seq<char>| #[trigger]
            credential_entries(self.cache).contains_key(h) ==> credential_entries(self.cache)[h]
                == credential_lookup(self.rules@, h)
        &&& credential_cache_capacity(self.cache) == CREDENTIAL_CACHE_CAPACITY
        &&& credential_entries(self.cache).dom().finite()
        &&& credential_entries(self.cache).dom().len() <= CREDENTIAL_CACHE_CAPACITY
    }

    /// Takes the materialised rules; a rule with an empty password is a
    /// startup error.
    pub fn new(rules: Vec<CredentialRule>) -> (r: Result<Self, ProxyError>)
        ensures
            r is Ok <==> forall|i: int| 0 <= i < rules@.len() ==> #[trigger] rules@[i].password@.len()
                > 0,
            r is Err ==> r matches Err(ProxyError::AuthenticationFailed(_)),
            r matches Ok(p) ==> p.rules() == rules@ && p.memo().dom().is_empty(),
    {
        let mut i: usize = 0;
        while i < rules.len()
            invariant
                i <= rules@.len(),
                forall|k: int| 0 <= k < i ==> #[trigger] rules@[k].password@.len() > 0,
            decreases rules@.len() - i,
        {
            if rules[i].password.as_str().is_empty() {
                return Err(
                    ProxyError::AuthenticationFailed(
                        String::from_str("password command returned an empty password"),
                    ),
                );
            }
            i += 1;
        }
        Ok(CredentialProvider { rules, cache: new_credential_cache(CREDENTIAL_CACHE_CAPACITY) })
    }

    /// The credentials of the last rule whose pattern is exactly `host`.
    fn find_exact(&self, host: &String) -> (r: Option<Credentials>)
        ensures
            creds_opt_view(r) == exact_rule(self.rules(), host@),
    {
        let mut i: usize = self.rules.len();
        assert(self.rules@.take(i as int) =~= self.rules@);
        while i > 0
            invariant
                i <= self.rules@.len(),
                exact_rule(self.rules@, host@) == exact_rule(self.rules@.take(i as int), host@),
            decreases i,
        {
            let ghost p = self.rules@.take(i as int);
            assert(p.drop_last() =~= self.rules@.take(i - 1));
            let rule = &self.rules[i - 1];
            if rule.remote_pattern == *host {
                return Some(Credentials::new(rule.username.clone(), rule.password.clone()));
            }
            i -= 1;
        }
        None
    }

    /// Looks the host up in the rules, with suffix descent.
    fn find_credentials_for_host(&self, host: &str) -> (r: Option<Credentials>)
        ensures
            creds_opt_view(r) == credential_lookup(self.rules(), host@),
    {
        let mut h = String::from_str(host);
        loop
            invariant
                credential_lookup(self.rules(), host@) == credential_lookup(self.rules(), h@),
            decreases h@.len(),
        {
            if h.as_str().is_empty() {
                return None;
            }
            let exact = self.find_exact(&h);
            if exact.is_some() {
                return exact;
            }
            let t = strip_leading_label(h.as_str());
            proof {
                lemma_strip_label_shorter(h@);
            }
            if t.as_str().is_empty() {
                return None;
            }
            h = t;
        }
    }

    /// The credentials for `host`, through the memo. The result is the one
    /// the rules give, whatever the memo held.
    pub fn get_credentials(&mut self, host: &str) -> (r: Option<Credentials>)
        ensures
            final(self).rules() == old(self).rules(),
            creds_opt_view(r) == credential_lookup(old(self).rules(), host@),
            final(self).memo().dom().len() <= CREDENTIAL_CACHE_CAPACITY,
            final(self).memo().contains_key(host@),
    {
        proof {
            use_type_invariant(&*self);
        }
        let cached = credential_cache_get(&mut self.cache, host);
        match cached {
            Some(found) => found,
            None => {
                let found = self.find_credentials_for_host(host);
                let copy = match &found {
                    Some(c) => Some(c.clone()),
                    None => None,
                };
                credential_cache_put(&mut self.cache, String::from_str(host), copy);
                found
            },
        }
    }

    /// Empties the memo; the rules stay.
    pub fn clear_cache(&mut self)
        ensures
            final(self).rules() == old(self).rules(),
            final(self).memo().dom().is_empty(),
    {
        proof {
            use_type_invariant(&*self);
        }
        credential_cache_clear(&mut self.cache);
    }
}

/// Lookup is a function of the rules and the host alone.
pub proof fn lemma_lookup_deterministic(
    rules_a: Seq<CredentialRule>,
    rules_b: Seq<CredentialRule>,
    host: Seq<char>,
)
    requires
        rules_a == rules_b,
    ensures
        credential_lookup(rules_a, host) == credential_lookup(rules_b, host),
{
}

proof fn lemma_exact_rule_found(rules: Seq<CredentialRule>, host: Seq<char>, i: int)
    requires
        0 <= i < rules.len(),
        rules[i].remote_pattern@ == host,
    ensures
        exact_rule(rules, host) is Some,
    decreases rules.len(),
{
    if rules.last().remote_pattern@ != host {
        assert(i < rules.len() - 1);
        assert(rules.drop_last()[i] == rules[i]);
        lemma_exact_rule_found(rules.drop_last(), host, i);
    }
}

/// A rule whose pattern equals the host is an exact match: the host gets
/// that pattern's credentials, without suffix descent.
pub proof fn lemma_exact_pattern_matches(rules: Seq<CredentialRule>, host: Seq<char>, i: int)
    requires
        0 <= i < rules.len(),
        rules[i].remote_pattern@ == host,
        host.len() > 0,
    ensures
        credential_lookup(rules, host) is Some,
        credential_lookup(rules, host) == exact_rule(rules, host),
{
    lemma_exact_rule_found(rules, host, i);
}

proof fn lemma_label_then_suffix(label: Seq<char>, suffix: Seq<char>)
    requires
        forall|k: int| 0 <= k < label.len() ==> label[k] != '.',
        suffix.len() == 0 || suffix[0] == '.',
    ensures
        leading_label_dropped(label + suffix) == suffix,
    decreases label.len(),
{
    if label.len() > 0 {
        assert((label + suffix).drop_first() =~= label.drop_first() + suffix);
        lemma_label_then_suffix(label.drop_first(), suffix);
    } else {
        assert(label + suffix =~= suffix);
    }
}

/// Suffix descent from a host whose first label is followed by a dotted
/// suffix reaches that suffix, dot included.
pub proof fn lemma_strip_label_of_dotted(label: Seq<char>, suffix: Seq<char>)
    requires
        label.len() > 0,
        forall|k: int| 0 <= k < label.len() ==> label[k] != '.',
        suffix.len() > 0,
        suffix[0] == '.',
    ensures
        strip_label(label + suffix) == suffix,
{
    assert((label + suffix)[0] == label[0]);
    lemma_label_then_suffix(label, suffix);
}

/// A pattern `.example.net` matches `a.example.net`, by suffix descent, and
/// does not match `example.net`.
pub proof fn lemma_dot_pattern_matches_subdomains(rules: Seq<CredentialRule>)
    requires
        rules.len() == 1,
        rules[0].remote_pattern@ == seq!['.', 'e', 'x', 'a', 'm', 'p', 'l', 'e', '.', 'n', 'e', 't'],
    ensures
        credential_lookup(rules, seq!['a', '.', 'e', 'x', 'a', 'm', 'p', 'l', 'e', '.', 'n', 'e', 't'])
            is Some,
        credential_lookup(rules, seq!['e', 'x', 'a', 'm', 'p', 'l', 'e', '.', 'n', 'e', 't']) is None,
{
    let pattern = seq!['.', 'e', 'x', 'a', 'm', 'p', 'l', 'e', '.', 'n', 'e', 't'];
    let sub = seq!['a'] + pattern;
    assert(sub =~= seq!['a', '.', 'e', 'x', 'a', 'm', 'p', 'l', 'e', '.', 'n', 'e', 't']);
    assert(rules.drop_last().len() == 0);
    assert(exact_rule(rules, sub) is None) by {
        reveal_with_fuel(exact_rule, 2);
        assert(rules.last() == rules[0]);
        assert(sub.len() != pattern.len());
    }
    lemma_strip_label_of_dotted(seq!['a'], pattern);
    lemma_exact_pattern_matches(rules, pattern, 0);

    let bare = seq!['e', 'x', 'a', 'm', 'p', 'l', 'e'] + seq!['.', 'n', 'e', 't'];
    assert(bare =~= seq!['e', 'x', 'a', 'm', 'p', 'l', 'e', '.', 'n', 'e', 't']);
    assert(exact_rule(rules, bare) is None) by {
        reveal_with_fuel(exact_rule, 2);
        assert(rules.last() == rules[0]);
        assert(bare.len() != pattern.len());
    }
    let net = seq!['.', 'n', 'e', 't'];
    lemma_strip_label_of_dotted(seq!['e', 'x', 'a', 'm', 'p', 'l', 'e'], net);
    assert(exact_rule(rules, net) is None) by {
        reveal_with_fuel(exact_rule, 2);
        assert(rules.last() == rules[0]);
        assert(net.len() != pattern.len());
    }
    assert(leading_dots_dropped(net) == seq!['n', 'e', 't']) by {
        assert(net.drop_first() =~= seq!['n', 'e', 't']);
        assert(leading_dots_dropped(seq!['n', 'e', 't']) == seq!['n', 'e', 't']);
    }
    lemma_label_then_suffix(seq!['n', 'e', 't'], Seq::<char>::empty());
    assert(seq!['n', 'e', 't'] + Seq::<char>::empty() =~= seq!['n', 'e', 't']);
    assert(strip_label(net).len() == 0);
    assert(credential_lookup(rules, net) is None);
    assert(strip_label(bare) == net);
    assert(credential_lookup(rules, bare) == credential_lookup(rules, net));
}

} // verus!

//! The bounded least-recently-used caches of the `lru` crate, as the routing
//! core uses them: one for PAC scripts keyed by PAC URL, one for credential
//! lookups keyed by host. Their contents are named, and each method the core
//! calls is a wrapper whose contract says what it does to them.

use vstd::prelude::*;

use lru::LruCache;

use crate::credentials::{creds_opt_view, Credentials};

verus! {

/// `lru::LruCache`, held opaque: what a cache holds is named below.
#[verifier::external_type_specification]
#[verifier::external_body]
#[verifier::reject_recursive_types(K)]
#[verifier::reject_recursive_types(V)]
#[verifier::reject_recursive_types(S)]
pub struct ExLruCache<K, V, S>(LruCache<K, V, S>);

/// The hasher `lru::LruCache` uses by default, held opaque.
#[verifier::external_type_specification]
#[verifier::external_body]
pub struct ExDefaultHasher(lru::DefaultHasher);

/// What a PAC-script cache holds: PAC URL to script text.
pub uninterp spec fn script_entries(c: LruCache<String, String>) -> Map<Seq<char>, Seq<char>>;

/// What a credential cache holds: host to the credentials found for it, if any.
pub uninterp spec fn credential_entries(c: LruCache<String, Option<Credentials>>) -> Map<
    Seq<char>,
    Option<(Seq<char>, Seq<char>)>,
>;

/// The bound a PAC-script cache was made with.
pub uninterp spec fn script_cache_capacity(c: LruCache<String, String>) -> nat;

/// The bound a credential cache was made with.
pub uninterp spec fn credential_cache_capacity(c: LruCache<String, Option<Credentials>>) -> nat;

/// Relies on `lru::LruCache::new`: a new cache holds nothing and keeps its bound.
#[verifier::external_body]
pub(crate) fn new_script_cache(capacity: usize) -> (c: LruCache<String, String>)
    requires
        capacity > 0,
    ensures
        script_entries(c).dom() == Set::<Seq<char>>::empty(),
        script_cache_capacity(c) == capacity,
{
    LruCache::new(std::num::NonZeroUsize::new(capacity).unwrap())
}

/// Relies on `lru::LruCache::get`: the value stored under the key, if any;
/// only the recency order changes.
#[verifier::external_body]
pub(crate) fn script_cache_get(c: &mut LruCache<String, String>, key: &str) -> (r: Option<String>)
    ensures
        script_entries(*final(c)) == script_entries(*old(c)),
        script_cache_capacity(*final(c)) == script_cache_capacity(*old(c)),
        r is Some <==> script_entries(*old(c)).contains_key(key@),
        r is Some ==> r->0@ == script_entries(*old(c))[key@],
    no_unwind
{
    c.get(key).cloned()
}

/// Relies on `lru::LruCache::put`: afterwards the key maps to the value; an
/// entry is evicted only when the key is new and the cache is at its bound,
/// and then only one other entry; no other entry is added or changed.
#[verifier::external_body]
pub(crate) fn script_cache_put(c: &mut LruCache<String, String>, key: String, value: String)
    ensures
        script_cache_capacity(*final(c)) == script_cache_capacity(*old(c)),
        script_entries(*final(c)).dom().finite(),
        script_entries(*old(c)).dom().finite() && script_entries(*old(c)).dom().len()
            <= script_cache_capacity(*old(c)) ==> script_entries(*final(c)).dom().len()
            <= script_cache_capacity(*old(c)),
        (script_entries(*old(c)).contains_key(key@) || (script_entries(*old(c)).dom().finite()
            && script_entries(*old(c)).dom().len() < script_cache_capacity(*old(c))))
            ==> script_entries(*final(c)) == script_entries(*old(c)).insert(key@, value@),
        script_entries(*final(c)).contains_key(key@),
        script_entries(*final(c))[key@] == value@,
        forall|k: Seq<char>|
            #[trigger] script_entries(*final(c)).contains_key(k) && k != key@ ==> script_entries(
                *old(c),
            ).contains_key(k) && script_entries(*final(c))[k] == script_entries(*old(c))[k],
    no_unwind
{
    c.put(key, value);
}

/// Relies on `lru::LruCache::clear`: the cache holds nothing afterwards and
/// keeps its bound.
#[verifier::external_body]
pub(crate) fn script_cache_clear(c: &mut LruCache<String, String>)
    ensures
        script_entries(*final(c)).dom() == Set::<Seq<char>>::empty(),
        script_cache_capacity(*final(c)) == script_cache_capacity(*old(c)),
    no_unwind
{
    c.clear();
}

/// Relies on `lru::LruCache::new`: a new cache holds nothing and keeps its bound.
#[verifier::external_body]
pub(crate) fn new_credential_cache(capacity: usize) -> (c: LruCache<String, Option<Credentials>>)
    requires
        capacity > 0,
    ensures
        credential_entries(c).dom() == Set::<Seq<char>>::empty(),
        credential_cache_capacity(c) == capacity,
{
    LruCache::new(std::num::NonZeroUsize::new(capacity).unwrap())
}

/// Relies on `lru::LruCache::get`: the value stored under the key, if any;
/// only the recency order changes.
#[verifier::external_body]
pub(crate) fn credential_cache_get(c: &mut LruCache<String, Option<Credentials>>, key: &str) -> (r:
    Option<Option<Credentials>>)
    ensures
        credential_entries(*final(c)) == credential_entries(*old(c)),
        credential_cache_capacity(*final(c)) == credential_cache_capacity(*old(c)),
        r is Some <==> credential_entries(*old(c)).contains_key(key@),
        r is Some ==> creds_opt_view(r->0) == credential_entries(*old(c))[key@],
    no_unwind
{
    c.get(key).cloned()
}

/// Relies on `lru::LruCache::put`: afterwards the key maps to the value; an
/// entry is evicted only when the key is new and the cache is at its bound,
/// and then only one other entry; no other entry is added or changed.
#[verifier::external_body]
pub(crate) fn credential_cache_put(
    c: &mut LruCache<String, Option<Credentials>>,
    key: String,
    value: Option<Credentials>,
)
    ensures
        credential_cache_capacity(*final(c)) == credential_cache_capacity(*old(c)),
        credential_entries(*final(c)).dom().finite(),
        credential_entries(*old(c)).dom().finite() && credential_entries(*old(c)).dom().len()
            <= credential_cache_capacity(*old(c)) ==> credential_entries(*final(c)).dom().len()
            <= credential_cache_capacity(*old(c)),
        (credential_entries(*old(c)).contains_key(key@) || (credential_entries(*old(c)).dom().finite()
            && credential_entries(*old(c)).dom().len() < credential_cache_capacity(*old(c))))
            ==> credential_entries(*final(c)) == credential_entries(*old(c)).insert(
            key@,
            creds_opt_view(value),
        ),
        credential_entries(*final(c)).contains_key(key@),
        credential_entries(*final(c))[key@] == creds_opt_view(value),
        forall|k: Seq<char>|
            #[trigger] credential_entries(*final(c)).contains_key(k) && k != key@
                ==> credential_entries(*old(c)).contains_key(k) && credential_entries(*final(c))[k]
                == credential_entries(*old(c))[k],
    no_unwind
{
    c.put(key, value);
}

/// Relies on `lru::LruCache::clear`: the cache holds nothing afterwards and
/// keeps its bound.
#[verifier::external_body]
pub(crate) fn credential_cache_clear(c: &mut LruCache<String, Option<Credentials>>)
    ensures
        credential_entries(*final(c)).dom() == Set::<Seq<char>>::empty(),
        credential_cache_capacity(*final(c)) == credential_cache_capacity(*old(c)),
    no_unwind
{
    c.clear();
}

} // verus!

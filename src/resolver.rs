//! The route resolver: owns the active PAC URL and the PAC-script cache, and
//! turns a target URL into its ordered list of routes.

use vstd::prelude::*;

use lru::LruCache;

use crate::cache::{
    new_script_cache, script_cache_capacity, script_cache_clear, script_cache_get, script_cache_put,
    script_entries,
};
use crate::error::ProxyError;
use crate::pac::{
    evaluate_pac, lemma_named_routes_not_blocked, pac_tokens, routes_from_tokens, routes_named,
};
use crate::route::ProxyRoute;
use crate::url::{copy_opt_string, opt_view, ParsedUrl};

verus! {

/// How many PAC scripts the cache holds at most.
pub const PAC_CACHE_CAPACITY: usize = 5;

/// The outcome of one resolution attempt.
pub enum Resolution {
    /// No PAC URL is active: the routes are these, `[Direct]`.
    Routes(Vec<ProxyRoute>),
    /// The active PAC URL's script is cached: run it with `routes_for_script`.
    Evaluate(String),
    /// The script at this PAC URL is not cached: fetch it, hand it to
    /// `store_script`, and resolve again.
    FetchScript(String),
}

/// Resolves target URLs into routes through the active PAC script.
pub struct PacProxyResolver {
    pac_url: Option<String>,
    pac_cache: LruCache<String, String>,
}

impl PacProxyResolver {
    /// The active PAC URL.
    pub closed spec fn active_pac_url(&self) -> Option<Seq<char>> {
        opt_view(self.pac_url)
    }

    /// The cached scripts, by PAC URL.
    pub closed spec fn cached_scripts(&self) -> Map<Seq<char>, Seq<char>> {
        script_entries(self.pac_cache)
    }

    /// The cache holds nothing but the script of the active PAC URL.
    #[verifier::type_invariant]
    pub closed spec fn wf(&self) -> bool {
        &&& forall|k: Seq<char>| #[trigger]
            script_entries(self.pac_cache).contains_key(k) ==> opt_view(self.pac_url) == Some(k)
        &&& script_cache_capacity(self.pac_cache) == PAC_CACHE_CAPACITY
        &&& script_entries(self.pac_cache).dom().finite()
        &&& script_entries(self.pac_cache).dom().len() <= PAC_CACHE_CAPACITY
    }

    /// A resolver with no PAC URL and an empty cache.
    pub fn new() -> (r: Self)
        ensures
            r.active_pac_url() is None,
            r.cached_scripts().dom().is_empty(),
    {
        PacProxyResolver { pac_url: None, pac_cache: new_script_cache(PAC_CACHE_CAPACITY) }
    }

    /// The active PAC URL.
    pub fn pac_url(&self) -> (r: Option<String>)
        ensures
            opt_view(r) == self.active_pac_url(),
    {
        copy_opt_string(&self.pac_url)
    }

    /// Replaces the active PAC URL and empties the script cache in the same
    /// step, so no script of an earlier URL is ever read under the new one.
    pub fn set_pac_url(&mut self, pac_url: Option<String>)
        ensures
            final(self).active_pac_url() == opt_view(pac_url),
            final(self).cached_scripts().dom().is_empty(),
    {
        proof {
            use_type_invariant(&*self);
        }
        script_cache_clear(&mut self.pac_cache);
        self.pac_url = pac_url;
    }

    /// Caches a fetched script, if `pac_url` is still the active PAC URL;
    /// otherwise the script is stale and is dropped.
    pub fn store_script(&mut self, pac_url: &str, script: String)
        ensures
            final(self).active_pac_url() == old(self).active_pac_url(),
            old(self).active_pac_url() == Some(pac_url@) ==> final(self).cached_scripts()
                == Map::<Seq<char>, Seq<char>>::empty().insert(pac_url@, script@),
            old(self).active_pac_url() != Some(pac_url@) ==> final(self).cached_scripts()
                == old(self).cached_scripts(),
    {
        proof {
            use_type_invariant(&*self);
        }
        let is_active = match &self.pac_url {
            Some(u) => *u == String::from_str(pac_url),
            None => false,
        };
        if is_active {
            script_cache_put(&mut self.pac_cache, String::from_str(pac_url), script);
            assert(self.cached_scripts() =~= Map::<Seq<char>, Seq<char>>::empty().insert(
                pac_url@,
                script@,
            ));
        }
    }

    /// The next step of resolving a target: `[Direct]` when there is no PAC
    /// URL; the active PAC URL's cached script, to be run for the target;
    /// otherwise the PAC URL whose script must be fetched first.
    pub fn resolve_all_routes(&mut self) -> (r: Resolution)
        ensures
            final(self).active_pac_url() == old(self).active_pac_url(),
            final(self).cached_scripts() == old(self).cached_scripts(),
            old(self).active_pac_url() is None <==> r is Routes,
            r matches Resolution::Routes(rs) ==> rs@.len() == 1 && rs@[0] is Direct,
            r matches Resolution::Evaluate(s) ==> (old(self).active_pac_url() matches Some(u)
                && old(self).cached_scripts().contains_key(u) && s@ == old(self).cached_scripts()[u]),
            (old(self).active_pac_url() matches Some(u) && old(self).cached_scripts().contains_key(
                u,
            )) ==> r is Evaluate,
            r matches Resolution::FetchScript(u) ==> old(self).active_pac_url() == Some(u@)
                && !old(self).cached_scripts().contains_key(u@),
            (old(self).active_pac_url() matches Some(u) && !old(self).cached_scripts().contains_key(
                u,
            )) ==> r is FetchScript,
    {
        proof {
            use_type_invariant(&*self);
        }
        let current = copy_opt_string(&self.pac_url);
        match current {
            None => {
                let mut routes: Vec<ProxyRoute> = Vec::new();
                routes.push(ProxyRoute::Direct);
                Resolution::Routes(routes)
            },
            Some(url) => {
                let cached = script_cache_get(&mut self.pac_cache, url.as_str());
                match cached {
                    Some(script) => Resolution::Evaluate(script),
                    None => Resolution::FetchScript(url),
                }
            },
        }
    }
}

/// Runs the PAC script for `target` and converts its tokens into routes.
pub fn routes_for_script(script: &str, target: &ParsedUrl) -> (r: Result<Vec<ProxyRoute>, ProxyError>)
    ensures
        target.host is None ==> r matches Err(ProxyError::InvalidUri(_)),
        target.host is Some ==> (r is Ok || r matches Err(ProxyError::ResolutionFailed(_)) || r matches Err(
            ProxyError::InvalidUri(_),
        )),
        r is Ok ==> exists|s: Seq<char>| routes_named(r->Ok_0@, #[trigger] pac_tokens(s)),
        r is Ok ==> r->Ok_0@.len() >= 1,
        r matches Ok(rs) ==> forall|j: int| 0 <= j < rs@.len() ==> !(#[trigger] rs@[j] is Blocked),
{
    match evaluate_pac(script, target) {
        Ok(tokens) => {
            let r = routes_from_tokens(&tokens);
            proof {
                if r is Ok {
                    let s = choose|s: Seq<char>| crate::pac::texts_match(tokens@, #[trigger] pac_tokens(s));
                    assert(tokens@.map_values(|t: String| t@) =~= pac_tokens(s));
                    assert(routes_named(r->Ok_0@, pac_tokens(s)));
                    lemma_named_routes_not_blocked(r->Ok_0@, pac_tokens(s));
                }
            }
            r
        },
        Err(e) => Err(e),
    }
}

/// The first route of a resolution: the one to try first.
pub fn first_route(routes: Vec<ProxyRoute>) -> (r: Result<ProxyRoute, ProxyError>)
    ensures
        routes@.len() >= 1 ==> r == Ok::<ProxyRoute, ProxyError>(routes@[0]),
        routes@.len() == 0 ==> r matches Err(ProxyError::ResolutionFailed(_)),
{
    let mut routes = routes;
    if routes.len() == 0 {
        Err(ProxyError::ResolutionFailed(String::from_str("no routes")))
    } else {
        Ok(routes.swap_remove(0))
    }
}

} // verus!

//! Cache layer for the extracted token and the port bundle.
//!
//! Two bounded key→value stores, one per resource, with manual invalidation
//! only: no entry expires by time. The stores are backed by moka's
//! synchronous cache; their contents are modeled as maps and every access
//! goes through the methods below. On a miss the caller performs the scan or
//! parse and hands the outcome back. Only genuine results are cached: a
//! failed scan, and equally a log that could not be found or read, is never
//! written into the cache, so the next request retries instead of sticking
//! to a negative result.

use vstd::prelude::*;

use crate::types::{CacheConfig, CacheStats, PortInfo, PortInfoView, PortsOutcome, ScanError};

verus! {

/// The bounded key→value cache of an outside crate that backs both stores.
#[verifier::external_type_specification]
#[verifier::external_body]
#[verifier::reject_recursive_types(K)]
#[verifier::reject_recursive_types(V)]
#[verifier::reject_recursive_types(S)]
pub struct ExMokaCache<K, V, S>(moka::sync::Cache<K, V, S>);

/// A string map with no entries.
pub open spec fn empty_str_map() -> Map<Seq<char>, Seq<char>> {
    Map::empty()
}

/// A port-bundle map with no entries.
pub open spec fn empty_ports_map() -> Map<Seq<char>, PortInfoView> {
    Map::empty()
}

/// The entries the token cache holds.
pub uninterp spec fn token_cache_view(c: moka::sync::Cache<String, String>) -> Map<
    Seq<char>,
    Seq<char>,
>;

/// The capacity the token cache was built with.
pub uninterp spec fn token_cache_cap(c: moka::sync::Cache<String, String>) -> int;

/// The entries the ports cache holds.
pub uninterp spec fn ports_cache_view(c: moka::sync::Cache<String, PortInfo>) -> Map<
    Seq<char>,
    PortInfoView,
>;

/// The capacity the ports cache was built with.
pub uninterp spec fn ports_cache_cap(c: moka::sync::Cache<String, PortInfo>) -> int;

/// Relies on `moka::sync::Cache::new`: a fresh cache is empty and is bounded
/// by the given capacity.
#[verifier::external_body]
fn new_token_cache(cap: u64) -> (r: moka::sync::Cache<String, String>)
    ensures
        token_cache_view(r) == empty_str_map(),
        token_cache_cap(r) == cap as int,
{
    moka::sync::Cache::new(cap)
}

/// Relies on `moka::sync::Cache::get`: returns the live entry under the key,
/// if any.
#[verifier::external_body]
fn token_cache_get(c: &moka::sync::Cache<String, String>, key: &str) -> (r: Option<String>)
    ensures
        match r {
            Some(v) => token_cache_view(*c).contains_key(key@) && v@ == token_cache_view(
                *c,
            )[key@],
            None => !token_cache_view(*c).contains_key(key@),
        },
{
    c.get(key)
}

/// Relies on `moka::sync::Cache::insert`: the entry is stored at once; while
/// the cache is under its capacity nothing is evicted, so below capacity an
/// insert changes exactly one entry.
#[verifier::external_body]
fn token_cache_insert(c: &mut moka::sync::Cache<String, String>, key: &str, value: String)
    ensures
        token_cache_cap(*final(c)) == token_cache_cap(*old(c)),
        token_cache_view(*old(c)).len() < token_cache_cap(*old(c)) ==> token_cache_view(*final(c))
            == token_cache_view(*old(c)).insert(key@, value@),
{
    c.insert(key.to_string(), value);
}

/// Relies on `moka::sync::Cache::invalidate_all` followed by
/// `run_pending_tasks`: afterwards no entry is retrievable and the entry
/// count is zero.
#[verifier::external_body]
fn token_cache_clear(c: &mut moka::sync::Cache<String, String>)
    ensures
        token_cache_view(*final(c)) == empty_str_map(),
        token_cache_cap(*final(c)) == token_cache_cap(*old(c)),
{
    c.invalidate_all();
    c.run_pending_tasks();
}

/// Relies on `moka::sync::Cache::run_pending_tasks` followed by
/// `entry_count`: once maintenance has run the count is exact, and
/// maintenance on a cache within its capacity evicts nothing.
#[verifier::external_body]
fn token_cache_entry_count(c: &mut moka::sync::Cache<String, String>) -> (r: u64)
    ensures
        token_cache_cap(*final(c)) == token_cache_cap(*old(c)),
        token_cache_view(*old(c)).len() <= token_cache_cap(*old(c)) ==> token_cache_view(
            *final(c),
        ) == token_cache_view(*old(c)),
        r == token_cache_view(*final(c)).len(),
{
    c.run_pending_tasks();
    c.entry_count()
}

/// Relies on `moka::sync::Cache::new`: a fresh cache is empty and is bounded
/// by the given capacity.
#[verifier::external_body]
fn new_ports_cache(cap: u64) -> (r: moka::sync::Cache<String, PortInfo>)
    ensures
        ports_cache_view(r) == empty_ports_map(),
        ports_cache_cap(r) == cap as int,
{
    moka::sync::Cache::new(cap)
}

/// Relies on `moka::sync::Cache::get`: returns the live entry under the key,
/// if any.
#[verifier::external_body]
fn ports_cache_get(c: &moka::sync::Cache<String, PortInfo>, key: &str) -> (r: Option<PortInfo>)
    ensures
        match r {
            Some(v) => ports_cache_view(*c).contains_key(key@) && v@ == ports_cache_view(
                *c,
            )[key@],
            None => !ports_cache_view(*c).contains_key(key@),
        },
{
    c.get(key)
}

/// Relies on `moka::sync::Cache::insert`: the entry is stored at once; while
/// the cache is under its capacity nothing is evicted, so below capacity an
/// insert changes exactly one entry.
#[verifier::external_body]
fn ports_cache_insert(c: &mut moka::sync::Cache<String, PortInfo>, key: &str, value: PortInfo)
    ensures
        ports_cache_cap(*final(c)) == ports_cache_cap(*old(c)),
        ports_cache_view(*old(c)).len() < ports_cache_cap(*old(c)) ==> ports_cache_view(*final(c))
            == ports_cache_view(*old(c)).insert(key@, value@),
{
    c.insert(key.to_string(), value);
}

/// Relies on `moka::sync::Cache::invalidate_all` followed by
/// `run_pending_tasks`: afterwards no entry is retrievable and the entry
/// count is zero.
#[verifier::external_body]
fn ports_cache_clear(c: &mut moka::sync::Cache<String, PortInfo>)
    ensures
        ports_cache_view(*final(c)) == empty_ports_map(),
        ports_cache_cap(*final(c)) == ports_cache_cap(*old(c)),
{
    c.invalidate_all();
    c.run_pending_tasks();
}

/// Relies on `moka::sync::Cache::run_pending_tasks` followed by
/// `entry_count`: once maintenance has run the count is exact, and
/// maintenance on a cache within its capacity evicts nothing.
#[verifier::external_body]
fn ports_cache_entry_count(c: &mut moka::sync::Cache<String, PortInfo>) -> (r: u64)
    ensures
        ports_cache_cap(*final(c)) == ports_cache_cap(*old(c)),
        ports_cache_view(*old(c)).len() <= ports_cache_cap(*old(c)) ==> ports_cache_view(
            *final(c),
        ) == ports_cache_view(*old(c)),
        r == ports_cache_view(*final(c)).len(),
{
    c.run_pending_tasks();
    c.entry_count()
}

/// The two caches, one for the token and one for the port bundle.
///
/// The outside caches are internally shared handles; the view names above
/// model them as values, which is sound only while each handle stays unique.
/// Nothing here ever clones a cache, and callers mutate a manager only
/// through one exclusive reference at a time.
pub struct CacheManager {
    pub csrf_cache: moka::sync::Cache<String, String>,
    pub ports_cache: moka::sync::Cache<String, PortInfo>,
}

/// The entries of the token cache.
pub open spec fn csrf_view(m: CacheManager) -> Map<Seq<char>, Seq<char>> {
    token_cache_view(m.csrf_cache)
}

/// The entries of the ports cache.
pub open spec fn ports_view(m: CacheManager) -> Map<Seq<char>, PortInfoView> {
    ports_cache_view(m.ports_cache)
}

/// The capacity of the token cache.
pub open spec fn csrf_cap(m: CacheManager) -> int {
    token_cache_cap(m.csrf_cache)
}

/// The capacity of the ports cache.
pub open spec fn ports_cap(m: CacheManager) -> int {
    ports_cache_cap(m.ports_cache)
}

impl CacheManager {
    /// Two empty caches with the default capacity.
    pub fn new() -> (r: Self)
        ensures
            csrf_view(r) == empty_str_map(),
            ports_view(r) == empty_ports_map(),
            csrf_cap(r) == 100,
            ports_cap(r) == 100,
    {
        let config = CacheConfig::default();
        Self::with_config(config)
    }

    /// Two empty caches with the configured capacity.
    pub fn with_config(config: CacheConfig) -> (r: Self)
        ensures
            csrf_view(r) == empty_str_map(),
            ports_view(r) == empty_ports_map(),
            csrf_cap(r) == config.max_cache_entries as int,
            ports_cap(r) == config.max_cache_entries as int,
    {
        Self {
            csrf_cache: new_token_cache(config.max_cache_entries),
            ports_cache: new_ports_cache(config.max_cache_entries),
        }
    }

    /// The cached token under `cache_key`, if any.
    pub fn get_csrf_token(&self, cache_key: &str) -> (r: Option<String>)
        ensures
            match r {
                Some(t) => csrf_view(*self).contains_key(cache_key@) && t@ == csrf_view(
                    *self,
                )[cache_key@],
                None => !csrf_view(*self).contains_key(cache_key@),
            },
    {
        token_cache_get(&self.csrf_cache, cache_key)
    }

    /// Cache a token under `cache_key`. Below capacity, exactly that entry
    /// changes; the ports cache is never touched.
    pub fn set_csrf_token(&mut self, cache_key: &str, token: String)
        ensures
            csrf_view(*old(self)).len() < csrf_cap(*old(self)) ==> csrf_view(*final(self)) == csrf_view(
                *old(self),
            ).insert(cache_key@, token@),
            csrf_cap(*final(self)) == csrf_cap(*old(self)),
            ports_view(*final(self)) == ports_view(*old(self)),
            ports_cap(*final(self)) == ports_cap(*old(self)),
    {
        token_cache_insert(&mut self.csrf_cache, cache_key, token);
    }

    /// The cached port bundle under `cache_key`, if any.
    pub fn get_ports(&self, cache_key: &str) -> (r: Option<PortInfo>)
        ensures
            match r {
                Some(p) => ports_view(*self).contains_key(cache_key@) && p@ == ports_view(
                    *self,
                )[cache_key@],
                None => !ports_view(*self).contains_key(cache_key@),
            },
    {
        ports_cache_get(&self.ports_cache, cache_key)
    }

    /// Cache a port bundle under `cache_key`. Below capacity, exactly that
    /// entry changes; the token cache is never touched.
    pub fn set_ports(&mut self, cache_key: &str, ports: PortInfo)
        ensures
            ports_view(*old(self)).len() < ports_cap(*old(self)) ==> ports_view(*final(self))
                == ports_view(*old(self)).insert(cache_key@, ports@),
            ports_cap(*final(self)) == ports_cap(*old(self)),
            csrf_view(*final(self)) == csrf_view(*old(self)),
            csrf_cap(*final(self)) == csrf_cap(*old(self)),
    {
        ports_cache_insert(&mut self.ports_cache, cache_key, ports);
    }

    /// Empty both caches. Each cache is cleared on its own; there is no
    /// cross-cache transaction to undo.
    pub fn clear_all(&mut self)
        ensures
            csrf_view(*final(self)) == empty_str_map(),
            ports_view(*final(self)) == empty_ports_map(),
            csrf_cap(*final(self)) == csrf_cap(*old(self)),
            ports_cap(*final(self)) == ports_cap(*old(self)),
    {
        token_cache_clear(&mut self.csrf_cache);
        ports_cache_clear(&mut self.ports_cache);
    }

    /// The live entry count of each cache.
    pub fn get_stats(&mut self) -> (r: CacheStats)
        ensures
            csrf_view(*old(self)).len() <= csrf_cap(*old(self)) && ports_view(*old(self)).len()
                <= ports_cap(*old(self)) ==> csrf_view(*final(self)) == csrf_view(*old(self))
                && ports_view(*final(self)) == ports_view(*old(self)),
            csrf_cap(*final(self)) == csrf_cap(*old(self)),
            ports_cap(*final(self)) == ports_cap(*old(self)),
            r.csrf_cache_size == csrf_view(*final(self)).len(),
            r.ports_cache_size == ports_view(*final(self)).len(),
    {
        let csrf_cache_size = token_cache_entry_count(&mut self.csrf_cache);
        let ports_cache_size = ports_cache_entry_count(&mut self.ports_cache);
        CacheStats { csrf_cache_size, ports_cache_size }
    }
}

/// The fixed key under which the token is cached.
pub open spec fn csrf_key() -> Seq<char> {
    "csrf_token"@
}

/// The fixed key under which the port bundle is cached.
pub open spec fn ports_key() -> Seq<char> {
    "ports_info"@
}

/// Cache lookup beginning a token request: the token cached under the fixed
/// token key, if any. On a hit the caller returns it at once; only on a miss
/// does it scan process memory.
pub fn cached_csrf_token(m: &CacheManager) -> (r: Option<String>)
    ensures
        match r {
            Some(t) => csrf_view(*m).contains_key(csrf_key()) && t@ == csrf_view(
                *m,
            )[csrf_key()],
            None => !csrf_view(*m).contains_key(csrf_key()),
        },
{
    m.get_csrf_token("csrf_token")
}

/// Cache lookup beginning a ports request: the port bundle cached under the
/// fixed ports key, if any.
pub fn cached_ports(m: &CacheManager) -> (r: Option<PortInfo>)
    ensures
        match r {
            Some(p) => ports_view(*m).contains_key(ports_key()) && p@ == ports_view(
                *m,
            )[ports_key()],
            None => !ports_view(*m).contains_key(ports_key()),
        },
{
    m.get_ports("ports_info")
}

/// Finish a token request after a cache miss, given the scan's outcome: a
/// token that was found is cached under the token key and returned; a failed
/// scan is returned as it is and nothing is cached, so the next request
/// scans afresh instead of sticking to a negative result.
pub fn finish_token_request(m: &mut CacheManager, scan: Result<String, ScanError>) -> (r: Result<
    String,
    ScanError,
>)
    ensures
        csrf_cap(*final(m)) == csrf_cap(*old(m)),
        ports_view(*final(m)) == ports_view(*old(m)),
        ports_cap(*final(m)) == ports_cap(*old(m)),
        match scan {
            Ok(t) => ({
                &&& r matches Ok(rt) && rt@ == t@
                &&& csrf_view(*old(m)).len() < csrf_cap(*old(m)) ==> csrf_view(*final(m))
                    == csrf_view(*old(m)).insert(csrf_key(), t@)
            }),
            Err(e) => r matches Err(e2) && e2 == e && csrf_view(*final(m)) == csrf_view(*old(m)),
        },
{
    match scan {
        Ok(t) => {
            m.set_csrf_token("csrf_token", t.clone());
            Ok(t)
        },
        Err(e) => Err(e),
    }
}

/// A copy of the port bundle whose view is the original's.
fn duplicate_port_info(p: &PortInfo) -> (r: PortInfo)
    ensures
        r@ == p@,
{
    PortInfo {
        https_port: p.https_port,
        http_port: p.http_port,
        extension_port: p.extension_port,
        log_path: match &p.log_path {
            Some(s) => Some(s.clone()),
            None => None,
        },
    }
}

/// Finish a ports request after a cache miss, given what the pass over the
/// log yielded. A bundle parsed from a log is cached under the ports key and
/// returned, even when it announces no ports. When no log could be found or
/// read, the all-absent bundle is returned — a valid steady state, not an
/// error — and nothing is cached, so the next request looks for the log
/// afresh.
pub fn finish_ports_request(m: &mut CacheManager, outcome: PortsOutcome) -> (r: PortInfo)
    ensures
        ports_cap(*final(m)) == ports_cap(*old(m)),
        csrf_view(*final(m)) == csrf_view(*old(m)),
        csrf_cap(*final(m)) == csrf_cap(*old(m)),
        match outcome {
            PortsOutcome::Parsed(p) => ({
                &&& r@ == p@
                &&& ports_view(*old(m)).len() < ports_cap(*old(m)) ==> ports_view(*final(m))
                    == ports_view(*old(m)).insert(ports_key(), p@)
            }),
            PortsOutcome::LogUnavailable => ({
                &&& r.https_port is None
                &&& r.http_port is None
                &&& r.extension_port is None
                &&& r.log_path is None
                &&& ports_view(*final(m)) == ports_view(*old(m))
            }),
        },
{
    match outcome {
        PortsOutcome::Parsed(p) => {
            let copy = duplicate_port_info(&p);
            m.set_ports("ports_info", copy);
            p
        },
        PortsOutcome::LogUnavailable => PortInfo::default(),
    }
}

/// The live entry count of each cache. Mirrors `CacheManager::get_stats`
/// for callers that hold the cache context rather than the manager itself.
pub fn get_stats(m: &mut CacheManager) -> (r: CacheStats)
    ensures
        csrf_view(*old(m)).len() <= csrf_cap(*old(m)) && ports_view(*old(m)).len() <= ports_cap(
            *old(m),
        ) ==> csrf_view(*final(m)) == csrf_view(*old(m)) && ports_view(*final(m)) == ports_view(
            *old(m),
        ),
        csrf_cap(*final(m)) == csrf_cap(*old(m)),
        ports_cap(*final(m)) == ports_cap(*old(m)),
        r.csrf_cache_size == csrf_view(*final(m)).len(),
        r.ports_cache_size == ports_view(*final(m)).len(),
{
    m.get_stats()
}

/// Idempotent cache: the token stored when one request finishes is exactly
/// what the next request's lookup under the token key returns, so with no
/// intervening invalidation the expensive scan runs at most once and both
/// requests hand back the identical string.
pub proof fn lemma_idempotent_cache(before: Map<Seq<char>, Seq<char>>, t: Seq<char>)
    ensures
        before.insert(csrf_key(), t).contains_key(csrf_key()),
        before.insert(csrf_key(), t)[csrf_key()] == t,
{
}

/// Cache clear: once both caches are empty, the statistics report zero
/// entries for each, and a lookup under either fixed key misses, so the next
/// request performs a fresh scan or parse.
pub proof fn lemma_cleared_cache_is_cold(m: CacheManager)
    requires
        csrf_view(m) == empty_str_map(),
        ports_view(m) == empty_ports_map(),
    ensures
        csrf_view(m).len() == 0,
        ports_view(m).len() == 0,
        !csrf_view(m).contains_key(csrf_key()),
        !ports_view(m).contains_key(ports_key()),
{
}

} // verus!

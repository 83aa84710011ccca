//! The reverse-lookup cache: for resolved IP addresses, whether they were meant to be
//! proxied, kept only where that differs from what the access-control list says.

use crate::acl::{default_forward, AccessControl, Address, IpAddress};
use lru_time_cache::LruCache;
use vstd::prelude::*;

verus! {

#[verifier::external_type_specification]
#[verifier::external_body]
#[verifier::reject_recursive_types(K)]
#[verifier::reject_recursive_types(V)]
pub struct ExLruCache<K, V>(LruCache<K, V>);

/// The cache key of an address: its family (4 or 6) and its value.
pub type IpKey = (u8, u128);

pub type IpCache = LruCache<IpKey, bool>;

/// The entries a cache keyed by `IpAddress::key` holds; expired ones stay until the
/// next `get` or `insert` drops them.
pub uninterp spec fn cache_entries(c: IpCache) -> Map<IpKey, bool>;

/// Relies on `LruCache::with_expiry_duration`: an empty cache whose entries expire
/// after `ttl_secs` seconds without use, with no capacity bound. The bound on `ttl_secs`
/// keeps the expiry sums of later `get` and `insert` calls (`Instant + Duration`) in range.
#[verifier::external_body]
fn cache_new(ttl_secs: u64) -> (r: IpCache)
    requires
        ttl_secs <= REVERSE_LOOKUP_TTL_SECS,
    ensures
        cache_entries(r).dom() == Set::<IpKey>::empty(),
{
    LruCache::with_expiry_duration(std::time::Duration::from_secs(ttl_secs))
}

/// Relies on `LruCache::get`: expired entries are dropped first, then the value under
/// `key` is returned if it is still there (its timestamp is refreshed, its value kept).
#[verifier::external_body]
fn cache_get(c: &mut IpCache, key: IpKey) -> (r: Option<bool>)
    ensures
        cache_entries(*final(c)).submap_of(cache_entries(*old(c))),
        match r {
            Some(v) => cache_entries(*final(c)).contains_key(key) && cache_entries(*final(c))[key] == v,
            None => !cache_entries(*final(c)).contains_key(key),
        },
{
    c.get(&key).copied()
}

/// Relies on `LruCache::insert`: expired entries are dropped, then `key` maps to `value`.
#[verifier::external_body]
fn cache_insert(c: &mut IpCache, key: IpKey, value: bool)
    ensures
        cache_entries(*final(c)).contains_key(key),
        cache_entries(*final(c))[key] == value,
        cache_entries(*final(c)).remove(key).submap_of(cache_entries(*old(c))),
{
    c.insert(key, value);
}

/// Relies on `LruCache::remove`: the entry under `key`, if any, is removed; no other changes.
#[verifier::external_body]
fn cache_remove(c: &mut IpCache, key: IpKey)
    ensures
        cache_entries(*final(c)) == cache_entries(*old(c)).remove(key),
{
    c.remove(&key);
}

/// How long an unused entry is kept: three days.
pub const REVERSE_LOOKUP_TTL_SECS: u64 = 3 * 24 * 60 * 60;

pub struct ReverseLookupCache {
    cache: IpCache,
}

impl ReverseLookupCache {
    pub closed spec fn entries(&self) -> Map<IpKey, bool> {
        cache_entries(self.cache)
    }

    /// Whether recording `forward` for `ip` is an exception to the list's own decision.
    pub open spec fn is_exception(acl: Option<&AccessControl>, ip: IpAddress, forward: bool) -> bool {
        forward != default_forward(acl, ip)
    }

    /// What one `add_to_reverse_lookup_cache` does: an exception is stored (other
    /// entries may only expire); a decision that agrees with the list removes the entry.
    pub open spec fn recorded(
        self,
        next: Self,
        acl: Option<&AccessControl>,
        ip: IpAddress,
        forward: bool,
    ) -> bool {
        if Self::is_exception(acl, ip, forward) {
            &&& next.entries().contains_key(ip.key())
            &&& next.entries()[ip.key()] == forward
            &&& next.entries().remove(ip.key()).submap_of(self.entries())
        } else {
            next.entries() == self.entries().remove(ip.key())
        }
    }

    /// What one `lookup_reverse` does: entries may only expire, and the answer is the
    /// entry still held for `ip`, if any.
    pub open spec fn looked_up(self, next: Self, ip: IpAddress, r: Option<bool>) -> bool {
        &&& next.entries().submap_of(self.entries())
        &&& (r matches Some(v) ==> self.entries().contains_key(ip.key()) && self.entries()[ip.key()] == v)
        &&& match r {
            Some(v) => next.entries().contains_key(ip.key()) && next.entries()[ip.key()] == v,
            None => !next.entries().contains_key(ip.key()),
        }
    }

    pub fn new() -> (r: ReverseLookupCache)
        ensures
            r.entries().dom() == Set::<IpKey>::empty(),
    {
        ReverseLookupCache { cache: cache_new(REVERSE_LOOKUP_TTL_SECS) }
    }

    /// Records whether `addr` was resolved for forwarding; only a decision that differs
    /// from the list's (proxy everything when there is no list) is kept.
    pub fn add_to_reverse_lookup_cache(
        &mut self,
        acl: Option<&AccessControl>,
        addr: &IpAddress,
        forward: bool,
    )
        ensures
            old(self).recorded(*final(self), acl, *addr, forward),
    {
        let default_forward = match acl {
            None => true,
            Some(a) => a.check_ip_in_proxy_list(addr),
        };
        let is_exception = forward != default_forward;
        let key = addr.cache_key();
        if is_exception {
            cache_insert(&mut self.cache, key, forward);
        } else {
            // an entry that agrees with the list is not worth remembering
            cache_remove(&mut self.cache, key);
        }
    }

    /// The cached forwarding decision for `addr`, if one is still held.
    pub fn lookup_reverse(&mut self, addr: &IpAddress) -> (r: Option<bool>)
        ensures
            old(self).looked_up(*final(self), *addr, r),
    {
        cache_get(&mut self.cache, addr.cache_key())
    }

    /// Whether `target` goes direct instead of through the proxy. With no list nothing
    /// is bypassed. A resolved address with a cached decision follows that decision;
    /// otherwise the list decides.
    pub fn check_target_bypassed(&mut self, acl: Option<&AccessControl>, target: &Address) -> (r: bool)
        ensures
            final(self).entries().submap_of(old(self).entries()),
            acl.is_none() ==> !r && final(self).entries() == old(self).entries(),
            acl.is_some() ==> r == match *target {
                Address::SocketAddress(ip, _) => if final(self).entries().contains_key(ip.key()) {
                    !final(self).entries()[ip.key()]
                } else {
                    acl.unwrap().bypasses(*target)
                },
                Address::DomainNameAddress(_, _) => acl.unwrap().bypasses(*target),
            },
    {
        match acl {
            None => false,
            Some(a) => {
                if let Address::SocketAddress(ip, _) = target {
                    // a cached decision for this address overrides the list
                    if let Some(forward) = self.lookup_reverse(ip) {
                        return !forward;
                    }
                }
                a.check_target_bypassed(target)
            },
        }
    }
}

/// Self-pruning: a decision that agrees with the list leaves nothing for a later lookup
/// to find, while an exception is the only value a later lookup can return (until it expires).
pub proof fn lemma_reverse_cache_self_pruning(
    c0: ReverseLookupCache,
    c1: ReverseLookupCache,
    c2: ReverseLookupCache,
    acl: Option<&AccessControl>,
    ip: IpAddress,
    forward: bool,
    r: Option<bool>,
)
    requires
        c0.recorded(c1, acl, ip, forward),
        c1.looked_up(c2, ip, r),
    ensures
        !ReverseLookupCache::is_exception(acl, ip, forward) ==> r is None,
        ReverseLookupCache::is_exception(acl, ip, forward) ==> r is None || r == Some(forward),
{
    if r is Some {
        assert(c2.entries().dom().contains(ip.key()));
        assert(c1.entries().contains_key(ip.key()));
    }
}

} // verus!

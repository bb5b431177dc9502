//! Per-tenant configuration values and the subdomain label they are looked
//! up by. Loading from disk stays with the surrounding service.

use vstd::prelude::*;
use crate::strutil::{contains_char, ffirst, str_contains_char, str_eq, str_find_char};

verus! {

/// Small per-tenant configuration.
#[derive(Debug, Clone)]
pub struct TenantConfig {
    pub name: String,
    pub default_remote: Option<String>,
    pub allowed_remotes: Option<Vec<String>>,
}

impl TenantConfig {
    /// The configuration used when a tenant has none of its own.
    pub fn default_config() -> (r: Self)
        ensures
            r.name@ == "default"@,
            r.default_remote is None,
            r.allowed_remotes is None,
    {
        TenantConfig {
            name: String::from_str("default"),
            default_remote: None,
            allowed_remotes: None,
        }
    }
}

/// Tenant label of a host: its first `.`-separated part, with the apex
/// domain and port-only forms mapping to `default`.
pub open spec fn subdomain_of(host: Seq<char>) -> Seq<char> {
    let k = ffirst(host, '.');
    let sub = if k >= 0 {
        host.subrange(0, k)
    } else {
        host
    };
    if sub == "srcuri"@ || contains_char(sub, ':') {
        "default"@
    } else {
        sub
    }
}

/// Extracts the tenant label from a request host.
pub fn extract_subdomain(host: &str) -> (r: String)
    ensures
        r@ == subdomain_of(host@),
{
    let sub: &str = match str_find_char(host, '.') {
        Some(k) => host.substring_char(0, k),
        None => host,
    };
    if str_eq(sub, "srcuri") || str_contains_char(sub, ':') {
        String::from_str("default")
    } else {
        String::from_str(sub)
    }
}

} // verus!

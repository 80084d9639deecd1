//! Where domain names are resolved, and with which servers.
use vstd::prelude::*;

use crate::text::{chars_eq, chars_of, lowercase, to_lowercase};

verus! {

/// Where a domain name that no domain rule matches is resolved.
#[derive(Debug, Clone, Copy, PartialEq, Eq, Structural)]
pub enum DNSResolver {
    /// Resolved here; the address is then matched by the address rules.
    Local,
    /// Left to the server; only the domain rules are matched here.
    Remote,
}

/// The resolver that a lowercased name names.
pub open spec fn resolver_named(l: Seq<char>) -> Option<DNSResolver> {
    if l == seq!['l', 'o', 'c', 'a', 'l'] {
        Some(DNSResolver::Local)
    } else if l == seq!['r', 'e', 'm', 'o', 't', 'e'] {
        Some(DNSResolver::Remote)
    } else {
        None
    }
}

impl DNSResolver {
    /// The resolver named by `s`, in any case: "local" or "remote".
    pub fn from_str(s: &str) -> (r: Option<DNSResolver>)
        ensures
            r == resolver_named(lowercase(s@)),
    {
        let lower = to_lowercase(s);
        let l = chars_of(lower.as_str());
        let local = ['l', 'o', 'c', 'a', 'l'];
        let remote = ['r', 'e', 'm', 'o', 't', 'e'];
        assert(local@ =~= seq!['l', 'o', 'c', 'a', 'l']);
        assert(remote@ =~= seq!['r', 'e', 'm', 'o', 't', 'e']);
        if chars_eq(l.as_slice(), local.as_slice()) {
            Some(DNSResolver::Local)
        } else if chars_eq(l.as_slice(), remote.as_slice()) {
            Some(DNSResolver::Remote)
        } else {
            None
        }
    }
}

/// The resolver and the name servers to ask.
#[derive(Debug, Clone, PartialEq, Eq)]
pub struct DnsConfig {
    pub resolver: DNSResolver,
    pub server: Option<Vec<String>>,
}

impl Default for DnsConfig {
    /// Local resolution with the system's name servers.
    fn default() -> (r: DnsConfig)
        ensures
            r.resolver == DNSResolver::Local,
            r.server is None,
    {
        DnsConfig { resolver: DNSResolver::Local, server: None }
    }
}

} // verus!

//! What a DNS lookup of a variant found.
use vstd::prelude::*;

verus! {

/// Addresses a variant resolves to.
pub struct DnsInfo {
    /// Did the domain resolve to at least one A/AAAA record?
    pub resolves: bool,
    /// Every address found, in textual form
    pub ips: Vec<String>,
    /// Hosting network of the first address, when it could be looked up
    pub asn_hint: Option<String>,
}

impl DnsInfo {
    /// The outcome of a lookup: the domain resolves exactly when at least
    /// one address was found.
    pub fn from_lookup(ips: Vec<String>, asn_hint: Option<String>) -> (d: DnsInfo)
        ensures
            d.resolves == (ips@.len() > 0),
            d.ips@ == ips@,
            d.asn_hint == asn_hint,
    {
        let resolves = ips.len() > 0;
        DnsInfo { resolves, ips, asn_hint }
    }

    /// The address whose hosting network is looked up: the first one found.
    pub fn asn_lookup_target(&self) -> (r: Option<&String>)
        ensures
            r matches Some(ip) ==> self.ips@.len() > 0 && *ip == self.ips@[0],
            r is None <==> self.ips@.len() == 0,
    {
        if self.ips.len() > 0 {
            Some(&self.ips[0])
        } else {
            None
        }
    }
}

} // verus!

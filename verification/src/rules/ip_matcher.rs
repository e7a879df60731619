//! Longest-prefix matching of addresses against a set of networks, each with a value.

use vstd::prelude::*;
use crate::ip::{IpAddress, Network, network_or_host, parse_network};
use crate::ip_table::{NetMap, is_longest_match, no_match};

verus! {

/// Some network of `d` contains `ip`.
pub open spec fn covered(d: Set<Network>, ip: IpAddress) -> bool {
    exists|n: Network| #[trigger] d.contains(n) && n.contains_spec(ip)
}

/// Networks (CIDR or bare addresses) mapped to values, queried by the most
/// specific network that contains an address.
pub struct IpMatcher<V> {
    map: NetMap<V>,
}

impl<V> View for IpMatcher<V> {
    type V = Map<Network, V>;

    closed spec fn view(&self) -> Map<Network, V> {
        self.map.view()
    }
}

impl<V> IpMatcher<V> {
    #[verifier::type_invariant]
    spec fn inv(self) -> bool {
        self.map.wf()
    }

    /// An empty matcher.
    pub fn new() -> (r: Self)
        ensures
            r@ == Map::<Network, V>::empty(),
    {
        IpMatcher { map: NetMap::new() }
    }

    /// Adds a CIDR, or a bare address as `/32` or `/128`, with its value.
    /// Gives back whether the text was understood; if not, nothing changes.
    pub fn insert(&mut self, cidr_or_ip: &str, value: V) -> (ok: bool)
        ensures
            ok == network_or_host(cidr_or_ip@) is Some,
            match network_or_host(cidr_or_ip@) {
                Some(n) => final(self)@ == old(self)@.insert(n, value),
                None => final(self)@ == old(self)@,
            },
    {
        proof { use_type_invariant(&*self); }
        match parse_network(cidr_or_ip) {
            Some(n) => {
                let mut m = NetMap::new();
                std::mem::swap(&mut m, &mut self.map);
                m.insert(n, value);
                self.map = m;
                true
            },
            None => false,
        }
    }

    /// The value of the most specific network that contains `ip`.
    pub fn longest_match(&self, ip: IpAddress) -> (r: Option<&V>)
        ensures
            r is None <==> !covered(self@.dom(), ip),
            r matches Some(v) ==> exists|n: Network|
                is_longest_match(self@.dom(), ip, n) && *v == #[trigger] self@[n],
    {
        proof { use_type_invariant(self); }
        match self.map.longest_match(ip) {
            Some((n, v)) => {
                assert(is_longest_match(self@.dom(), ip, n) && *v == self@[n]);
                Some(v)
            },
            None => None,
        }
    }

    /// Whether some network contains `ip`.
    pub fn contains(&self, ip: IpAddress) -> (b: bool)
        ensures
            b == covered(self@.dom(), ip),
    {
        self.longest_match(ip).is_some()
    }

    /// The number of networks.
    pub fn len(&self) -> (r: usize)
        ensures
            r == self@.dom().len(),
    {
        proof { use_type_invariant(self); }
        self.map.len()
    }

    /// Whether there is no network at all.
    pub fn is_empty(&self) -> (b: bool)
        ensures
            b == (self@.dom().len() == 0),
    {
        self.len() == 0
    }
}

impl<V> Default for IpMatcher<V> {
    /// An empty matcher.
    fn default() -> (r: Self)
        ensures
            r@ == Map::<Network, V>::empty(),
    {
        Self::new()
    }
}

} // verus!

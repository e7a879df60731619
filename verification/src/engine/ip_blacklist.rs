//! The address blacklist: ports, addresses and CIDR blocks, and, when a GeoIP
//! lookup is at hand, AS numbers, regions, cities and Chinese network types.

use vstd::prelude::*;
use std::collections::HashSet;
use crate::domain::ban::{CheckResult, PeerAction};
use crate::domain::peer::Peer;
use crate::geoip::IpGeoData;
use crate::ip::{IpAddress, Network, ip_text, ip_to_string};
use crate::rules::ip_matcher::{IpMatcher, covered};
use crate::text::{chars_of, contains_chars, contains_spec, decimal, push_decimal, push_str, string_from_chars};

verus! {

broadcast use vstd::std_specs::hash::group_hash_axioms;

/// Which check of the blacklist bans a peer, in the order they are tried.
pub enum BlacklistHit {
    Port,
    Ip,
    Asn(u32),
    Region(Seq<char>),
    City(Seq<char>),
    NetType(Seq<char>),
    Pass,
}

/// `s` is one of the texts of `v`.
pub open spec fn holds_text(v: Seq<String>, s: Seq<char>) -> bool {
    exists|i: int| 0 <= i < v.len() && #[trigger] v[i]@ == s
}

/// `city` contains one of the texts of `v`.
pub open spec fn city_listed(v: Seq<String>, city: Seq<char>) -> bool {
    exists|i: int| 0 <= i < v.len() && contains_spec(city, #[trigger] v[i]@)
}

/// The address blacklist.
pub struct IpBlackList {
    pub ban_duration: i64,
    pub ips: IpMatcher<()>,
    pub ports: HashSet<u16>,
    pub asns: HashSet<u32>,
    pub regions: Vec<String>,
    pub cities: Vec<String>,
    pub net_types: Vec<String>,
}

impl IpBlackList {
    /// Whether any check needs a GeoIP lookup.
    pub open spec fn needs_geoip_spec(self) -> bool {
        !self.asns@.is_empty() || self.regions@.len() > 0 || self.cities@.len() > 0
            || self.net_types@.len() > 0
    }

    /// The check that bans a peer at `ip` and `port`, given what the lookup found.
    pub open spec fn hit(self, ip: IpAddress, port: u16, geo: Option<IpGeoData>) -> BlacklistHit {
        if self.ports@.contains(port) {
            BlacklistHit::Port
        } else if covered(self.ips@.dom(), ip) {
            BlacklistHit::Ip
        } else if !self.needs_geoip_spec() {
            BlacklistHit::Pass
        } else {
            match geo {
                None => BlacklistHit::Pass,
                Some(g) => {
                    if g.asn is Some && self.asns@.contains(g.asn->0) {
                        BlacklistHit::Asn(g.asn->0)
                    } else if g.country_iso is Some && holds_text(self.regions@, g.country_iso->0@) {
                        BlacklistHit::Region(g.country_iso->0@)
                    } else if g.city_name is Some && city_listed(self.cities@, g.city_name->0@) {
                        BlacklistHit::City(g.city_name->0@)
                    } else if g.net_type is Some && holds_text(self.net_types@, g.net_type->0@) {
                        BlacklistHit::NetType(g.net_type->0@)
                    } else {
                        BlacklistHit::Pass
                    }
                },
            }
        }
    }

    /// A blacklist of the given addresses (CIDR or bare; unreadable ones are
    /// skipped) and the other lists.
    pub fn new(
        ban_duration: i64,
        ip_list: &Vec<String>,
        ports: HashSet<u16>,
        asns: HashSet<u32>,
        regions: Vec<String>,
        cities: Vec<String>,
        net_types: Vec<String>,
    ) -> (r: IpBlackList)
        ensures
            r.ban_duration == ban_duration,
            r.ports@ == ports@,
            r.asns@ == asns@,
            r.regions@ == regions@,
            r.cities@ == cities@,
            r.net_types@ == net_types@,
            r.ips@.dom() == Set::new(|n: Network| exists|i: int|
                0 <= i < ip_list@.len() && #[trigger] crate::ip::network_or_host(ip_list@[i]@) == Some(n)),
    {
        let mut ips: IpMatcher<()> = IpMatcher::new();
        let mut i: usize = 0;
        while i < ip_list.len()
            invariant
                i <= ip_list@.len(),
                ips@.dom() == Set::new(|n: Network| exists|k: int|
                    0 <= k < i && #[trigger] crate::ip::network_or_host(ip_list@[k]@) == Some(n)),
            decreases ip_list@.len() - i,
        {
            let ghost before = ips@.dom();
            ips.insert(ip_list[i].as_str(), ());
            proof {
                assert(ips@.dom() =~= Set::new(|n: Network| exists|k: int|
                    0 <= k < i + 1 && #[trigger] crate::ip::network_or_host(ip_list@[k]@) == Some(n))) by {
                    assert forall|n: Network| ips@.dom().contains(n) implies exists|k: int|
                        0 <= k < i + 1 && #[trigger] crate::ip::network_or_host(ip_list@[k]@) == Some(n) by {
                        if !before.contains(n) {
                            assert(crate::ip::network_or_host(ip_list@[i as int]@) == Some(n));
                        }
                    }
                    assert forall|n: Network| (exists|k: int|
                        0 <= k < i + 1 && #[trigger] crate::ip::network_or_host(ip_list@[k]@) == Some(n))
                        implies ips@.dom().contains(n) by {
                        let k = choose|k: int| 0 <= k < i + 1 && #[trigger] crate::ip::network_or_host(ip_list@[k]@) == Some(n);
                        if k < i {
                            assert(before.contains(n));
                        }
                    }
                }
            }
            i += 1;
        }
        IpBlackList { ban_duration, ips, ports, asns, regions, cities, net_types }
    }

    /// Whether any check needs a GeoIP lookup.
    pub fn needs_geoip(&self) -> (b: bool)
        ensures
            b == self.needs_geoip_spec(),
    {
        !self.asns.is_empty() || !self.regions.is_empty() || !self.cities.is_empty()
            || !self.net_types.is_empty()
    }

    /// The module's name.
    pub fn name(&self) -> (r: &'static str)
        ensures
            r == "IPBlackList",
    {
        "IPBlackList"
    }

    /// The module's key in the profile.
    pub fn config_name(&self) -> (r: &'static str)
        ensures
            r == "ip-address-blocker",
    {
        "ip-address-blocker"
    }

    /// A `Ban` result with the given rule and reason.
    fn ban(&self, rule: &str, reason: Vec<char>) -> (r: CheckResult)
        ensures
            r.module == "IPBlackList",
            r.action == PeerAction::Ban,
            r.duration_ms == self.ban_duration,
            r.rule@ == rule@,
            r.reason@ == reason@,
    {
        CheckResult {
            module: "IPBlackList",
            action: PeerAction::Ban,
            duration_ms: self.ban_duration,
            rule: string_from_chars(&chars_of(rule)),
            reason: string_from_chars(&reason),
        }
    }

    /// Checks one peer: port, then address, then (with a lookup, and only if
    /// some GeoIP list is set) AS number, region, city and network type.
    /// `geo` is what the GeoIP lookup of the peer's address found.
    pub fn should_ban(&self, peer: &Peer, geo: Option<IpGeoData>) -> (r: CheckResult)
        ensures
            r.module == "IPBlackList",
            // each list, tried in order, bans under its own rule
            self.ports@.contains(peer.address.port) ==> r.action == PeerAction::Ban && r.rule@ == "ipbl:port"@,
            !self.ports@.contains(peer.address.port) && covered(self.ips@.dom(), peer.address.ip) ==> r.action
                == PeerAction::Ban && r.rule@ == "ipbl:ip"@,
            ({
                let early = self.ports@.contains(peer.address.port) || covered(self.ips@.dom(), peer.address.ip);
                match geo {
                    Some(g) => {
                        let asn_hit = g.asn is Some && self.asns@.contains(g.asn->0);
                        let region_hit = g.country_iso is Some && exists|i: int|
                            0 <= i < self.regions@.len() && #[trigger] self.regions@[i]@ == g.country_iso->0@;
                        let city_hit = g.city_name is Some && exists|i: int|
                            0 <= i < self.cities@.len() && contains_spec(g.city_name->0@, #[trigger] self.cities@[i]@);
                        let net_hit = g.net_type is Some && exists|i: int|
                            0 <= i < self.net_types@.len() && #[trigger] self.net_types@[i]@ == g.net_type->0@;
                        &&& !early && asn_hit ==> r.action == PeerAction::Ban && r.rule@ == "ipbl:asn"@
                        &&& !early && !asn_hit && region_hit ==> r.action == PeerAction::Ban && r.rule@
                            == "ipbl:region"@
                        &&& !early && !asn_hit && !region_hit && city_hit ==> r.action == PeerAction::Ban
                            && r.rule@ == "ipbl:city"@ && r.reason@ == "城市 "@ + g.city_name->0@ + " 命中黑名单"@
                        &&& !early && !asn_hit && !region_hit && !city_hit && net_hit ==> r.action
                            == PeerAction::Ban && r.rule@ == "ipbl:net-type"@
                        &&& !early && !asn_hit && !region_hit && !city_hit && !net_hit ==> r.action
                            == PeerAction::NoAction
                    },
                    None => !early ==> r.action == PeerAction::NoAction,
                }
            }),
            match self.hit(peer.address.ip, peer.address.port, geo) {
                BlacklistHit::Pass => r.action == PeerAction::NoAction && r.duration_ms == 0,
                h => {
                    &&& r.action == PeerAction::Ban
                    &&& r.duration_ms == self.ban_duration
                    &&& match h {
                        BlacklistHit::Port => r.rule@ == "ipbl:port"@ && r.reason@ == "端口 "@
                            + decimal(peer.address.port as nat) + " 命中黑名单"@,
                        BlacklistHit::Ip => r.rule@ == "ipbl:ip"@ && r.reason@ == "IP "@ + ip_text(
                            peer.address.ip) + " 命中黑名单"@,
                        BlacklistHit::Asn(a) => r.rule@ == "ipbl:asn"@ && r.reason@ == "ASN "@
                            + decimal(a as nat) + " 命中黑名单"@,
                        BlacklistHit::Region(s) => r.rule@ == "ipbl:region"@ && r.reason@ == "地区 "@
                            + s + " 命中黑名单"@,
                        BlacklistHit::City(s) => r.rule@ == "ipbl:city"@ && r.reason@ == "城市 "@ + s
                            + " 命中黑名单"@,
                        BlacklistHit::NetType(s) => r.rule@ == "ipbl:net-type"@ && r.reason@
                            == "网络类型 "@ + s + " 命中黑名单"@,
                        BlacklistHit::Pass => true,
                    }
                },
            },
    {
        let ip = peer.address.ip;
        let port = peer.address.port;
        if self.ports.contains(&port) {
            let mut v: Vec<char> = Vec::new();
            push_str(&mut v, "端口 ");
            push_decimal(&mut v, port as u64);
            push_str(&mut v, " 命中黑名单");
            return self.ban("ipbl:port", v);
        }
        if self.ips.contains(ip) {
            let mut v: Vec<char> = Vec::new();
            push_str(&mut v, "IP ");
            push_str(&mut v, ip_to_string(ip).as_str());
            push_str(&mut v, " 命中黑名单");
            return self.ban("ipbl:ip", v);
        }
        if !self.needs_geoip() {
            return CheckResult::pass("IPBlackList");
        }
        let g = match geo {
            Some(g) => g,
            None => return CheckResult::pass("IPBlackList"),
        };
        if let Some(asn) = g.asn {
            if self.asns.contains(&asn) {
                let mut v: Vec<char> = Vec::new();
                push_str(&mut v, "ASN ");
                push_decimal(&mut v, asn as u64);
                push_str(&mut v, " 命中黑名单");
                return self.ban("ipbl:asn", v);
            }
        }
        if let Some(iso) = &g.country_iso {
            if list_holds(&self.regions, iso.as_str()) {
                let mut v: Vec<char> = Vec::new();
                push_str(&mut v, "地区 ");
                push_str(&mut v, iso.as_str());
                push_str(&mut v, " 命中黑名单");
                return self.ban("ipbl:region", v);
            }
        }
        if let Some(city) = &g.city_name {
            if city_in(&self.cities, city.as_str()) {
                let mut v: Vec<char> = Vec::new();
                push_str(&mut v, "城市 ");
                push_str(&mut v, city.as_str());
                push_str(&mut v, " 命中黑名单");
                return self.ban("ipbl:city", v);
            }
        }
        if let Some(nt) = &g.net_type {
            if list_holds(&self.net_types, nt.as_str()) {
                let mut v: Vec<char> = Vec::new();
                push_str(&mut v, "网络类型 ");
                push_str(&mut v, nt.as_str());
                push_str(&mut v, " 命中黑名单");
                return self.ban("ipbl:net-type", v);
            }
        }
        CheckResult::pass("IPBlackList")
    }
}

/// Whether `s` is one of the texts of `v`.
pub fn list_holds(v: &Vec<String>, s: &str) -> (b: bool)
    ensures
        b == holds_text(v@, s@),
{
    let target = chars_of(s);
    let mut i: usize = 0;
    while i < v.len()
        invariant
            i <= v@.len(),
            target@ == s@,
            forall|k: int| 0 <= k < i ==> #[trigger] v@[k]@ != s@,
        decreases v@.len() - i,
    {
        let c = chars_of(v[i].as_str());
        if crate::text::eq_chars(&c, &target) {
            return true;
        }
        i += 1;
    }
    false
}

/// Whether `city` contains one of the texts of `v`.
pub fn city_in(v: &Vec<String>, city: &str) -> (b: bool)
    ensures
        b == city_listed(v@, city@),
{
    let target = chars_of(city);
    let mut i: usize = 0;
    while i < v.len()
        invariant
            i <= v@.len(),
            target@ == city@,
            forall|k: int| 0 <= k < i ==> !contains_spec(city@, #[trigger] v@[k]@),
        decreases v@.len() - i,
    {
        let c = chars_of(v[i].as_str());
        if contains_chars(&target, &c) {
            return true;
        }
        i += 1;
    }
    false
}

/// A peer whose port, address, AS number and region are not listed, but
/// whose looked-up city name contains a listed city, is caught by the city
/// check.
pub proof fn lemma_listed_city_hits(bl: IpBlackList, ip: IpAddress, port: u16, g: IpGeoData, i: int)
    requires
        !bl.ports@.contains(port),
        !covered(bl.ips@.dom(), ip),
        !(g.asn is Some && bl.asns@.contains(g.asn->0)),
        !(g.country_iso is Some && holds_text(bl.regions@, g.country_iso->0@)),
        g.city_name is Some,
        0 <= i < bl.cities@.len(),
        contains_spec(g.city_name->0@, bl.cities@[i]@),
    ensures
        bl.hit(ip, port, Some(g)) == BlacklistHit::City(g.city_name->0@),
{
}

/// A listed port is always caught first.
pub proof fn lemma_listed_port_hits(bl: IpBlackList, ip: IpAddress, port: u16, geo: Option<IpGeoData>)
    requires
        bl.ports@.contains(port),
    ensures
        bl.hit(ip, port, geo) == BlacklistHit::Port,
{
}

} // verus!

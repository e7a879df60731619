//! IP addresses and networks as plain values, the prefix arithmetic on them,
//! and the calls into `std::net` and `ip_network` that parse and print them.

use vstd::prelude::*;
use vstd::arithmetic::power2::{pow2, lemma_pow2_pos, lemma_pow2_adds};
use vstd::arithmetic::div_mod::{lemma_fundamental_div_mod, lemma_div_pos_is_pos};
use ip_network::{IpNetwork, Ipv4Network, Ipv6Network};
use std::str::FromStr;
use crate::text::{decimal, is_ws, trim_end_idx, trim_spec, trim_start_idx, trim_str};

verus! {

/// An IPv4 or IPv6 address, as its integer value.
#[derive(Debug, Clone, Copy, PartialEq, Eq, Hash, Structural)]
pub enum IpAddress {
    V4(u32),
    V6(u128),
}

/// A network: a base address and a prefix length.
#[derive(Debug, Clone, Copy, PartialEq, Eq, Hash, Structural)]
pub struct Network {
    pub addr: IpAddress,
    pub prefix: u8,
}

impl IpAddress {
    /// The number of bits of the address family.
    pub open spec fn bits(self) -> nat {
        match self {
            IpAddress::V4(_) => 32,
            IpAddress::V6(_) => 128,
        }
    }

    /// The address as a natural number.
    pub open spec fn value(self) -> nat {
        match self {
            IpAddress::V4(a) => a as nat,
            IpAddress::V6(a) => a as nat,
        }
    }

    /// Whether this is an IPv4 address.
    pub fn is_ipv4(&self) -> (b: bool)
        ensures
            b == (self is V4),
    {
        match self {
            IpAddress::V4(_) => true,
            IpAddress::V6(_) => false,
        }
    }
}

/// `v` with its low `bits - prefix` bits cleared.
pub open spec fn truncate_value(v: nat, bits: nat, prefix: nat) -> nat {
    (v / pow2((bits - prefix) as nat)) * pow2((bits - prefix) as nat)
}

/// Same family, same value.
pub open spec fn same_family(a: IpAddress, b: IpAddress) -> bool {
    (a is V4 && b is V4) || (a is V6 && b is V6)
}

impl Network {
    /// A canonical network: the prefix fits the family and no host bit is set
    /// (what `ip_network::IpNetwork::new` accepts).
    pub open spec fn wf(self) -> bool {
        &&& self.prefix <= self.addr.bits()
        &&& truncate_value(self.addr.value(), self.addr.bits(), self.prefix as nat)
            == self.addr.value()
    }

    /// Whether the network contains an address (`IpNetwork::contains`).
    pub open spec fn contains_spec(self, ip: IpAddress) -> bool {
        &&& same_family(self.addr, ip)
        &&& truncate_value(ip.value(), ip.bits(), self.prefix as nat) == self.addr.value()
    }
}

/// The network of the given prefix length around `ip`, host bits cleared.
pub open spec fn truncated_network(ip: IpAddress, prefix: nat) -> Network {
    let v = truncate_value(ip.value(), ip.bits(), prefix);
    Network {
        addr: match ip {
            IpAddress::V4(_) => IpAddress::V4(v as u32),
            IpAddress::V6(_) => IpAddress::V6(v as u128),
        },
        prefix: prefix as u8,
    }
}

proof fn lemma_truncate_bounds(v: nat, e: nat)
    ensures
        (v / pow2(e)) * pow2(e) <= v,
        v - (v / pow2(e)) * pow2(e) < pow2(e),
{
    lemma_pow2_pos(e);
    lemma_fundamental_div_mod(v as int, pow2(e) as int);
    lemma_div_pos_is_pos(v as int, pow2(e) as int);
    assert((v / pow2(e)) * pow2(e) >= 0) by (nonlinear_arith)
        requires v / pow2(e) >= 0, pow2(e) > 0;
}

proof fn lemma_truncate_idempotent(v: nat, e: nat)
    ensures
        ((v / pow2(e)) * pow2(e)) / pow2(e) * pow2(e) == (v / pow2(e)) * pow2(e),
{
    lemma_pow2_pos(e);
    let q = v / pow2(e);
    assert((q * pow2(e)) / pow2(e) == q) by (nonlinear_arith)
        requires pow2(e) > 0;
}

/// `2^e` for `e < 128`.
fn pow2_u128(e: u32) -> (r: u128)
    requires
        e < 128,
    ensures
        r as nat == pow2(e as nat),
{
    let mut r: u128 = 1;
    let mut i: u32 = 0;
    proof {
        vstd::arithmetic::power2::lemma2_to64();
    }
    while i < e
        invariant
            i <= e < 128,
            r as nat == pow2(i as nat),
        decreases e - i,
    {
        proof {
            lemma_pow2_adds(i as nat, 1);
            vstd::arithmetic::power2::lemma_pow2_strictly_increases(i as nat + 1, 128);
            vstd::arithmetic::power2::lemma2_to64_rest();
            assert(pow2(1) == 2) by { vstd::arithmetic::power2::lemma2_to64(); }
            assert(pow2(128) == 0x1_0000_0000_0000_0000_0000_0000_0000_0000) by {
                lemma_pow2_adds(64, 64);
                vstd::arithmetic::power2::lemma2_to64_rest();
            }
        }
        r = r * 2;
        i += 1;
    }
    r
}

/// The network of prefix length `prefix` containing `ip` (`IpNetwork::new_truncate`).
pub fn network_truncate(ip: IpAddress, prefix: u8) -> (r: Network)
    requires
        prefix as nat <= ip.bits(),
    ensures
        r == truncated_network(ip, prefix as nat),
        r.wf(),
        r.contains_spec(ip),
{
    let bits: u32 = match ip {
        IpAddress::V4(_) => 32,
        IpAddress::V6(_) => 128,
    };
    let e = bits - prefix as u32;
    proof {
        lemma_truncate_bounds(ip.value(), e as nat);
        lemma_truncate_idempotent(ip.value(), e as nat);
    }
    let r = if e == 128 {
        proof {
            lemma_pow2_adds(64, 64);
            vstd::arithmetic::power2::lemma2_to64_rest();
            assert(ip.value() / pow2(128) == 0) by (nonlinear_arith)
                requires ip.value() < 0x1_0000_0000_0000_0000_0000_0000_0000_0000,
                    pow2(128) == 0x1_0000_0000_0000_0000_0000_0000_0000_0000;
        }
        Network { addr: IpAddress::V6(0), prefix }
    } else {
        let d = pow2_u128(e);
        match ip {
            IpAddress::V4(a) => {
                let v = ((a as u128) / d) * d;
                Network { addr: IpAddress::V4(v as u32), prefix }
            },
            IpAddress::V6(a) => {
                let v = (a / d) * d;
                Network { addr: IpAddress::V6(v), prefix }
            },
        }
    };
    r
}

/// Whether `n` contains `ip` (`IpNetwork::contains`).
pub fn network_contains(n: &Network, ip: IpAddress) -> (b: bool)
    requires
        n.wf(),
    ensures
        b == n.contains_spec(ip),
{
    if n.addr.is_ipv4() != ip.is_ipv4() {
        return false;
    }
    let t = network_truncate(ip, n.prefix);
    t.addr == n.addr
}

/// What `std::net::Ipv4Addr::from_str` accepts (a dotted quad), and the address it reads.
pub uninterp spec fn ipv4_parse(s: Seq<char>) -> Option<u32>;

/// What `std::net::Ipv6Addr::from_str` accepts, and the address it reads.
pub uninterp spec fn ipv6_parse(s: Seq<char>) -> Option<u128>;

/// std `Ipv4Addr::from_str`, read as the address's integer value (reached
/// through the `ip_network` constructor that takes the address).
#[verifier::external_body]
pub(crate) fn parse_ipv4(s: &str) -> (r: Option<u32>)
    ensures
        r == ipv4_parse(s@),
{
    s.parse().ok().map(|a| u32::from(Ipv4Network::new(a, 32).unwrap().network_address()))
}

/// std `Ipv6Addr::from_str`, read as the address's integer value.
#[verifier::external_body]
pub(crate) fn parse_ipv6(s: &str) -> (r: Option<u128>)
    ensures
        r == ipv6_parse(s@),
{
    s.parse().ok().map(|a| u128::from(Ipv6Network::new(a, 128).unwrap().network_address()))
}

/// What `std::net::IpAddr::from_str` accepts: an IPv4 address, or else an IPv6 one.
pub open spec fn ip_parse(s: Seq<char>) -> Option<IpAddress> {
    match ipv4_parse(s) {
        Some(a) => Some(IpAddress::V4(a)),
        None => match ipv6_parse(s) {
            Some(b) => Some(IpAddress::V6(b)),
            None => None,
        },
    }
}

/// Parses a textual IPv4 or IPv6 address (the IPv4 reading is tried first).
pub fn parse_ip(s: &str) -> (r: Option<IpAddress>)
    ensures
        r == ip_parse(s@),
{
    match parse_ipv4(s) {
        Some(a) => Some(IpAddress::V4(a)),
        None => match parse_ipv6(s) {
            Some(b) => Some(IpAddress::V6(b)),
            None => None,
        },
    }
}

/// What `ip_network::IpNetwork::from_str` accepts (`addr/prefix`), and the
/// network it reads.
pub uninterp spec fn network_parse(s: Seq<char>) -> Option<Network>;

/// `ip_network::IpNetwork::from_str`: parses CIDR text; the network it gives
/// back is canonical, as `IpNetwork::new` rejects set host bits, and a text
/// without a `/` is refused before anything else is read.
#[verifier::external_body]
pub(crate) fn parse_network_cidr(s: &str) -> (r: Option<Network>)
    ensures
        r == network_parse(s@),
        r matches Some(n) ==> n.wf(),
        !s@.contains('/') ==> r is None,
{
    match IpNetwork::from_str(s) {
        Ok(IpNetwork::V4(n)) => Some(Network {
            addr: IpAddress::V4(u32::from(n.network_address())),
            prefix: n.netmask(),
        }),
        Ok(IpNetwork::V6(n)) => Some(Network {
            addr: IpAddress::V6(u128::from(n.network_address())),
            prefix: n.netmask(),
        }),
        Err(_) => None,
    }
}

/// The text std `Display` gives an address.
pub uninterp spec fn ip_text(ip: IpAddress) -> Seq<char>;

/// A character of a printed address: a decimal or lower-case hexadecimal
/// digit, `.` or `:`.
pub open spec fn ip_char(c: char) -> bool {
    ('0' <= c && c <= '9') || ('a' <= c && c <= 'f') || c == '.' || c == ':'
}

/// Non-empty text made of address characters only.
pub open spec fn ip_alphabet(s: Seq<char>) -> bool {
    s.len() > 0 && forall|i: int| 0 <= i < s.len() ==> ip_char(#[trigger] s[i])
}

/// std `Display` of an address: a dotted quad, or IPv6 in the RFC 5952
/// form (lower-case hexadecimal groups, `::`, an embedded dotted quad for
/// mapped addresses). std `FromStr` reads that text back as the same address
/// (the IPv4 reading refuses IPv6 text, which always holds a `:`), and as it
/// holds no `/` the CIDR parser of `ip_network` refuses it.
#[verifier::external_body]
pub(crate) fn ip_to_string(ip: IpAddress) -> (r: String)
    ensures
        r@ == ip_text(ip),
        ip_alphabet(r@),
        ip_parse(r@) == Some(ip),
        network_parse(r@) is None,
{
    match ip {
        IpAddress::V4(a) => Ipv4Network::new(a.into(), 32).unwrap().network_address().to_string(),
        IpAddress::V6(a) => Ipv6Network::new(a.into(), 128).unwrap().network_address().to_string(),
    }
}

/// The CIDR text of a network: address, `/`, prefix length.
pub open spec fn network_text(n: Network) -> Seq<char> {
    ip_text(n.addr) + seq!['/'] + decimal(n.prefix as nat)
}

/// `ip_network::IpNetwork` `Display`, which writes `"{address}/{netmask}"`.
#[verifier::external_body]
pub(crate) fn network_to_string(n: &Network) -> (r: String)
    requires
        n.wf(),
    ensures
        r@ == network_text(*n),
{
    match n.addr {
        IpAddress::V4(a) => Ipv4Network::new(a.into(), n.prefix).unwrap().to_string(),
        IpAddress::V6(a) => Ipv6Network::new(a.into(), n.prefix).unwrap().to_string(),
    }
}

/// The network that holds only `a` (`/32` or `/128`).
pub open spec fn host_network(a: IpAddress) -> Network {
    Network { addr: a, prefix: a.bits() as u8 }
}

/// CIDR text (`1.2.3.0/24`), or else a bare address, trimmed, as its host network.
pub open spec fn network_or_host(s: Seq<char>) -> Option<Network> {
    match network_parse(s) {
        Some(n) => Some(n),
        None => match ip_parse(trim_spec(s)) {
            Some(a) => Some(host_network(a)),
            None => None,
        },
    }
}

/// A host network is canonical.
pub proof fn lemma_host_network_wf(a: IpAddress)
    ensures
        host_network(a).wf(),
        host_network(a).contains_spec(a),
{
    let n = host_network(a);
    assert(n.prefix as nat == a.bits());
    assert(pow2(0) == 1) by { vstd::arithmetic::power2::lemma2_to64(); }
    assert(truncate_value(a.value(), a.bits(), n.prefix as nat) == (a.value() / 1) * 1);
}

/// Parses CIDR text, or a bare address as the network of that address alone.
pub fn parse_network(s: &str) -> (r: Option<Network>)
    ensures
        r == network_or_host(s@),
        r matches Some(n) ==> n.wf(),
{
    match parse_network_cidr(s) {
        Some(n) => Some(n),
        None => {
            let t = trim_str(s);
            match parse_ip(t.as_str()) {
                Some(a) => {
                    proof { lemma_host_network_wf(a); }
                    let prefix: u8 = match a {
                        IpAddress::V4(_) => 32,
                        IpAddress::V6(_) => 128,
                    };
                    Some(Network { addr: a, prefix })
                },
                None => None,
            }
        },
    }
}

/// Printed address text has no whitespace to trim.
pub proof fn lemma_ip_text_trimmed(s: Seq<char>)
    requires
        ip_alphabet(s),
    ensures
        trim_spec(s) == s,
{
    assert(!is_ws(s[0]));
    assert(!is_ws(s[s.len() - 1]));
    assert(trim_start_idx(s, 0, s.len() as int) == 0);
    assert(trim_end_idx(s, 0, s.len() as int) == s.len());
    assert(s.subrange(0, s.len() as int) =~= s);
}

/// Printed address text holds neither `/` nor a line break.
pub proof fn lemma_ip_text_plain(s: Seq<char>)
    requires
        ip_alphabet(s),
    ensures
        !s.contains('/'),
        !s.contains('\n'),
{
    if s.contains('/') {
        let i = choose|i: int| 0 <= i < s.len() && s[i] == '/';
        assert(ip_char(s[i]));
    }
    if s.contains('\n') {
        let i = choose|i: int| 0 <= i < s.len() && s[i] == '\n';
        assert(ip_char(s[i]));
    }
}

/// The printed address of `a`, read as a ban key, is the host network of `a`.
pub proof fn lemma_ip_text_reads_back(s: Seq<char>, a: IpAddress)
    requires
        ip_alphabet(s),
        ip_parse(s) == Some(a),
        network_parse(s) is None,
    ensures
        network_or_host(s) == Some(host_network(a)),
{
    lemma_ip_text_trimmed(s);
}

} // verus!

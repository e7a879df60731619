//! Peers as the downloaders report them, their addresses and their flags.

use vstd::prelude::*;
use crate::ip::{IpAddress, ip_text, ip_to_string};
use crate::text::{decimal, push_decimal, push_str, string_from_chars, chars_of};

verus! {

/// The `ip:port` key of a peer, with an IPv6 address in brackets.
pub open spec fn peer_key(ip: IpAddress, port: u16) -> Seq<char> {
    match ip {
        IpAddress::V4(_) => ip_text(ip) + seq![':'] + decimal(port as nat),
        IpAddress::V6(_) => seq!['['] + ip_text(ip) + seq![']', ':'] + decimal(port as nat),
    }
}

/// The network address of a peer.
///
/// `raw_ip` is the `ip:port` key that the downloader reported; bans are sent
/// back under that key.
#[derive(Debug, Clone, PartialEq, Eq)]
pub struct PeerAddress {
    pub ip: IpAddress,
    pub port: u16,
    pub raw_ip: String,
}

impl PeerAddress {
    /// An address whose key is built from `ip` and `port` (`[ip]:port` for IPv6).
    pub fn new(ip: IpAddress, port: u16) -> (r: PeerAddress)
        ensures
            r.ip == ip,
            r.port == port,
            r.raw_ip@ == peer_key(ip, port),
    {
        let text = ip_to_string(ip);
        let mut v: Vec<char> = Vec::new();
        match ip {
            IpAddress::V4(_) => {
                push_str(&mut v, text.as_str());
                v.push(':');
            },
            IpAddress::V6(_) => {
                v.push('[');
                push_str(&mut v, text.as_str());
                v.push(']');
                v.push(':');
            },
        }
        push_decimal(&mut v, port as u64);
        assert(v@ =~= peer_key(ip, port));
        PeerAddress { ip, port, raw_ip: string_from_chars(&v) }
    }

    /// The cache key of the peer: its raw `ip:port` key.
    pub fn cache_key(&self) -> (r: String)
        ensures
            r@ == self.raw_ip@,
    {
        let v = chars_of(self.raw_ip.as_str());
        string_from_chars(&v)
    }

    /// A copy of the address.
    pub fn duplicate(&self) -> (r: PeerAddress)
        ensures
            r.ip == self.ip,
            r.port == self.port,
            r.raw_ip@ == self.raw_ip@,
    {
        PeerAddress { ip: self.ip, port: self.port, raw_ip: self.cache_key() }
    }
}

/// A snapshot of a connected peer. Transfer counters of `-1` mean that the
/// downloader could not report them. (The peer's self-reported progress, a
/// fraction, travels beside this value.)
#[derive(Debug, Clone)]
pub struct Peer {
    pub address: PeerAddress,
    pub peer_id: Option<String>,
    pub client_name: Option<String>,
    pub download_speed: i64,
    pub upload_speed: i64,
    pub downloaded: i64,
    pub uploaded: i64,
    pub flags: Option<PeerFlag>,
}

impl Peer {
    /// A peer is still handshaking while neither direction has any speed.
    pub fn is_handshaking(&self) -> (b: bool)
        ensures
            b == (self.upload_speed <= 0 && self.download_speed <= 0),
    {
        self.upload_speed <= 0 && self.download_speed <= 0
    }
}

/// The libtorrent peer flags that the modules read.
#[derive(Debug, Clone, PartialEq, Eq)]
pub struct PeerFlag {
    pub raw: String,
    pub interesting: bool,
    pub remote_interested: bool,
}

/// `s` holds `a` or `b`.
pub open spec fn has_either(s: Seq<char>, a: char, b: char) -> bool {
    exists|i: int| 0 <= i < s.len() && (s[i] == a || s[i] == b)
}

impl PeerFlag {
    /// Reads a libtorrent flag string such as `"d UD I E P"`: `d`/`D` mark the
    /// peer as interesting, `u`/`U` as interested in us.
    pub fn parse(raw: &str) -> (r: PeerFlag)
        ensures
            r.raw@ == raw@,
            r.interesting == has_either(raw@, 'd', 'D'),
            r.remote_interested == has_either(raw@, 'u', 'U'),
    {
        let v = chars_of(raw);
        let mut interesting = false;
        let mut remote = false;
        let mut i: usize = 0;
        while i < v.len()
            invariant
                i <= v@.len(),
                v@ == raw@,
                interesting == has_either(v@.subrange(0, i as int), 'd', 'D'),
                remote == has_either(v@.subrange(0, i as int), 'u', 'U'),
            decreases v@.len() - i,
        {
            let c = v[i];
            let ghost before = v@.subrange(0, i as int);
            let ghost after = v@.subrange(0, i as int + 1);
            assert(after =~= before.push(c));
            if c == 'd' || c == 'D' {
                interesting = true;
                assert(after[i as int] == c);
            }
            if c == 'u' || c == 'U' {
                remote = true;
                assert(after[i as int] == c);
            }
            assert(has_either(after, 'd', 'D') == (has_either(before, 'd', 'D') || c == 'd' || c == 'D')) by {
                if has_either(before, 'd', 'D') {
                    let k = choose|k: int| 0 <= k < before.len() && (before[k] == 'd' || before[k] == 'D');
                    assert(after[k] == before[k]);
                }
                if has_either(after, 'd', 'D') {
                    let k = choose|k: int| 0 <= k < after.len() && (after[k] == 'd' || after[k] == 'D');
                    if k < i { assert(before[k] == after[k]); }
                }
            }
            assert(has_either(after, 'u', 'U') == (has_either(before, 'u', 'U') || c == 'u' || c == 'U')) by {
                if has_either(before, 'u', 'U') {
                    let k = choose|k: int| 0 <= k < before.len() && (before[k] == 'u' || before[k] == 'U');
                    assert(after[k] == before[k]);
                }
                if has_either(after, 'u', 'U') {
                    let k = choose|k: int| 0 <= k < after.len() && (after[k] == 'u' || after[k] == 'U');
                    if k < i { assert(before[k] == after[k]); }
                }
            }
            i += 1;
        }
        assert(v@.subrange(0, i as int) =~= v@);
        PeerFlag { raw: string_from_chars(&v), interesting, remote_interested: remote }
    }
}

} // verus!

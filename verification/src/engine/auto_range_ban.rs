//! Automatic range bans: a peer whose `/N` block already holds another banned
//! address is banned too, since abusive peers tend to come in blocks.

use vstd::prelude::*;
use crate::domain::ban::{CheckResult, PeerAction};
use crate::domain::peer::Peer;
use crate::engine::ban_list::{BanList, active_in};
use crate::ip::{IpAddress, Network, ip_text, ip_to_string, network_text, network_to_string, network_truncate, truncated_network};
use crate::text::{push_str, string_from_chars};

verus! {

/// The automatic range-ban module: block sizes per family and the ban duration.
pub struct AutoRangeBan {
    pub ipv4_prefix: u8,
    pub ipv6_prefix: u8,
    pub ban_duration: i64,
}

/// The block that the module looks at for `ip`, if the prefix fits the family.
pub open spec fn range_block(m: AutoRangeBan, ip: IpAddress) -> Option<Network> {
    let prefix = if ip is V4 { m.ipv4_prefix } else { m.ipv6_prefix };
    if prefix as nat <= ip.bits() {
        Some(truncated_network(ip, prefix as nat))
    } else {
        None
    }
}

impl AutoRangeBan {
    /// A module with the given block sizes and ban duration.
    pub fn new(ipv4_prefix: u8, ipv6_prefix: u8, ban_duration: i64) -> (r: AutoRangeBan)
        ensures
            r.ipv4_prefix == ipv4_prefix,
            r.ipv6_prefix == ipv6_prefix,
            r.ban_duration == ban_duration,
    {
        AutoRangeBan { ipv4_prefix, ipv6_prefix, ban_duration }
    }

    /// The module's name.
    pub fn name(&self) -> (r: &'static str)
        ensures
            r == "AutoRangeBan",
    {
        "AutoRangeBan"
    }

    /// The module's key in the profile.
    pub fn config_name(&self) -> (r: &'static str)
        ensures
            r == "auto-range-ban",
    {
        "auto-range-ban"
    }

    /// Checks one peer against the ban list. Handshaking peers pass. Otherwise,
    /// when the ban list finds a real ban in the peer's block whose address is
    /// not the peer's own, the peer is banned with the block as the rule.
    pub fn should_ban(&self, list: &BanList, peer: &Peer) -> (r: CheckResult)
        ensures
            r.module == "AutoRangeBan",
            match range_block(*self, peer.address.ip) {
                Some(block) if !(peer.upload_speed <= 0 && peer.download_speed <= 0) => {
                    &&& (forall|n: Network| !#[trigger] active_in(list@, block, n)) ==> r.action
                        == PeerAction::NoAction
                    &&& (forall|n: Network| #[trigger] active_in(list@, block, n) ==> n.addr
                        != peer.address.ip) && (exists|n: Network| #[trigger] active_in(list@, block, n))
                        ==> r.action == PeerAction::Ban
                    &&& r.action == PeerAction::Ban ==> exists|n: Network|
                        #[trigger] active_in(list@, block, n) && n.addr != peer.address.ip
                            && r.duration_ms == self.ban_duration
                            && r.rule@ == network_text(block)
                            && r.reason@ == "同段 "@ + network_text(block) + " 已封禁 "@ + ip_text(n.addr)
                    &&& r.action != PeerAction::Ban ==> r.action == PeerAction::NoAction
                        && r.duration_ms == 0
                },
                _ => r.action == PeerAction::NoAction && r.duration_ms == 0,
            },
    {
        if peer.is_handshaking() {
            return CheckResult::pass("AutoRangeBan");
        }
        let ip = peer.address.ip;
        let prefix = match ip {
            IpAddress::V4(_) => self.ipv4_prefix,
            IpAddress::V6(_) => self.ipv6_prefix,
        };
        let bits: u8 = match ip {
            IpAddress::V4(_) => 32,
            IpAddress::V6(_) => 128,
        };
        if prefix > bits {
            return CheckResult::pass("AutoRangeBan");
        }
        let block = network_truncate(ip, prefix);
        match list.any_active_ban_in(block) {
            Some(src) => {
                if src != ip {
                    let block_text = network_to_string(&block);
                    let src_text = ip_to_string(src);
                    let mut reason: Vec<char> = Vec::new();
                    push_str(&mut reason, "同段 ");
                    push_str(&mut reason, block_text.as_str());
                    push_str(&mut reason, " 已封禁 ");
                    push_str(&mut reason, src_text.as_str());
                    let rule = block_text;
                    CheckResult {
                        module: "AutoRangeBan",
                        action: PeerAction::Ban,
                        duration_ms: self.ban_duration,
                        rule,
                        reason: string_from_chars(&reason),
                    }
                } else {
                    CheckResult::pass("AutoRangeBan")
                }
            },
            None => CheckResult::pass("AutoRangeBan"),
        }
    }
}

} // verus!

//! Multi-dialing: one user dialing many addresses of one block into the same
//! torrent. Too many distinct addresses of a block get the later ones
//! banned; in hunting mode a marked block keeps being banned for a while.
//! (The per-block address sets and marks live in expiring caches beside
//! this logic.)

use vstd::prelude::*;
use crate::domain::ban::{CheckResult, PeerAction};
use crate::domain::peer::Peer;
use crate::ip::{IpAddress, Network, network_text, network_to_string, network_truncate, truncated_network};
use crate::text::{decimal, push_decimal, push_str, string_from_chars};

verus! {

/// The block of a peer and the cache key `torrent id@block`, when the
/// prefix fits the address family.
pub fn dial_block(torrent_id: &str, ip: IpAddress, ipv4_prefix: u8, ipv6_prefix: u8) -> (r: Option<(Network, String)>)
    ensures
        ({
            let prefix = if ip is V4 { ipv4_prefix } else { ipv6_prefix };
            if prefix as nat <= ip.bits() {
                r matches Some((b, k)) && b == truncated_network(ip, prefix as nat) && b.wf()
                    && k@ == torrent_id@ + seq!['@'] + network_text(b)
            } else {
                r is None
            }
        }),
{
    let (prefix, bits): (u8, u8) = match ip {
        IpAddress::V4(_) => (ipv4_prefix, 32),
        IpAddress::V6(_) => (ipv6_prefix, 128),
    };
    if prefix > bits {
        return None;
    }
    let block = network_truncate(ip, prefix);
    let mut v: Vec<char> = Vec::new();
    push_str(&mut v, torrent_id);
    v.push('@');
    push_str(&mut v, network_to_string(&block).as_str());
    assert(v@ =~= torrent_id@ + seq!['@'] + network_text(block));
    Some((block, string_from_chars(&v)))
}

/// What the module decides for a peer of a block.
#[derive(Debug, Clone, Copy, PartialEq, Eq, Structural)]
pub enum DialStep {
    /// The block is being hunted: ban, and renew the hunt.
    Hunt,
    /// Too many addresses: ban (and start hunting when hunting is on).
    Ban,
    /// Let it through.
    Pass,
}

/// The decision, given whether the block is being hunted and how many
/// distinct addresses it has shown (this one included).
pub fn dial_step(keep_hunting: bool, hunted: bool, count: usize, tolerate: usize) -> (r: DialStep)
    ensures
        r == (if keep_hunting && hunted {
            DialStep::Hunt
        } else if count > tolerate {
            DialStep::Ban
        } else {
            DialStep::Pass
        }),
{
    if keep_hunting && hunted {
        DialStep::Hunt
    } else if count > tolerate {
        DialStep::Ban
    } else {
        DialStep::Pass
    }
}

/// The result of a step for a peer of `block`.
pub fn dial_result(step: DialStep, block: &Network, count: usize, tolerate: usize, ban_duration: i64) -> (r: CheckResult)
    requires
        block.wf(),
    ensures
        r.module == "MultiDialingBlocker",
        match step {
            DialStep::Hunt => r.action == PeerAction::Ban && r.duration_ms == ban_duration
                && r.rule@ == "mdb:hunting"@ && r.reason@ == "追猎段 "@ + network_text(*block),
            DialStep::Ban => r.action == PeerAction::Ban && r.duration_ms == ban_duration
                && r.rule@ == "mdb:multi-dialing"@ && r.reason@ == "同段 "@ + network_text(*block) + " 多拨 "@
                + decimal(count as nat) + " 个 IP（容忍 "@ + decimal(tolerate as nat) + "）"@,
            DialStep::Pass => r.action == PeerAction::NoAction && r.duration_ms == 0,
        },
{
    match step {
        DialStep::Hunt => {
            let mut v: Vec<char> = Vec::new();
            push_str(&mut v, "追猎段 ");
            push_str(&mut v, network_to_string(block).as_str());
            CheckResult {
                module: "MultiDialingBlocker",
                action: PeerAction::Ban,
                duration_ms: ban_duration,
                rule: "mdb:hunting".to_string(),
                reason: string_from_chars(&v),
            }
        },
        DialStep::Ban => {
            let mut v: Vec<char> = Vec::new();
            push_str(&mut v, "同段 ");
            push_str(&mut v, network_to_string(block).as_str());
            push_str(&mut v, " 多拨 ");
            push_decimal(&mut v, count as u64);
            push_str(&mut v, " 个 IP（容忍 ");
            push_decimal(&mut v, tolerate as u64);
            push_str(&mut v, "）");
            CheckResult {
                module: "MultiDialingBlocker",
                action: PeerAction::Ban,
                duration_ms: ban_duration,
                rule: "mdb:multi-dialing".to_string(),
                reason: string_from_chars(&v),
            }
        },
        DialStep::Pass => CheckResult::pass("MultiDialingBlocker"),
    }
}

} // verus!

use pbh::domain::ban::{BanMetadata, CheckResult, PeerAction};
use pbh::domain::error::PbhError;
use pbh::domain::log::LogBuffer;
use pbh::domain::peer::{Peer, PeerAddress, PeerFlag};
use pbh::ip::parse_ip;

fn result(module: &'static str, action: PeerAction, duration_ms: i64, rule: &str) -> CheckResult {
    CheckResult { module, action, duration_ms, rule: rule.to_string(), reason: String::new() }
}

#[test]
fn peer_action_priority_order() {
    assert!(PeerAction::Skip > PeerAction::Ban);
    assert!(PeerAction::Ban > PeerAction::BanForDisconnect);
    assert!(PeerAction::BanForDisconnect > PeerAction::NoAction);
}

#[test]
fn merge_takes_higher_priority() {
    let ban = CheckResult {
        module: "A",
        action: PeerAction::Ban,
        duration_ms: 1000,
        rule: "r".into(),
        reason: "x".into(),
    };
    let skip = CheckResult {
        module: "B",
        action: PeerAction::Skip,
        duration_ms: 0,
        rule: String::new(),
        reason: String::new(),
    };
    assert_eq!(ban.clone().merge(skip.clone()).action, PeerAction::Skip);
    assert_eq!(skip.merge(ban).action, PeerAction::Skip);
}

#[test]
fn merge_same_action_takes_longer_duration() {
    let short = result("A", PeerAction::Ban, 1000, "a");
    let long = result("B", PeerAction::Ban, 5000, "b");
    assert_eq!(short.merge(long).duration_ms, 5000);
}

#[test]
fn merge_keeps_first_on_tie_and_is_associative() {
    let a = result("A", PeerAction::Ban, 1000, "a");
    let b = result("B", PeerAction::Ban, 1000, "b");
    let m = a.clone().merge(b.clone());
    assert_eq!(m.module, "A");
    let c = result("C", PeerAction::BanForDisconnect, 9000, "c");
    let left = a.clone().merge(b.clone()).merge(c.clone());
    let right = a.merge(b.merge(c));
    assert_eq!(left.module, right.module);
    assert_eq!(left.action, right.action);
    assert_eq!(left.duration_ms, right.duration_ms);
}

#[test]
fn pass_is_no_action() {
    let p = CheckResult::pass("M");
    assert_eq!(p.action, PeerAction::NoAction);
    assert_eq!(p.duration_ms, 0);
    assert_eq!(p.module, "M");
    let ban = result("B", PeerAction::Ban, 10, "r");
    assert_eq!(CheckResult::pass("M").merge(ban).action, PeerAction::Ban);
}

#[test]
fn ring_evicts_oldest_and_tracks_seq() {
    let mut buf = LogBuffer::new(2);
    buf.push("INFO", "t", "a".into());
    buf.push("INFO", "t", "b".into());
    buf.push("WARN", "t", "c".into());
    let snap = buf.snapshot();
    assert_eq!(snap.len(), 2);
    assert_eq!(snap[0].message, "b");
    assert_eq!(snap[1].message, "c");
    assert_eq!(buf.last_seq(), 3);
}

#[test]
fn since_returns_newer_only() {
    let mut buf = LogBuffer::new(10);
    let a = buf.push("INFO", "t", "a".into());
    buf.push("INFO", "t", "b".into());
    let newer = buf.since(a.seq);
    assert_eq!(newer.len(), 1);
    assert_eq!(newer[0].message, "b");
}

#[test]
fn ring_of_zero_capacity_holds_one() {
    let mut buf = LogBuffer::new(0);
    buf.push("INFO", "t", "a".into());
    let e = buf.push("INFO", "t", "b".into());
    assert_eq!(e.seq, 2);
    assert_eq!(e.level, "INFO");
    let snap = buf.snapshot();
    assert_eq!(snap.len(), 1);
    assert_eq!(snap[0].message, "b");
    assert_eq!(buf.since(0).len(), 1);
    assert_eq!(buf.since(2).len(), 0);
}

fn idle_peer(ip: &str) -> Peer {
    Peer {
        address: PeerAddress::new(parse_ip(ip).unwrap(), 6881),
        peer_id: None,
        client_name: None,
        download_speed: 0,
        upload_speed: 0,
        downloaded: 0,
        uploaded: 0,
        flags: None,
    }
}

#[test]
fn handshaking_detection() {
    let p = idle_peer("127.0.0.1");
    assert!(p.is_handshaking());
    let mut q = idle_peer("127.0.0.1");
    q.upload_speed = 1;
    assert!(!q.is_handshaking());
}

#[test]
fn peer_flag_parses_interest_bits() {
    let f = PeerFlag::parse("d UD I E P");
    assert!(f.interesting);
    assert!(f.remote_interested);
    let g = PeerFlag::parse("I E P");
    assert!(!g.interesting);
    assert!(!g.remote_interested);
    assert_eq!(g.raw, "I E P");
}

#[test]
fn v6_raw_ip_is_bracketed() {
    let a = PeerAddress::new(parse_ip("::1").unwrap(), 6881);
    assert_eq!(a.raw_ip, "[::1]:6881");
    let b = PeerAddress::new(parse_ip("1.2.3.4").unwrap(), 80);
    assert_eq!(b.raw_ip, "1.2.3.4:80");
    assert_eq!(b.cache_key(), "1.2.3.4:80");
}

#[test]
fn ban_metadata_duplicate_is_same() {
    let m = BanMetadata {
        context: "c".into(),
        random_id: "id".into(),
        peer: PeerAddress::new(parse_ip("1.2.3.4").unwrap(), 6881),
        ban_at: 1,
        unban_at: 2,
        ban_for_disconnect: true,
        exclude_from_report: false,
        exclude_from_display: true,
        rule: "r".into(),
        description: "d".into(),
    };
    let d = m.duplicate();
    assert_eq!(d.context, "c");
    assert_eq!(d.peer, m.peer);
    assert_eq!(d.unban_at, 2);
    assert!(d.ban_for_disconnect);
    assert!(d.exclude_from_display);
}

#[test]
fn error_messages_name_their_area() {
    assert_eq!(PbhError::Config("bad".into()).message(), "config error: bad");
    assert_eq!(PbhError::Downloader("x".into()).message(), "downloader error: x");
    assert_eq!(PbhError::Other("plain".into()).message(), "plain");
}

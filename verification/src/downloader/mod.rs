//! Downloaders: their configuration, the login outcome, and the ban strings
//! they are sent (byte for byte what qBittorrent expects).

pub mod qbittorrent;
pub mod manager;

use vstd::prelude::*;
use crate::ip::{IpAddress, ip_parse, ip_text, ip_to_string, lemma_ip_text_plain, parse_ip, truncated_network, network_truncate};
use crate::text::{
    chars_of, decimal, deep_chars, deep_strings, eq_chars, lemma_decimal_digits, push_decimal, push_str, split_on, string_from_chars,
    trim_spec, trim_str,
};
use crate::domain::ban::copy_string;

verus! {

/// What `ipnet::IpNet::from_str` reads from a text: the address and the
/// prefix length (at most the family's width).
pub uninterp spec fn ipnet_parse(s: Seq<char>) -> Option<(IpAddress, u8)>;

/// `ipnet::IpNet::from_str`: CIDR text with an address (host bits may be
/// set) and a prefix length no wider than the family.
#[verifier::external_body]
fn parse_ipnet(s: &str) -> (r: Option<(IpAddress, u8)>)
    ensures
        r == ipnet_parse(s@),
        r matches Some((a, p)) ==> p as nat <= a.bits(),
{
    match s.parse::<ipnet::IpNet>() {
        Ok(ipnet::IpNet::V4(n)) => Some((IpAddress::V4(u32::from(n.addr())), n.prefix_len())),
        Ok(ipnet::IpNet::V6(n)) => Some((IpAddress::V6(u128::from(n.addr())), n.prefix_len())),
        Err(_) => None,
    }
}

/// A downloader capability.
#[derive(Debug, Clone, Copy, PartialEq, Eq, Structural)]
pub enum FeatureFlag {
    /// Bans can be lifted (implied by replacing the whole list).
    UnbanIp,
    /// CIDR blocks can be banned (qBittorrent 5.3.0 and later).
    RangeBanIp,
}

/// How a login ended.
#[derive(Debug, Clone)]
pub struct LoginOutcome {
    pub success: bool,
    pub message: String,
}

impl LoginOutcome {
    /// A successful login.
    pub fn ok() -> (r: LoginOutcome)
        ensures
            r.success,
            r.message@ == "ok"@,
    {
        LoginOutcome { success: true, message: "ok".to_string() }
    }

    /// A refused login, with the reason.
    pub fn fail(msg: &str) -> (r: LoginOutcome)
        ensures
            !r.success,
            r.message@ == msg@,
    {
        LoginOutcome { success: false, message: string_from_chars(&chars_of(msg)) }
    }
}

/// HTTP Basic credentials (for a reverse proxy in front of the downloader).
#[derive(Debug, Clone, Default)]
pub struct BasicAuth {
    pub user: String,
    pub pass: String,
}

/// A downloader's configuration.
#[derive(Debug, Clone)]
pub struct DownloaderConfig {
    pub id: String,
    /// `qbittorrent` or `qbittorrentee`.
    pub kind: String,
    pub name: String,
    /// The base URL (`/api/v2` is appended).
    pub endpoint: String,
    pub username: String,
    pub password: String,
    /// A qBittorrent API key; when set, no login is posted.
    pub api_key: String,
    pub basic_auth: BasicAuth,
    /// Push new bans one by one instead of replacing the list.
    pub increment_ban: bool,
    /// qBittorrentEE: use the shadow-ban API.
    pub use_shadow_ban: bool,
    pub verify_ssl: bool,
    pub ignore_private: bool,
    pub paused: bool,
}

impl Default for DownloaderConfig {
    /// A qBittorrent configuration with everything empty, TLS checked.
    fn default() -> (r: DownloaderConfig)
        ensures
            r.id@.len() == 0,
            r.kind@ == "qbittorrent"@,
            r.name@.len() == 0,
            r.endpoint@.len() == 0,
            r.username@.len() == 0,
            r.password@.len() == 0,
            r.api_key@.len() == 0,
            r.basic_auth.user@.len() == 0,
            r.basic_auth.pass@.len() == 0,
            !r.increment_ban,
            !r.use_shadow_ban,
            r.verify_ssl,
            !r.ignore_private,
            !r.paused,
    {
        DownloaderConfig {
            id: String::new(),
            kind: "qbittorrent".to_string(),
            name: String::new(),
            endpoint: String::new(),
            username: String::new(),
            password: String::new(),
            api_key: String::new(),
            basic_auth: BasicAuth { user: String::new(), pass: String::new() },
            increment_ban: false,
            use_shadow_ban: false,
            verify_ssl: true,
            ignore_private: false,
            paused: false,
        }
    }
}

/// Why talking to a downloader failed.
#[derive(Debug, Clone, PartialEq, Eq)]
pub enum DownloaderError {
    /// The HTTP layer failed (its message).
    Http(String),
    /// The downloader answered with an error.
    Api(String),
    /// The downloader refused our credentials (401 or 403); retrying does not help.
    Auth(String),
    /// The configuration is unusable.
    Config(String),
}

impl DownloaderError {
    /// Whether the downloader refused our credentials (retrying will not help).
    pub fn is_auth(&self) -> (b: bool)
        ensures
            b == (self is Auth),
    {
        match self {
            DownloaderError::Auth(_) => true,
            _ => false,
        }
    }
}

/// The entry qBittorrent's `banned_IPs` takes for one ban: a host as its
/// address alone, a block as `network/prefix` (only where blocks are
/// supported), a bare address in its canonical form; anything else is dropped.
pub open spec fn normalize_spec(raw: Seq<char>, support_range: bool) -> Option<Seq<char>> {
    let t = trim_spec(raw);
    match ipnet_parse(t) {
        Some((a, p)) => if p as nat == a.bits() {
            Some(ip_text(a))
        } else if support_range {
            Some(ip_text(truncated_network(a, p as nat).addr) + seq!['/'] + decimal(p as nat))
        } else {
            None
        },
        None => match ip_parse(t) {
            Some(a) => Some(ip_text(a)),
            None => None,
        },
    }
}

/// One line of a ban string: not empty, no line break in it, and no `/`
/// where blocks are not supported.
pub open spec fn ban_line_ok(s: Seq<char>, support_range: bool) -> bool {
    &&& s.len() > 0
    &&& !s.contains('\n')
    &&& !support_range ==> !s.contains('/')
}

/// Normalizes one ban entry for qBittorrent; what comes out is one printed
/// address (or, with block support, a block).
pub fn normalize_entry(raw: &str, support_range: bool) -> (r: Option<String>)
    ensures
        match (r, normalize_spec(raw@, support_range)) {
            (Some(s), Some(t)) => s@ == t,
            (None, None) => true,
            _ => false,
        },
        r matches Some(s) ==> ban_line_ok(s@, support_range),
{
    let t = trim_str(raw);
    match parse_ipnet(t.as_str()) {
        Some((a, p)) => {
            let host_len: u8 = match a {
                IpAddress::V4(_) => 32,
                IpAddress::V6(_) => 128,
            };
            if p == host_len {
                let text = ip_to_string(a);
                proof {
                    lemma_ip_text_plain(text@);
                }
                Some(text)
            } else if support_range {
                let net = network_truncate(a, p);
                let mut v: Vec<char> = Vec::new();
                let text = ip_to_string(net.addr);
                push_str(&mut v, text.as_str());
                v.push('/');
                push_decimal(&mut v, p as u64);
                assert(v@ =~= ip_text(truncated_network(a, p as nat).addr) + seq!['/'] + decimal(p as nat));
                proof {
                    lemma_ip_text_plain(text@);
                    lemma_decimal_digits(p as nat);
                    let d = decimal(p as nat);
                    assert forall|i: int| 0 <= i < v@.len() implies v@[i] != '\n' by {
                        if i < text@.len() {
                            assert(v@[i] == text@[i]);
                        } else if i > text@.len() {
                            assert(v@[i] == d[i - text@.len() - 1]);
                        }
                    }
                }
                Some(string_from_chars(&v))
            } else {
                None
            }
        },
        None => match parse_ip(t.as_str()) {
            Some(a) => {
                let text = ip_to_string(a);
                proof {
                    lemma_ip_text_plain(text@);
                }
                Some(text)
            },
            None => None,
        },
    }
}

/// `s` with every repeat of an earlier element left out.
pub open spec fn dedup_spec(s: Seq<Seq<char>>) -> Seq<Seq<char>>
    decreases s.len(),
{
    if s.len() == 0 {
        Seq::empty()
    } else {
        let d = dedup_spec(s.drop_last());
        if d.contains(s.last()) {
            d
        } else {
            d.push(s.last())
        }
    }
}

/// The ban lists sent to a downloader name each entry once and lose none:
/// `dedup_spec(s)` has no repeats and holds exactly the elements of `s`.
pub proof fn lemma_dedup_distinct_and_complete(s: Seq<Seq<char>>)
    ensures
        dedup_spec(s).no_duplicates(),
        forall|x: Seq<char>| dedup_spec(s).contains(x) <==> s.contains(x),
    decreases s.len(),
{
    if s.len() > 0 {
        let p = s.drop_last();
        lemma_dedup_distinct_and_complete(p);
        let d = dedup_spec(p);
        assert forall|x: Seq<char>| s.contains(x) <==> (p.contains(x) || x == s.last()) by {
            if s.contains(x) {
                let i = choose|i: int| 0 <= i < s.len() && s[i] == x;
                if i < p.len() {
                    assert(p[i] == x);
                }
            }
            if p.contains(x) {
                let i = choose|i: int| 0 <= i < p.len() && p[i] == x;
                assert(s[i] == x);
            }
            if x == s.last() {
                assert(s[s.len() - 1] == x);
            }
        }
        if !d.contains(s.last()) {
            let e = d.push(s.last());
            assert forall|i: int, j: int| 0 <= i < e.len() && 0 <= j < e.len() && i != j
                implies e[i] != e[j] by {
                if i == d.len() {
                    assert(d[j] == e[j]);
                } else if j == d.len() {
                    assert(d[i] == e[i]);
                } else {
                    assert(d[i] == e[i] && d[j] == e[j]);
                }
            }
            assert forall|x: Seq<char>| e.contains(x) <==> (d.contains(x) || x == s.last()) by {
                if e.contains(x) {
                    let i = choose|i: int| 0 <= i < e.len() && e[i] == x;
                    if i < d.len() {
                        assert(d[i] == x);
                    }
                }
                if d.contains(x) {
                    let i = choose|i: int| 0 <= i < d.len() && d[i] == x;
                    assert(e[i] == x);
                }
                if x == s.last() {
                    assert(e[d.len() as int] == x);
                }
            }
        }
    }
}

/// The elements of `s` joined by `sep`.
pub open spec fn join_spec(s: Seq<Seq<char>>, sep: char) -> Seq<char>
    decreases s.len(),
{
    if s.len() == 0 {
        Seq::empty()
    } else if s.len() == 1 {
        s[0]
    } else {
        join_spec(s.drop_last(), sep) + seq![sep] + s.last()
    }
}

/// A piece without the separator splits into itself.
proof fn lemma_split_single(t: Seq<char>, c: char)
    requires
        !t.contains(c),
    ensures
        split_on(t, c) == seq![t],
    decreases t.len(),
{
    if t.len() == 0 {
        assert(t =~= Seq::<char>::empty());
    } else {
        let p = t.drop_last();
        assert(!p.contains(c)) by {
            if p.contains(c) {
                let i = choose|i: int| 0 <= i < p.len() && p[i] == c;
                assert(t[i] == c);
            }
        }
        lemma_split_single(p, c);
        assert(t[t.len() - 1] != c);
        assert(p.push(t.last()) =~= t);
        let prev = split_on(p, c);
        assert(prev.update(prev.len() - 1, prev.last().push(t.last())) =~= seq![t]);
    }
}

/// Splitting `x`, the separator and a piece without it splits `x` and adds the piece.
proof fn lemma_split_append(x: Seq<char>, y: Seq<char>, c: char)
    requires
        !y.contains(c),
    ensures
        split_on(x + seq![c] + y, c) == split_on(x, c).push(y),
    decreases y.len(),
{
    let w = x + seq![c] + y;
    if y.len() == 0 {
        assert(w.drop_last() =~= x);
        assert(w.last() == c);
        assert(y =~= Seq::<char>::empty());
    } else {
        let yp = y.drop_last();
        assert(!yp.contains(c)) by {
            if yp.contains(c) {
                let i = choose|i: int| 0 <= i < yp.len() && yp[i] == c;
                assert(y[i] == c);
            }
        }
        lemma_split_append(x, yp, c);
        assert(w.drop_last() =~= x + seq![c] + yp);
        assert(w.last() == y[y.len() - 1]);
        let prev = split_on(x, c).push(yp);
        assert(prev.update(prev.len() - 1, prev.last().push(w.last())) =~= split_on(x, c).push(y)) by {
            assert(yp.push(y.last()) =~= y);
        }
    }
}

/// Joined pieces without the separator split back into the same pieces.
pub proof fn lemma_split_join(s: Seq<Seq<char>>, c: char)
    requires
        s.len() > 0,
        forall|i: int| 0 <= i < s.len() ==> !(#[trigger] s[i]).contains(c),
    ensures
        split_on(join_spec(s, c), c) == s,
    decreases s.len(),
{
    if s.len() == 1 {
        lemma_split_single(s[0], c);
        assert(seq![s[0]] =~= s);
    } else {
        let p = s.drop_last();
        assert forall|i: int| 0 <= i < p.len() implies !(#[trigger] p[i]).contains(c) by {
            assert(p[i] == s[i]);
        }
        lemma_split_join(p, c);
        assert(!s[s.len() - 1].contains(c));
        lemma_split_append(join_spec(p, c), s.last(), c);
        assert(p.push(s.last()) =~= s);
    }
}

/// The join of non-empty pieces is empty only when there are none.
proof fn lemma_join_empty(s: Seq<Seq<char>>, c: char)
    requires
        forall|i: int| 0 <= i < s.len() ==> (#[trigger] s[i]).len() > 0,
    ensures
        (join_spec(s, c).len() == 0) == (s.len() == 0),
    decreases s.len(),
{
    if s.len() > 1 {
        let p = s.drop_last();
        assert forall|i: int| 0 <= i < p.len() implies (#[trigger] p[i]).len() > 0 by {
            assert(p[i] == s[i]);
        }
        lemma_join_empty(p, c);
    } else if s.len() == 1 {
        assert(s[0].len() > 0);
    }
}

/// The normalized entries of `s`, the dropped ones left out.
pub open spec fn normalized_all(s: Seq<Seq<char>>, support_range: bool) -> Seq<Seq<char>>
    decreases s.len(),
{
    if s.len() == 0 {
        Seq::empty()
    } else {
        let prev = normalized_all(s.drop_last(), support_range);
        match normalize_spec(s.last(), support_range) {
            Some(t) => prev.push(t),
            None => prev,
        }
    }
}

/// Whether `v` holds a string equal to `c`.
fn holds_chars(v: &Vec<Vec<char>>, c: &Vec<char>) -> (b: bool)
    ensures
        b == v@.map_values(|w: Vec<char>| w@).contains(c@),
{
    let ghost d = v@.map_values(|w: Vec<char>| w@);
    let mut i: usize = 0;
    while i < v.len()
        invariant
            i <= v@.len(),
            d == v@.map_values(|w: Vec<char>| w@),
            forall|k: int| 0 <= k < i ==> d[k] != c@,
        decreases v@.len() - i,
    {
        if eq_chars(&v[i], c) {
            assert(d[i as int] == c@);
            return true;
        }
        i += 1;
    }
    false
}

/// Adds `c` to the distinct list `seen` unless it is already there.
fn push_distinct(seen: &mut Vec<Vec<char>>, c: Vec<char>)
    ensures
        final(seen)@.map_values(|w: Vec<char>| w@) == (if old(seen)@.map_values(|w: Vec<char>| w@).contains(c@) {
            old(seen)@.map_values(|w: Vec<char>| w@)
        } else {
            old(seen)@.map_values(|w: Vec<char>| w@).push(c@)
        }),
{
    if !holds_chars(seen, &c) {
        let ghost before = seen@;
        seen.push(c);
        assert(seen@.map_values(|w: Vec<char>| w@) =~= before.map_values(|w: Vec<char>| w@).push(c@));
    }
}

/// Joins character sequences with `sep`.
pub(crate) fn join_chars(parts: &Vec<Vec<char>>, sep: char) -> (r: String)
    ensures
        r@ == join_spec(parts@.map_values(|w: Vec<char>| w@), sep),
{
    let ghost d = parts@.map_values(|w: Vec<char>| w@);
    let mut out: Vec<char> = Vec::new();
    let mut i: usize = 0;
    while i < parts.len()
        invariant
            i <= parts@.len(),
            d == parts@.map_values(|w: Vec<char>| w@),
            out@ == join_spec(d.subrange(0, i as int), sep),
        decreases parts@.len() - i,
    {
        let ghost pre = d.subrange(0, i as int);
        let ghost post = d.subrange(0, i as int + 1);
        assert(post.drop_last() =~= pre);
        assert(post.last() == parts@[i as int]@);
        if i > 0 {
            out.push(sep);
        }
        let mut j: usize = 0;
        let ghost base = out@;
        while j < parts[i].len()
            invariant
                j <= parts@[i as int]@.len(),
                i < parts@.len(),
                out@ == base + parts@[i as int]@.subrange(0, j as int),
            decreases parts@[i as int]@.len() - j,
        {
            out.push(parts[i][j]);
            j += 1;
            assert(out@ =~= base + parts@[i as int]@.subrange(0, j as int));
        }
        assert(parts@[i as int]@.subrange(0, j as int) =~= parts@[i as int]@);
        if i == 0 {
            assert(out@ =~= join_spec(post, sep));
        } else {
            assert(out@ =~= join_spec(post, sep));
        }
        i += 1;
    }
    assert(d.subrange(0, i as int) =~= d);
    string_from_chars(&out)
}

/// The full ban string: the normalized entries, each once (first occurrence
/// kept), one per line. Without block support, blocks are dropped.
pub fn join_full_ban_string(networks: &Vec<String>, support_range: bool) -> (r: String)
    ensures
        r@ == join_spec(dedup_spec(normalized_all(deep_strings(networks@), support_range)), '\n'),
        ({
            let lines = dedup_spec(normalized_all(deep_strings(networks@), support_range));
            &&& lines.no_duplicates()
            &&& (r@.len() == 0) == (lines.len() == 0)
            &&& r@.len() > 0 ==> split_on(r@, '\n') == lines
            &&& forall|i: int| 0 <= i < lines.len() ==> ban_line_ok(#[trigger] lines[i], support_range)
        }),
{
    let ghost all = deep_strings(networks@);
    let mut seen: Vec<Vec<char>> = Vec::new();
    let mut i: usize = 0;
    while i < networks.len()
        invariant
            i <= networks@.len(),
            all == deep_strings(networks@),
            seen@.map_values(|w: Vec<char>| w@) == dedup_spec(normalized_all(all.subrange(0, i as int), support_range)),
            forall|k: int| 0 <= k < seen@.len() ==> ban_line_ok(#[trigger] deep_chars(seen@)[k], support_range),
        decreases networks@.len() - i,
    {
        let ghost pre = all.subrange(0, i as int);
        let ghost post = all.subrange(0, i as int + 1);
        assert(post.drop_last() =~= pre);
        assert(post.last() == networks@[i as int]@);
        match normalize_entry(networks[i].as_str(), support_range) {
            Some(s) => {
                let c = chars_of(s.as_str());
                let ghost np = normalized_all(pre, support_range);
                assert(normalized_all(post, support_range) == np.push(s@));
                assert(np.push(s@).drop_last() =~= np);
                let ghost before = deep_chars(seen@);
                push_distinct(&mut seen, c);
                proof {
                    assert(c@ == s@);
                    assert(deep_chars(seen@) == (if before.contains(c@) { before } else { before.push(c@) }));
                    assert forall|k: int| 0 <= k < seen@.len() implies ban_line_ok(
                        #[trigger] deep_chars(seen@)[k], support_range) by {
                        if k < before.len() {
                            assert(deep_chars(seen@)[k] == before[k]);
                        } else {
                            assert(deep_chars(seen@)[k] == s@);
                        }
                    }
                }
            },
            None => {
                assert(normalized_all(post, support_range) == normalized_all(pre, support_range));
            },
        }
        i += 1;
    }
    assert(all.subrange(0, i as int) =~= all);
    let ghost lines = deep_chars(seen@);
    proof {
        lemma_dedup_distinct_and_complete(normalized_all(all, support_range));
        assert forall|k: int| 0 <= k < lines.len() implies (#[trigger] lines[k]).len() > 0
            && !lines[k].contains('\n') by {
            assert(ban_line_ok(deep_chars(seen@)[k], support_range));
        }
        lemma_join_empty(lines, '\n');
        if lines.len() > 0 {
            lemma_split_join(lines, '\n');
        }
    }
    join_chars(&seen, '\n')
}

/// The incremental ban string: the peers' `ip:port` keys, each once, joined by `|`.
pub fn join_increment_peers(peer_rawips: &Vec<String>) -> (r: String)
    ensures
        r@ == join_spec(dedup_spec(deep_strings(peer_rawips@)), '|'),
{
    let ghost all = deep_strings(peer_rawips@);
    let mut seen: Vec<Vec<char>> = Vec::new();
    let mut i: usize = 0;
    while i < peer_rawips.len()
        invariant
            i <= peer_rawips@.len(),
            all == deep_strings(peer_rawips@),
            seen@.map_values(|w: Vec<char>| w@) == dedup_spec(all.subrange(0, i as int)),
        decreases peer_rawips@.len() - i,
    {
        let ghost pre = all.subrange(0, i as int);
        let ghost post = all.subrange(0, i as int + 1);
        assert(post.drop_last() =~= pre);
        assert(post.last() == peer_rawips@[i as int]@);
        let c = chars_of(peer_rawips[i].as_str());
        assert(post.drop_last() =~= pre);
        push_distinct(&mut seen, c);
        i += 1;
    }
    assert(all.subrange(0, i as int) =~= all);
    join_chars(&seen, '|')
}

} // verus!

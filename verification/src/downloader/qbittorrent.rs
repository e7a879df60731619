//! qBittorrent (and qBittorrentEE): the decisions and texts of the client,
//! between the HTTP exchanges that the application performs.

use vstd::prelude::*;
use semver::Version;
use crate::domain::peer::{Peer, PeerAddress, PeerFlag};
use crate::domain::torrent::Torrent;
use crate::downloader::{DownloaderError, FeatureFlag, LoginOutcome, join_full_ban_string, join_increment_peers};
use crate::ip::{ip_parse, parse_ip};
use crate::text::{
    chars_of, contains_chars, contains_spec, decimal, eq_chars, eq_ignore_ascii_case, eq_ignore_ascii_case_spec,
    is_digit, lowercase, push_decimal, push_str, string_from_chars, to_lowercase, trim_chars, trim_spec, trim_str,
    split_chars, split_on, deep_chars, copy_range,
};
use crate::domain::ban::copy_string;

verus! {

/// The page size of the torrent list.
pub const PAGE_SIZE: u32 = 100;

/// `None` for a blank text, else the text.
pub fn non_empty(s: String) -> (r: Option<String>)
    ensures
        match r {
            Some(t) => t@ == s@ && trim_spec(s@).len() > 0,
            None => trim_spec(s@).len() == 0,
        },
{
    let t = trim_str(s.as_str());
    if t.as_str().is_empty() {
        None
    } else {
        Some(s)
    }
}

/// The reason given when a login is refused and the unauthenticated probe
/// also failed: what qBittorrent answered, what the probe found, and what to check.
pub open spec fn reject_hint_spec(body: Seq<char>, probe: Seq<char>) -> Seq<char> {
    "登录失败：qB /api/v2/auth/login 返回 \""@ + body + "\"，且免鉴权探活也失败（"@ + probe
        + "）。请排查：① 若 qB 设了账号密码，检查该下载器填写的用户名/密码是否正确；② 若你想免密使用，请在 qB「选项 → Web UI」勾选「对本地主机上的客户端跳过身份验证」，或把运行本程序的机器 IP 加入「对白名单子网中的客户端跳过身份验证」；③ 确认端点地址/端口正确、反向代理未拦截 /api/v2 路径。"@
}

/// The reason of a refused login.
pub fn login_reject_hint(body: &str, probe: &str) -> (r: String)
    ensures
        r@ == reject_hint_spec(body@, probe@),
{
    let mut v: Vec<char> = Vec::new();
    push_str(&mut v, "登录失败：qB /api/v2/auth/login 返回 \"");
    push_str(&mut v, body);
    push_str(&mut v, "\"，且免鉴权探活也失败（");
    push_str(&mut v, probe);
    push_str(&mut v, "）。请排查：① 若 qB 设了账号密码，检查该下载器填写的用户名/密码是否正确；② 若你想免密使用，请在 qB「选项 → Web UI」勾选「对本地主机上的客户端跳过身份验证」，或把运行本程序的机器 IP 加入「对白名单子网中的客户端跳过身份验证」；③ 确认端点地址/端口正确、反向代理未拦截 /api/v2 路径。");
    assert(v@ =~= reject_hint_spec(body@, probe@));
    string_from_chars(&v)
}

/// The error of a response that was not a success: `path → status: body`;
/// 401 and 403 are credential errors, the rest API errors.
pub fn status_error(path: &str, code: u16, status: &str, body: &str) -> (r: DownloaderError)
    ensures
        ({
            let msg = path@ + " → "@ + status@ + ": "@ + body@;
            if code == 401 || code == 403 {
                r matches DownloaderError::Auth(m) && m@ == msg
            } else {
                r matches DownloaderError::Api(m) && m@ == msg
            }
        }),
{
    let mut v: Vec<char> = Vec::new();
    push_str(&mut v, path);
    push_str(&mut v, " → ");
    push_str(&mut v, status);
    push_str(&mut v, ": ");
    push_str(&mut v, body);
    let msg = string_from_chars(&v);
    assert(msg@ =~= path@ + " → "@ + status@ + ": "@ + body@);
    if code == 401 || code == 403 {
        DownloaderError::Auth(msg)
    } else {
        DownloaderError::Api(msg)
    }
}

/// `s` without its trailing `/`s.
pub open spec fn trim_end_slashes(s: Seq<char>) -> Seq<char>
    decreases s.len(),
{
    if s.len() > 0 && s.last() == '/' {
        trim_end_slashes(s.drop_last())
    } else {
        s
    }
}

/// The API base of an endpoint: the endpoint without trailing `/`, then `/api/v2`.
pub fn api_base(endpoint: &str) -> (r: String)
    ensures
        r@ == trim_end_slashes(endpoint@) + "/api/v2"@,
{
    let v = chars_of(endpoint);
    let mut n = v.len();
    assert(v@.subrange(0, n as int) =~= v@);
    while n > 0 && v[n - 1] == '/'
        invariant
            n <= v@.len(),
            v@ == endpoint@,
            trim_end_slashes(v@.subrange(0, n as int)) == trim_end_slashes(endpoint@),
        decreases n,
    {
        assert(v@.subrange(0, n as int).drop_last() =~= v@.subrange(0, n - 1));
        n -= 1;
    }
    let mut out = copy_range(&v, 0, n);
    assert(trim_end_slashes(v@.subrange(0, n as int)) == v@.subrange(0, n as int));
    push_str(&mut out, "/api/v2");
    string_from_chars(&out)
}

/// Whether the configured kind is qBittorrentEE (ignoring ASCII case).
pub fn is_enhanced(kind: &str) -> (b: bool)
    ensures
        b == eq_ignore_ascii_case_spec(kind@, "qbittorrentee"@),
{
    eq_ignore_ascii_case(&chars_of(kind), &chars_of("qbittorrentee"))
}

/// Whether a configured kind names a supported downloader (after full
/// lower-casing); the error names the lower-cased kind.
pub fn check_kind(kind: &str) -> (r: Result<(), DownloaderError>)
    ensures
        ({
            let k = lowercase(kind@);
            if k == "qbittorrent"@ || k == "qbittorrentee"@ {
                r is Ok
            } else {
                r matches Err(DownloaderError::Config(m)) && m@ == "不支持的下载器类型: "@ + k
            }
        }),
{
    let lower = to_lowercase(kind);
    let k = chars_of(lower.as_str());
    if eq_chars(&k, &chars_of("qbittorrent")) || eq_chars(&k, &chars_of("qbittorrentee")) {
        Ok(())
    } else {
        let mut v: Vec<char> = Vec::new();
        push_str(&mut v, "不支持的下载器类型: ");
        push_str(&mut v, lower.as_str());
        Err(DownloaderError::Config(string_from_chars(&v)))
    }
}

/// The label of the client kind.
pub fn type_label(enhanced: bool) -> (r: &'static str)
    ensures
        r@ == (if enhanced { "qBittorrentEE"@ } else { "qBittorrent"@ }),
{
    if enhanced {
        "qBittorrentEE"
    } else {
        "qBittorrent"
    }
}

/// The capabilities: unbanning always, block bans when the version allows.
pub fn feature_flags(range_ban: bool) -> (r: Vec<FeatureFlag>)
    ensures
        r@ == (if range_ban {
            seq![FeatureFlag::UnbanIp, FeatureFlag::RangeBanIp]
        } else {
            seq![FeatureFlag::UnbanIp]
        }),
{
    let mut f: Vec<FeatureFlag> = Vec::new();
    f.push(FeatureFlag::UnbanIp);
    if range_ban {
        f.push(FeatureFlag::RangeBanIp);
    }
    assert(f@ =~= (if range_ban {
        seq![FeatureFlag::UnbanIp, FeatureFlag::RangeBanIp]
    } else {
        seq![FeatureFlag::UnbanIp]
    }));
    f
}

/// Whether the answer of `/auth/login` is a success (`Ok.` in any ASCII case, trimmed).
pub fn login_accepted(body: &str) -> (b: bool)
    ensures
        b == eq_ignore_ascii_case_spec(trim_spec(body@), "Ok."@),
{
    eq_ignore_ascii_case(&trim_chars(&chars_of(body)), &chars_of("Ok."))
}

/// After a refused `/auth/login`, what the probe of `/app/version` decides:
/// a version means the downloader skips authentication for us and the login
/// goes on (`None`); an empty answer or an error refuses it with a hint.
pub fn login_after_probe(body: &str, probe: Result<String, String>) -> (r: Option<LoginOutcome>)
    ensures
        match probe {
            Ok(v) => if trim_spec(v@).len() > 0 {
                r is None
            } else {
                r matches Some(o) && !o.success && o.message@ == reject_hint_spec(trim_spec(body@),
                    "/app/version 返回空响应"@)
            },
            Err(e) => r matches Some(o) && !o.success && o.message@ == reject_hint_spec(trim_spec(body@), e@),
        },
{
    let b = trim_str(body);
    match probe {
        Ok(v) => {
            let t = trim_str(v.as_str());
            if !t.as_str().is_empty() {
                None
            } else {
                let hint = login_reject_hint(b.as_str(), "/app/version 返回空响应");
                Some(LoginOutcome::fail(hint.as_str()))
            }
        },
        Err(e) => {
            let hint = login_reject_hint(b.as_str(), e.as_str());
            Some(LoginOutcome::fail(hint.as_str()))
        },
    }
}

/// The end of a qBittorrentEE login in shadow-ban mode: it succeeds only
/// when the downloader has shadow bans enabled.
pub fn shadow_login_outcome(enabled: bool) -> (r: LoginOutcome)
    ensures
        r.success == enabled,
        enabled ==> r.message@ == "ok"@,
        !enabled ==> r.message@ == "qBittorrentEE 未启用 shadow ban，请在客户端开启或关闭 use-shadow-ban"@,
{
    if enabled {
        LoginOutcome::ok()
    } else {
        LoginOutcome::fail("qBittorrentEE 未启用 shadow ban，请在客户端开启或关闭 use-shadow-ban")
    }
}

/// The path of one page of the active torrents.
pub fn torrents_page_path(offset: u32) -> (r: String)
    ensures
        r@ == "/torrents/info?filter=active&limit=100&offset="@ + decimal(offset as nat),
{
    let mut v: Vec<char> = Vec::new();
    push_str(&mut v, "/torrents/info?filter=active&limit=100&offset=");
    push_decimal(&mut v, offset as u64);
    string_from_chars(&v)
}

/// The path of a torrent's peers.
pub fn peers_path(hash: &str) -> (r: String)
    ensures
        r@ == "/sync/torrentPeers?hash="@ + hash@,
{
    let mut v: Vec<char> = Vec::new();
    push_str(&mut v, "/sync/torrentPeers?hash=");
    push_str(&mut v, hash);
    string_from_chars(&v)
}

/// One torrent of qBittorrent's list, as the client reads it (`seeding`:
/// whether its progress had reached 1).
#[derive(Debug, Clone)]
pub struct QbTorrent {
    pub hash: String,
    pub name: String,
    pub total_size: i64,
    pub completed: Option<i64>,
    pub seeding: bool,
    pub is_private: Option<bool>,
}

/// The torrent of a list entry, unless private torrents are ignored and it is private.
pub fn torrent_from_qb(t: QbTorrent, ignore_private: bool) -> (r: Option<Torrent>)
    ensures
        ({
            let private = match t.is_private { Some(b) => b, None => false };
            if ignore_private && private {
                r is None
            } else {
                r matches Some(x) && x.id@ == t.hash@ && x.hash@ == t.hash@ && x.name@ == t.name@
                    && x.seeding == t.seeding && x.size == t.total_size
                    && x.completed_size == (match t.completed { Some(c) => c, None => -1i64 })
                    && x.private_torrent == private
            }
        }),
{
    let private = match t.is_private {
        Some(b) => b,
        None => false,
    };
    if ignore_private && private {
        return None;
    }
    Some(Torrent {
        id: copy_string(&t.hash),
        hash: t.hash,
        name: t.name,
        seeding: t.seeding,
        size: t.total_size,
        completed_size: match t.completed {
            Some(c) => c,
            None => -1,
        },
        private_torrent: private,
    })
}

/// One peer of qBittorrent's peer map, as the client reads it.
#[derive(Debug, Clone)]
pub struct QbPeer {
    pub client: String,
    pub connection: String,
    pub dl_speed: i64,
    pub up_speed: i64,
    pub downloaded: i64,
    pub uploaded: i64,
    pub flags: String,
    pub ip: String,
    pub peer_id_client: String,
    pub port: u16,
    pub shadowbanned: Option<bool>,
}

/// Whether a peer entry is kept: not a web seed or an onion/I2P peer, with
/// an address, not shadow-banned already (in shadow mode), and with an
/// address that reads.
pub open spec fn peer_kept(key: Seq<char>, p: QbPeer, shadow: bool) -> bool {
    let conn = crate::text::ascii_lower_seq(p.connection@);
    &&& !contains_spec(key, ".onion"@)
    &&& !contains_spec(key, ".i2p"@)
    &&& conn != "http"@ && conn != "https"@ && conn != "web"@
    &&& trim_spec(p.ip@).len() > 0
    &&& !(shadow && p.shadowbanned == Some(true))
    &&& ip_parse(trim_spec(p.ip@)) is Some
}

/// The peer of an entry of the peer map under `key`, if it is kept. Its
/// raw key is the map key, which is what bans must be sent back under.
pub fn peer_from_qb(key: &str, p: QbPeer, shadow: bool) -> (r: Option<Peer>)
    ensures
        peer_kept(key@, p, shadow) == r is Some,
        // web seeds (any ASCII case), onion and I2P peers, peers shadow-banned
        // already and entries without a readable address are never kept
        ({
            let conn = crate::text::ascii_lower_seq(p.connection@);
            conn == "http"@ || conn == "https"@ || conn == "web"@ ==> r is None
        }),
        (exists|i: int| #[trigger] crate::text::occurs_at(key@, ".onion"@, i)) ==> r is None,
        (exists|i: int| #[trigger] crate::text::occurs_at(key@, ".i2p"@, i)) ==> r is None,
        shadow && p.shadowbanned == Some(true) ==> r is None,
        ip_parse(trim_spec(p.ip@)) is None ==> r is None,
        r matches Some(x) ==> {
            &&& x.address.ip == ip_parse(trim_spec(p.ip@))->0
            &&& x.address.port == p.port
            &&& x.address.raw_ip@ == key@
            &&& (match x.peer_id { Some(s) => s@ == p.peer_id_client@ && trim_spec(s@).len() > 0,
                None => trim_spec(p.peer_id_client@).len() == 0 })
            &&& (match x.client_name { Some(s) => s@ == p.client@ && trim_spec(s@).len() > 0,
                None => trim_spec(p.client@).len() == 0 })
            &&& x.download_speed == p.dl_speed
            &&& x.upload_speed == p.up_speed
            &&& x.downloaded == p.downloaded
            &&& x.uploaded == p.uploaded
            &&& x.flags matches Some(f) && f.raw@ == p.flags@
        },
{
    let k = chars_of(key);
    if contains_chars(&k, &chars_of(".onion")) || contains_chars(&k, &chars_of(".i2p")) {
        return None;
    }
    let conn = crate::text::to_ascii_lower_chars(&chars_of(p.connection.as_str()));
    if eq_chars(&conn, &chars_of("http")) || eq_chars(&conn, &chars_of("https")) || eq_chars(&conn, &chars_of("web")) {
        return None;
    }
    let ip_text = trim_str(p.ip.as_str());
    if ip_text.as_str().is_empty() {
        return None;
    }
    let shadowbanned = match p.shadowbanned {
        Some(b) => b,
        None => false,
    };
    if shadow && shadowbanned {
        return None;
    }
    let ip = match parse_ip(ip_text.as_str()) {
        Some(a) => a,
        None => return None,
    };
    let mut address = PeerAddress::new(ip, p.port);
    address.raw_ip = string_from_chars(&k);
    let flags = PeerFlag::parse(p.flags.as_str());
    Some(Peer {
        address,
        peer_id: non_empty(p.peer_id_client),
        client_name: non_empty(p.client),
        download_speed: p.dl_speed,
        upload_speed: p.up_speed,
        downloaded: p.downloaded,
        uploaded: p.uploaded,
        flags: Some(flags),
    })
}

/// A semantic version as plain values: the three numbers and the
/// pre-release text (empty for a release). Build metadata is not kept: it
/// plays no part in comparing against a release.
#[derive(Debug, Clone, PartialEq, Eq)]
pub struct SemVersion {
    pub major: u64,
    pub minor: u64,
    pub patch: u64,
    pub pre: String,
}

/// A version as a mathematical value: `(major, minor, patch, pre-release)`.
pub open spec fn version_view(v: SemVersion) -> (u64, u64, u64, Seq<char>) {
    (v.major, v.minor, v.patch, v.pre@)
}

/// What `semver::Version::parse` reads a text as: `None` when the text is
/// not a semantic version, else its numbers and its pre-release text.
pub uninterp spec fn semver_parsed(s: Seq<char>) -> Option<(u64, u64, u64, Seq<char>)>;

/// The texts that `semver::Version::parse` accepts.
pub open spec fn semver_accepts(s: Seq<char>) -> bool {
    semver_parsed(s) is Some
}

/// `semver::Version::parse`: the version a text reads as (its numbers and
/// pre-release text), when the text is a valid semantic version.
#[verifier::external_body]
fn semver_parse(s: &str) -> (r: Option<SemVersion>)
    ensures
        match r {
            Some(v) => semver_parsed(s@) == Some(version_view(v)),
            None => semver_parsed(s@) is None,
        },
{
    match Version::parse(s) {
        Ok(v) => Some(SemVersion { major: v.major, minor: v.minor, patch: v.patch, pre: v.pre.as_str().to_string() }),
        Err(_) => None,
    }
}

/// `s` without its leading `v`s.
pub open spec fn strip_leading_v(s: Seq<char>) -> Seq<char>
    decreases s.len(),
{
    if s.len() > 0 && s[0] == 'v' {
        strip_leading_v(s.drop_first())
    } else {
        s
    }
}

/// The leading ASCII digits of `s`.
pub open spec fn digit_prefix(s: Seq<char>) -> Seq<char>
    decreases s.len(),
{
    if s.len() > 0 && is_digit(s[0]) {
        seq![s[0]] + digit_prefix(s.drop_first())
    } else {
        Seq::empty()
    }
}

/// The non-empty digit prefixes of `parts`, in order.
pub open spec fn number_parts(parts: Seq<Seq<char>>) -> Seq<Seq<char>>
    decreases parts.len(),
{
    if parts.len() == 0 {
        Seq::empty()
    } else {
        let prev = number_parts(parts.drop_last());
        let d = digit_prefix(parts.last());
        if d.len() > 0 {
            prev.push(d)
        } else {
            prev
        }
    }
}

/// `nums` followed by `"0"`s up to three parts.
pub open spec fn pad_three(nums: Seq<Seq<char>>) -> Seq<Seq<char>>
    decreases 3 - nums.len(),
{
    if nums.len() >= 3 {
        nums
    } else {
        pad_three(nums.push(seq!['0']))
    }
}

/// The version text as given: trimmed, leading `v`s removed, trimmed again.
pub open spec fn version_text(s: Seq<char>) -> Seq<char> {
    trim_spec(strip_leading_v(trim_spec(s)))
}

/// The lenient reading of a version text: the digit prefixes of its first
/// three dot-separated parts (empty ones dropped), padded with `0` to
/// three, joined by dots.
pub open spec fn lenient_version_text(s: Seq<char>) -> Seq<char> {
    let parts = split_on(version_text(s), '.');
    let first = parts.subrange(0, if parts.len() < 3 { parts.len() as int } else { 3 });
    crate::downloader::join_spec(pad_three(number_parts(first)), '.')
}

/// The digit prefix of `v`.
pub(crate) fn digits_of(v: &Vec<char>) -> (r: Vec<char>)
    ensures
        r@ == digit_prefix(v@),
{
    let mut i: usize = 0;
    while i < v.len() && '0' <= v[i] && v[i] <= '9'
        invariant
            i <= v@.len(),
            forall|k: int| 0 <= k < i ==> is_digit(v@[k]),
        decreases v@.len() - i,
    {
        i += 1;
    }
    proof {
        lemma_digit_prefix(v@, i as int);
    }
    copy_range(v, 0, i)
}

proof fn lemma_digit_prefix(s: Seq<char>, i: int)
    requires
        0 <= i <= s.len(),
        forall|k: int| 0 <= k < i ==> is_digit(s[k]),
        i == s.len() || !is_digit(s[i]),
    ensures
        digit_prefix(s) == s.subrange(0, i),
    decreases i,
{
    if i > 0 {
        lemma_digit_prefix(s.drop_first(), i - 1);
        assert(s.subrange(0, i) =~= seq![s[0]] + s.drop_first().subrange(0, i - 1));
    } else {
        assert(s.subrange(0, 0) =~= Seq::<char>::empty());
    }
}

/// The two texts a version is read from: as given (trimmed, without
/// leading `v`s), and its lenient reading.
pub fn version_texts(s: &str) -> (r: (String, String))
    ensures
        r.0@ == version_text(s@),
        r.1@ == lenient_version_text(s@),
{
    let t = trim_chars(&chars_of(s));
    let mut a: usize = 0;
    assert(t@.subrange(0, t@.len() as int) =~= t@);
    while a < t.len() && t[a] == 'v'
        invariant
            a <= t@.len(),
            strip_leading_v(t@.subrange(a as int, t@.len() as int)) == strip_leading_v(t@),
        decreases t@.len() - a,
    {
        assert(t@.subrange(a as int, t@.len() as int).drop_first() =~= t@.subrange(a + 1, t@.len() as int));
        a += 1;
    }
    let stripped = copy_range(&t, a, t.len());
    assert(stripped@ == strip_leading_v(t@)) by {
        assert(t@.subrange(0, t@.len() as int) =~= t@);
    }
    let s3 = trim_chars(&stripped);
    let parts = split_chars(&s3, '.');
    let take = if parts.len() < 3 { parts.len() } else { 3 };
    let ghost first = deep_chars(parts@).subrange(0, take as int);
    let mut nums: Vec<Vec<char>> = Vec::new();
    let mut i: usize = 0;
    while i < take
        invariant
            i <= take <= parts@.len(),
            first == deep_chars(parts@).subrange(0, take as int),
            nums@.map_values(|w: Vec<char>| w@) == number_parts(first.subrange(0, i as int)),
        decreases take - i,
    {
        let ghost pre = first.subrange(0, i as int);
        let ghost post = first.subrange(0, i as int + 1);
        assert(post.drop_last() =~= pre);
        assert(post.last() == parts@[i as int]@);
        let d = digits_of(&parts[i]);
        if d.len() > 0 {
            let ghost before = nums@;
            nums.push(d);
            assert(nums@.map_values(|w: Vec<char>| w@) =~= before.map_values(|w: Vec<char>| w@).push(d@));
        }
        i += 1;
    }
    assert(first.subrange(0, i as int) =~= first);
    while nums.len() < 3
        invariant
            nums@.len() <= 3 ==> pad_three(nums@.map_values(|w: Vec<char>| w@)) == pad_three(number_parts(first)),
            nums@.len() > 3 ==> nums@.map_values(|w: Vec<char>| w@) == number_parts(first),
        decreases 3 - nums@.len(),
    {
        let ghost before = nums@;
        let mut z: Vec<char> = Vec::new();
        z.push('0');
        nums.push(z);
        assert(nums@.map_values(|w: Vec<char>| w@) =~= before.map_values(|w: Vec<char>| w@).push(seq!['0']));
    }
    let joined = join_version(&nums);
    (string_from_chars(&s3), joined)
}

/// Joins the parts with dots.
fn join_version(parts: &Vec<Vec<char>>) -> (r: String)
    ensures
        r@ == crate::downloader::join_spec(parts@.map_values(|w: Vec<char>| w@), '.'),
{
    crate::downloader::join_chars(parts, '.')
}

/// What a version text reads as: the text as given (trimmed, leading `v`s
/// removed) if it is a semantic version, else its lenient reading.
pub open spec fn parsed_version_spec(s: Seq<char>) -> Option<(u64, u64, u64, Seq<char>)> {
    match semver_parsed(version_text(s)) {
        Some(v) => Some(v),
        None => semver_parsed(lenient_version_text(s)),
    }
}

/// Reads a version leniently: as given (trimmed, leading `v`s removed) if it
/// is a semantic version, else its lenient reading (digits of the first
/// three parts, padded with zeros).
pub fn parse_version(s: &str) -> (r: Option<SemVersion>)
    ensures
        match r {
            Some(v) => parsed_version_spec(s@) == Some(version_view(v)),
            None => parsed_version_spec(s@) is None,
        },
{
    let (exact, lenient) = version_texts(s);
    match semver_parse(exact.as_str()) {
        Some(v) => Some(v),
        None => semver_parse(lenient.as_str()),
    }
}

/// `v` is at least the release `major.minor.patch` in semantic-version
/// order: the numbers compare in turn, and on equal numbers a pre-release
/// comes before the release.
pub open spec fn version_at_least(v: (u64, u64, u64, Seq<char>), major: u64, minor: u64, patch: u64) -> bool {
    if v.0 != major {
        v.0 > major
    } else if v.1 != minor {
        v.1 > minor
    } else if v.2 != patch {
        v.2 > patch
    } else {
        v.3.len() == 0
    }
}

/// Whether `v` is at least the release `major.minor.patch`.
pub fn at_least(v: &SemVersion, major: u64, minor: u64, patch: u64) -> (b: bool)
    ensures
        b == version_at_least(version_view(*v), major, minor, patch),
{
    if v.major != major {
        v.major > major
    } else if v.minor != minor {
        v.minor > minor
    } else if v.patch != patch {
        v.patch > patch
    } else {
        v.pre.as_str().is_empty()
    }
}

/// Whether a qBittorrent of this version takes CIDR bans (5.3.0 or later);
/// `None` when the version does not read.
pub fn supports_range_ban(version: &str) -> (r: Option<bool>)
    ensures
        r == match parsed_version_spec(version@) {
            Some(v) => Some(version_at_least(v, 5, 3, 0)),
            None => None,
        },
{
    match parse_version(version) {
        Some(v) => Some(at_least(&v, 5, 3, 0)),
        None => None,
    }
}

/// How a ban list reaches the downloader.
#[derive(Debug, Clone, PartialEq, Eq)]
pub enum BanPush {
    /// Post `peers` (the new peers' keys) to `path`.
    Increment { path: String, peers: String },
    /// Set the preference `key` to `value` (the whole list).
    Full { key: String, value: String },
}

/// How to push the bans: incrementally when so configured, not forced to
/// push everything, and there are new peers; otherwise the whole list
/// (shadow-ban endpoints and keys in shadow mode).
pub fn plan_ban_push(
    full_banned: &Vec<String>,
    newly_added_peers: &Vec<String>,
    apply_full: bool,
    increment_ban: bool,
    shadow: bool,
    support_range: bool,
) -> (r: BanPush)
    ensures
        if !apply_full && increment_ban && newly_added_peers@.len() > 0 {
            r matches BanPush::Increment { path, peers } && path@ == (if shadow {
                "/transfer/shadowbanPeers"@
            } else {
                "/transfer/banPeers"@
            }) && peers@ == crate::downloader::join_spec(crate::downloader::dedup_spec(
                crate::text::deep_strings(newly_added_peers@)), '|')
        } else {
            r matches BanPush::Full { key, value } && key@ == (if shadow {
                "shadow_banned_IPs"@
            } else {
                "banned_IPs"@
            }) && value@ == crate::downloader::join_spec(crate::downloader::dedup_spec(
                crate::downloader::normalized_all(crate::text::deep_strings(full_banned@), support_range)), '\n')
        },
{
    if !apply_full && increment_ban && newly_added_peers.len() > 0 {
        let peers = join_increment_peers(newly_added_peers);
        let path = if shadow {
            "/transfer/shadowbanPeers".to_string()
        } else {
            "/transfer/banPeers".to_string()
        };
        BanPush::Increment { path, peers }
    } else {
        let value = join_full_ban_string(full_banned, support_range);
        let key = if shadow {
            "shadow_banned_IPs".to_string()
        } else {
            "banned_IPs".to_string()
        };
        BanPush::Full { key, value }
    }
}

/// Web seeds (connection `http`, `https` or `web` in any ASCII case) are
/// never kept, so never judged nor banned.
pub proof fn lemma_web_seeds_dropped(key: Seq<char>, p: QbPeer, shadow: bool)
    requires
        ({
            let conn = crate::text::ascii_lower_seq(p.connection@);
            conn == "http"@ || conn == "https"@ || conn == "web"@
        }),
    ensures
        !peer_kept(key, p, shadow),
{
}

/// Peers already shadow-banned are not kept in shadow mode.
pub proof fn lemma_shadow_banned_dropped(key: Seq<char>, p: QbPeer)
    requires
        p.shadowbanned == Some(true),
    ensures
        !peer_kept(key, p, true),
{
}

} // verus!

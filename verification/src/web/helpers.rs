//! The logic of the web handlers: token comparison, version comparison,
//! address extraction from probe answers, error chains and ids.

use vstd::prelude::*;
use vstd::string::StringSliceAdditionalSpecFns;
use crate::ip::{IpAddress, ip_text, ip_to_string, ipv4_parse, ipv6_parse, parse_ipv4, parse_ipv6};
use crate::text::{
    chars_of, contains_chars, contains_spec, copy_range, decimal, deep_chars, is_digit, parse_unsigned,
    parse_unsigned_spec, push_str, split_chars, split_on, string_from_chars, string_from_range, trim_chars,
    trim_spec, trim_str, deep_strings,
};
use crate::downloader::qbittorrent::{digit_prefix, strip_leading_v};
use crate::engine::ban_manager::{hex, now_ms};
use crate::btn::hash::hex_of_bytes;

verus! {

proof fn lemma_or_xor_zero(d: u8, x: u8, y: u8)
    ensures
        (d | (x ^ y)) == 0 <==> (d == 0 && x == y),
{
    assert((d | (x ^ y)) == 0 <==> (d == 0 && x == y)) by (bit_vector);
}

/// Compares two tokens in time that does not depend on where they differ:
/// equal byte strings give `true`.
pub fn ct_eq(a: &str, b: &str) -> (r: bool)
    ensures
        r == (a.spec_bytes() == b.spec_bytes()),
{
    let x = a.as_bytes();
    let y = b.as_bytes();
    if x.len() != y.len() {
        return false;
    }
    let mut diff: u8 = 0;
    let mut i: usize = 0;
    while i < x.len()
        invariant
            x@.len() == y@.len(),
            i <= x@.len(),
            diff == 0 <==> forall|k: int| 0 <= k < i ==> x@[k] == y@[k],
        decreases x@.len() - i,
    {
        proof { lemma_or_xor_zero(diff, x@[i as int], y@[i as int]); }
        diff = diff | (x[i] ^ y[i]);
        i += 1;
    }
    proof {
        if diff == 0 {
            assert(x@ =~= y@);
        }
    }
    diff == 0
}

/// Whether an `Authorization` header carries the server token: it reads
/// `Bearer <token>`, and a server without a token accepts nobody.
pub fn bearer_ok(header: Option<&str>, token: &str) -> (r: bool)
    ensures
        r == (token@.len() > 0 && match header {
            Some(h) => h@.len() >= 7 && h@.subrange(0, 7) == "Bearer "@
                && vstd::utf8::encode_utf8(h@.subrange(7, h@.len() as int)) == token.spec_bytes(),
            None => false,
        }),
{
    proof { reveal_strlit("Bearer "); }
    let h = match header {
        Some(h) => h,
        None => return false,
    };
    if token.is_empty() {
        return false;
    }
    let v = chars_of(h);
    let p = chars_of("Bearer ");
    assert(p@.len() == 7);
    if v.len() < 7 {
        return false;
    }
    let mut i: usize = 0;
    while i < 7
        invariant
            i <= 7 <= v@.len(),
            p@ == "Bearer "@,
            p@.len() == 7,
            v@ == h@,
            header == Some(h),
            forall|k: int| 0 <= k < i ==> v@[k] == p@[k],
        decreases 7 - i,
    {
        if v[i] != p[i] {
            assert(h@.subrange(0, 7)[i as int] == v@[i as int]);
            assert(h@.subrange(0, 7)[i as int] != "Bearer "@[i as int]);
            assert(h@.subrange(0, 7) != "Bearer "@);
            return false;
        }
        i += 1;
    }
    assert(h@.subrange(0, 7) =~= "Bearer "@);
    let rest = string_from_range(&v, 7, v.len());
    ct_eq(rest.as_str(), token)
}

/// Whether a login token matches the server token (a server without a token
/// accepts nobody).
pub fn token_ok(given: &str, token: &str) -> (r: bool)
    ensures
        r == (token@.len() > 0 && given.spec_bytes() == token.spec_bytes()),
{
    !token.is_empty() && ct_eq(given, token)
}

/// The numbers of a version text: the leading digits of each dot-separated
/// part of the text (trimmed, leading `v`s removed), each read as a `u64`
/// (0 when empty or too large).
pub open spec fn version_numbers(s: Seq<char>) -> Seq<int> {
    split_on(strip_leading_v(trim_spec(s)), '.').map_values(|p: Seq<char>|
        match parse_unsigned_spec(digit_prefix(p), 0xffff_ffff_ffff_ffff) {
            Some(v) => v,
            None => 0,
        })
}

/// The `i`-th number, 0 past the end.
pub open spec fn number_at(v: Seq<int>, i: int) -> int {
    if 0 <= i < v.len() { v[i] } else { 0 }
}

/// Whether `b` is newer than `a`, comparing from position `i` on.
pub open spec fn newer_from(a: Seq<int>, b: Seq<int>, i: int) -> bool
    decreases (if a.len() > b.len() { a.len() } else { b.len() }) - i,
{
    if i >= a.len() && i >= b.len() {
        false
    } else if number_at(b, i) != number_at(a, i) {
        number_at(b, i) > number_at(a, i)
    } else {
        newer_from(a, b, i + 1)
    }
}

/// No version is newer than itself.
pub proof fn lemma_newer_irreflexive(a: Seq<int>, i: int)
    ensures
        !newer_from(a, a, i),
    decreases a.len() - i,
{
    if !(i >= a.len()) {
        lemma_newer_irreflexive(a, i + 1);
    }
}

/// Of two versions at most one is newer than the other.
pub proof fn lemma_newer_asymmetric(a: Seq<int>, b: Seq<int>, i: int)
    ensures
        !(newer_from(a, b, i) && newer_from(b, a, i)),
    decreases (if a.len() > b.len() { a.len() } else { b.len() }) - i,
{
    if !(i >= a.len() && i >= b.len()) && number_at(b, i) == number_at(a, i) {
        lemma_newer_asymmetric(a, b, i + 1);
    }
}

/// "Newer" is transitive.
pub proof fn lemma_newer_transitive(a: Seq<int>, b: Seq<int>, c: Seq<int>, i: int)
    requires
        newer_from(a, b, i),
        newer_from(b, c, i),
    ensures
        newer_from(a, c, i),
    decreases (if a.len() > b.len() { if a.len() > c.len() { a.len() } else { c.len() } }
        else { if b.len() > c.len() { b.len() } else { c.len() } }) - i,
{
    if number_at(b, i) == number_at(a, i) && number_at(c, i) == number_at(b, i) {
        lemma_newer_transitive(a, b, c, i + 1);
    }
}

/// The values of a sequence of `u64`.
pub open spec fn as_ints(v: Seq<u64>) -> Seq<int> {
    v.map_values(|x: u64| x as int)
}

/// The numbers of a version text.
fn version_parts(s: &str) -> (r: Vec<u64>)
    ensures
        as_ints(r@) == version_numbers(s@),
{
    let t = trim_chars(&chars_of(s));
    let mut a: usize = 0;
    assert(t@.subrange(0, t@.len() as int) =~= t@);
    while a < t.len() && t[a] == 'v'
        invariant
            a <= t@.len(),
            strip_leading_v(t@.subrange(a as int, t@.len() as int)) == strip_leading_v(t@),
        decreases t@.len() - a,
    {
        assert(t@.subrange(a as int, t@.len() as int).drop_first() =~= t@.subrange(a + 1, t@.len() as int));
        a += 1;
    }
    let body = copy_range(&t, a, t.len());
    let parts = split_chars(&body, '.');
    let ghost want = version_numbers(s@);
    let mut out: Vec<u64> = Vec::new();
    let mut i: usize = 0;
    while i < parts.len()
        invariant
            i <= parts@.len(),
            deep_chars(parts@) == split_on(strip_leading_v(trim_spec(s@)), '.'),
            want == version_numbers(s@),
            as_ints(out@) == want.subrange(0, i as int),
        decreases parts@.len() - i,
    {
        assert(deep_chars(parts@)[i as int] == parts@[i as int]@);
        let d = crate::downloader::qbittorrent::digits_of(&parts[i]);
        let v: u64 = match parse_unsigned(&d, 0, d.len(), 0xffff_ffff_ffff_ffff) {
            Some(x) => x,
            None => 0,
        };
        assert(d@.subrange(0, d@.len() as int) =~= d@);
        let ghost before = out@;
        out.push(v);
        assert(as_ints(out@) =~= as_ints(before).push(v as int));
        i += 1;
        assert(as_ints(out@) =~= want.subrange(0, i as int));
    }
    assert(want.subrange(0, i as int) =~= want);
    out
}

/// Whether `latest` is a newer version than `current`: the numbers are
/// compared in order, missing ones counting as 0.
pub fn version_newer(current: &str, latest: &str) -> (r: bool)
    ensures
        r == newer_from(version_numbers(current@), version_numbers(latest@), 0),
{
    let a = version_parts(current);
    let b = version_parts(latest);
    let ghost av = as_ints(a@);
    let ghost bv = as_ints(b@);
    let n = if a.len() > b.len() { a.len() } else { b.len() };
    let mut i: usize = 0;
    while i < n
        invariant
            i <= n,
            n == (if a@.len() > b@.len() { a@.len() } else { b@.len() }),
            av == as_ints(a@),
            bv == as_ints(b@),
            av == version_numbers(current@),
            bv == version_numbers(latest@),
            newer_from(av, bv, 0) == newer_from(av, bv, i as int),
        decreases n - i,
    {
        let x: u64 = if i < a.len() { a[i] } else { 0 };
        let y: u64 = if i < b.len() { b[i] } else { 0 };
        assert(number_at(av, i as int) == x);
        assert(number_at(bv, i as int) == y);
        if y != x {
            assert(!(i >= av.len() && i >= bv.len()));
            assert(newer_from(av, bv, i as int) == (y > x));
            return y > x;
        }
        i += 1;
    }
    false
}

/// The first maximal run, from index `i` on, of characters that start with
/// a digit (or hex digit / `:` for IPv6) and continue over the allowed set,
/// whose text parses; the parsed address.
pub open spec fn is_v4_char(c: char) -> bool {
    is_digit(c) || c == '.'
}

/// A hex digit or `:`.
pub open spec fn is_v6_char(c: char) -> bool {
    is_digit(c) || ('a' <= c && c <= 'f') || ('A' <= c && c <= 'F') || c == ':'
}

/// The end of the run of characters satisfying the predicate from `i`.
pub open spec fn run_end(s: Seq<char>, i: int, v6: bool) -> int
    decreases s.len() - i,
{
    if i < s.len() && (if v6 { is_v6_char(s[i]) } else { is_v4_char(s[i]) }) {
        run_end(s, i + 1, v6)
    } else {
        i
    }
}

/// The address found by scanning `s` from `i`: at each character that
/// starts a run (a digit for IPv4, a hex digit or `:` for IPv6), the whole
/// run is tried; scanning goes on after a run that does not parse.
pub open spec fn scan_addr(s: Seq<char>, i: int, v6: bool) -> Option<IpAddress>
    decreases s.len() - i,
{
    if i >= s.len() {
        None
    } else if (if v6 { is_v6_char(s[i]) } else { is_digit(s[i]) }) {
        let e = run_end(s, i, v6);
        let run = s.subrange(i, e);
        let parsed = if v6 {
            match ipv6_parse(run) { Some(b) => Some(IpAddress::V6(b)), None => None }
        } else {
            match ipv4_parse(run) { Some(a) => Some(IpAddress::V4(a)), None => None }
        };
        if parsed is Some {
            parsed
        } else if e > i {
            proof {
                lemma_run_end_bounds(s, i, v6);
            }
            scan_addr(s, e, v6)
        } else {
            scan_addr(s, i + 1, v6)
        }
    } else {
        scan_addr(s, i + 1, v6)
    }
}

pub proof fn lemma_run_end_bounds(s: Seq<char>, i: int, v6: bool)
    requires
        i <= s.len(),
    ensures
        i <= run_end(s, i, v6) <= s.len(),
    decreases s.len() - i,
{
    if i < s.len() && (if v6 { is_v6_char(s[i]) } else { is_v4_char(s[i]) }) {
        lemma_run_end_bounds(s, i + 1, v6);
    }
}

/// Whether `c` continues a run of the family.
fn in_run(c: char, v6: bool) -> (b: bool)
    ensures
        b == (if v6 { is_v6_char(c) } else { is_v4_char(c) }),
{
    if v6 {
        ('0' <= c && c <= '9') || ('a' <= c && c <= 'f') || ('A' <= c && c <= 'F') || c == ':'
    } else {
        ('0' <= c && c <= '9') || c == '.'
    }
}

/// Scans `v` for the first run that reads as an address of the family.
fn scan(v: &Vec<char>, v6: bool) -> (r: Option<IpAddress>)
    ensures
        r == scan_addr(v@, 0, v6),
{
    let mut i: usize = 0;
    while i < v.len()
        invariant
            i <= v@.len(),
            scan_addr(v@, i as int, v6) == scan_addr(v@, 0, v6),
        decreases v@.len() - i,
    {
        let c = v[i];
        let starts = if v6 {
            ('0' <= c && c <= '9') || ('a' <= c && c <= 'f') || ('A' <= c && c <= 'F') || c == ':'
        } else {
            '0' <= c && c <= '9'
        };
        if starts {
            let start = i;
            let mut e = i;
            while e < v.len() && in_run(v[e], v6)
                invariant
                    start <= e <= v@.len(),
                    run_end(v@, e as int, v6) == run_end(v@, start as int, v6),
                decreases v@.len() - e,
            {
                e += 1;
            }
            let run = string_from_range(v, start, e);
            let parsed = if v6 {
                match parse_ipv6(run.as_str()) {
                    Some(b) => Some(IpAddress::V6(b)),
                    None => None,
                }
            } else {
                match parse_ipv4(run.as_str()) {
                    Some(a) => Some(IpAddress::V4(a)),
                    None => None,
                }
            };
            if parsed.is_some() {
                return parsed;
            }
            if e > i {
                i = e;
            } else {
                i += 1;
            }
        } else {
            i += 1;
        }
    }
    None
}

/// The first IPv4 address in a text, as canonical text.
pub fn extract_ipv4(body: &str) -> (r: Option<String>)
    ensures
        match (r, scan_addr(body@, 0, false)) {
            (Some(t), Some(a)) => t@ == ip_text(a),
            (None, None) => true,
            _ => false,
        },
{
    match scan(&chars_of(body), false) {
        Some(a) => Some(ip_to_string(a)),
        None => None,
    }
}

/// The first IPv6 address in a text, as canonical text.
pub fn extract_ipv6(body: &str) -> (r: Option<String>)
    ensures
        match (r, scan_addr(body@, 0, true)) {
            (Some(t), Some(a)) => t@ == ip_text(a),
            (None, None) => true,
            _ => false,
        },
{
    match scan(&chars_of(body), true) {
        Some(a) => Some(ip_to_string(a)),
        None => None,
    }
}

/// An error and its sources, as one text: each source not already part of
/// the text is appended after ` ← `.
pub open spec fn chain_spec(segs: Seq<Seq<char>>) -> Seq<char>
    decreases segs.len(),
{
    if segs.len() == 0 {
        Seq::empty()
    } else if segs.len() == 1 {
        segs[0]
    } else {
        let prev = chain_spec(segs.drop_last());
        if contains_spec(prev, segs.last()) {
            prev
        } else {
            prev + " ← "@ + segs.last()
        }
    }
}

/// Joins the messages of an error and of its sources (outermost first).
pub fn err_chain(segments: &Vec<String>) -> (r: String)
    ensures
        r@ == chain_spec(deep_strings(segments@)),
{
    let ghost all = deep_strings(segments@);
    let mut s: Vec<char> = Vec::new();
    let mut i: usize = 0;
    while i < segments.len()
        invariant
            i <= segments@.len(),
            all == deep_strings(segments@),
            s@ == chain_spec(all.subrange(0, i as int)),
        decreases segments@.len() - i,
    {
        let ghost pre = all.subrange(0, i as int);
        let ghost post = all.subrange(0, i as int + 1);
        assert(post.drop_last() =~= pre);
        assert(post.last() == segments@[i as int]@);
        let seg = chars_of(segments[i].as_str());
        if i == 0 {
            push_str(&mut s, segments[i].as_str());
            assert(s@ =~= chain_spec(post));
        } else if !contains_chars(&s, &seg) {
            push_str(&mut s, " ← ");
            push_str(&mut s, segments[i].as_str());
        }
        i += 1;
    }
    assert(all.subrange(0, i as int) =~= all);
    string_from_chars(&s)
}

/// Always `true` (a serde default).
pub fn yes() -> (r: bool)
    ensures
        r,
{
    true
}

/// The release target of a platform, when there is a build for it.
pub fn target_for(os: &str, arch: &str) -> (r: Option<&'static str>)
    ensures
        match r {
            Some(t) => (os@ == "linux"@ && arch@ == "x86_64"@ && t@ == "x86_64-unknown-linux-gnu"@)
                || (os@ == "windows"@ && arch@ == "x86_64"@ && t@ == "x86_64-pc-windows-msvc"@)
                || (os@ == "macos"@ && arch@ == "aarch64"@ && t@ == "aarch64-apple-darwin"@)
                || (os@ == "macos"@ && arch@ == "x86_64"@ && t@ == "x86_64-apple-darwin"@),
            None => !((os@ == "linux"@ && arch@ == "x86_64"@) || (os@ == "windows"@ && arch@ == "x86_64"@)
                || (os@ == "macos"@ && arch@ == "aarch64"@) || (os@ == "macos"@ && arch@ == "x86_64"@)),
        },
{
    let o = chars_of(os);
    let a = chars_of(arch);
    let linux = crate::text::eq_chars(&o, &chars_of("linux"));
    let windows = crate::text::eq_chars(&o, &chars_of("windows"));
    let macos = crate::text::eq_chars(&o, &chars_of("macos"));
    let x86 = crate::text::eq_chars(&a, &chars_of("x86_64"));
    let arm = crate::text::eq_chars(&a, &chars_of("aarch64"));
    if linux && x86 {
        Some("x86_64-unknown-linux-gnu")
    } else if windows && x86 {
        Some("x86_64-pc-windows-msvc")
    } else if macos && arm {
        Some("aarch64-apple-darwin")
    } else if macos && x86 {
        Some("x86_64-apple-darwin")
    } else {
        None
    }
}

/// The self-update asset of a release target: `pbh-rust-<target>.gz`.
pub fn asset_name(target: Option<&str>) -> (r: Option<String>)
    ensures
        match target {
            Some(t) => r matches Some(s) && s@ == "pbh-rust-"@ + t@ + ".gz"@,
            None => r is None,
        },
{
    match target {
        Some(t) => {
            let mut v: Vec<char> = Vec::new();
            push_str(&mut v, "pbh-rust-");
            push_str(&mut v, t);
            push_str(&mut v, ".gz");
            Some(string_from_chars(&v))
        },
        None => None,
    }
}

/// The clock in nanoseconds since the Unix epoch (0 before it).
#[verifier::external_body]
fn clock_nanos() -> u128 {
    std::time::SystemTime::now()
        .duration_since(std::time::UNIX_EPOCH)
        .map(|d| d.as_nanos())
        .unwrap_or(0)
}

/// A fresh downloader id: `d` and the clock in nanoseconds, in hex.
pub fn gen_id() -> (r: String)
    ensures
        exists|t: u128| r@ == seq!['d'] + hex(t as nat),
{
    let t = clock_nanos();
    let mut v: Vec<char> = Vec::new();
    v.push('d');
    crate::engine::ban_manager::push_hex(&mut v, t);
    string_from_chars(&v)
}

/// `getrandom::getrandom`: fills 16 bytes from the system's random source,
/// or fails when that source is unavailable.
#[verifier::external_body]
fn random16() -> (r: Option<Vec<u8>>)
    ensures
        r matches Some(v) ==> v@.len() == 16,
{
    let mut bytes = [0u8; 16];
    match getrandom::getrandom(&mut bytes) {
        Ok(()) => Some(bytes.to_vec()),
        Err(_) => None,
    }
}

/// The token made of some bytes: their hex digits, two per byte, lower case.
pub fn hex_token(bytes: &Vec<u8>) -> (r: String)
    ensures
        r@ == hex_of_bytes(bytes@),
{
    let v = crate::btn::hash::hex_text(bytes);
    string_from_chars(&v)
}

/// A random token of 32 hex digits (16 random bytes); `None` when the
/// system's random source is unavailable (the outside call alone decides
/// that, and which bytes come).
pub fn gen_hex_token() -> (r: Option<String>)
    ensures
        r matches Some(s) ==> exists|b: Seq<u8>| b.len() == 16 && s@ == hex_of_bytes(b),
{
    match random16() {
        Some(bytes) => Some(hex_token(&bytes)),
        None => None,
    }
}

/// Why a subscription cannot be saved: the id and the URL must not be blank,
/// and the id may not hold a `.`. `None`: it can be saved.
pub fn sub_rule_problem(rule_id: &str, url: &str) -> (r: Option<&'static str>)
    ensures
        (trim_spec(rule_id@).len() == 0 || trim_spec(url@).len() == 0) ==> (r matches Some(m) && m@ == "rule_id 与 url 必填"@),
        !(trim_spec(rule_id@).len() == 0 || trim_spec(url@).len() == 0) && rule_id@.contains('.')
            ==> (r matches Some(m) && m@ == "rule_id 不可含 '.'"@),
        !(trim_spec(rule_id@).len() == 0 || trim_spec(url@).len() == 0) && !rule_id@.contains('.') ==> r is None,
{
    let id = trim_str(rule_id);
    let u = trim_str(url);
    if id.as_str().is_empty() || u.as_str().is_empty() {
        return Some("rule_id 与 url 必填");
    }
    if crate::text::has_char(&chars_of(rule_id), '.') {
        return Some("rule_id 不可含 '.'");
    }
    None
}

/// The smallest plausible size of an extracted update: 1 MiB.
pub const MIN_UPDATE_BYTES: usize = 1_048_576;

/// An extracted update smaller than 1 MiB is taken to be damaged or wrong.
pub fn update_too_small(len: usize) -> (b: bool)
    ensures
        b == (len < MIN_UPDATE_BYTES),
{
    len < MIN_UPDATE_BYTES
}

/// The page of the ban history a query asks for: `(page, size, offset)`. The
/// page is at least 1 (1 by default), the size between 1 and 200 (20 by
/// default), and the offset skips the earlier pages (held at `i64::MAX`).
pub fn history_window(page: Option<i64>, page_size: Option<i64>) -> (r: (i64, i64, i64))
    ensures
        r.0 == (match page { Some(p) => if p < 1 { 1 } else { p }, None => 1 }),
        r.1 == (match page_size { Some(s) => if s < 1 { 1 } else if s > 200 { 200 } else { s }, None => 20 }),
        r.2 == (if (r.0 - 1) * r.1 <= i64::MAX { (r.0 - 1) * r.1 } else { i64::MAX as int }),
{
    let p: i64 = match page {
        Some(p) => if p < 1 { 1 } else { p },
        None => 1,
    };
    let size: i64 = match page_size {
        Some(s) => if s < 1 { 1 } else if s > 200 { 200 } else { s },
        None => 20,
    };
    let a: i128 = (p - 1) as i128;
    let b: i128 = size as i128;
    assert(0 <= a * b <= (i64::MAX as int) * 200) by (nonlinear_arith)
        requires
            0 <= a <= i64::MAX,
            1 <= b <= 200,
    ;
    let skip: i128 = a * b;
    let offset: i64 = if skip <= i64::MAX as i128 { skip as i64 } else { i64::MAX };
    (p, size, offset)
}

} // verus!

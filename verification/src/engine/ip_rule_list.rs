//! Subscribed address blacklists: the parser of the list texts (plain
//! addresses, CIDR blocks and eMule DAT ranges, with `#` and `//` comments)
//! and the module that bans peers found in any subscription.

use vstd::prelude::*;
use vstd::string::StrSliceExecFns;
use vstd::arithmetic::power2::{pow2, lemma2_to64, lemma_pow2_pos};
use crate::domain::ban::{CheckResult, PeerAction, copy_string};
use crate::ip::{Network, network_or_host};
use crate::domain::peer::Peer;
use crate::rules::ip_matcher::{IpMatcher, covered};
use crate::text::{
    chars_of, copy_range, decimal, deep_chars, deep_strings, occurs_at, parse_unsigned, parse_unsigned_spec,
    push_str, split_chars, split_on, starts_with_spec, string_from_chars, trim_chars, trim_spec,
    matches_at, lemma_split_on_nonempty, lemma_deep_chars_push, lemma_deep_strings_push,
};

verus! {

/// The host bits of the largest block that starts at `start`, is aligned on
/// its size and ends at or before `end`, trying `k` bits and fewer.
pub open spec fn block_bits(start: nat, end: nat, k: nat) -> nat
    decreases k,
{
    if k == 0 {
        0
    } else if start % pow2(k) == 0 && start + pow2(k) <= end + 1 {
        k
    } else {
        block_bits(start, end, (k - 1) as nat)
    }
}

/// The block chosen from `start` ends at or before `end`.
pub proof fn lemma_block_fits(start: nat, end: nat, k: nat)
    requires
        start <= end,
    ensures
        start + pow2(block_bits(start, end, k)) <= end + 1,
    decreases k,
{
    lemma2_to64();
    if k > 0 && !(start % pow2(k) == 0 && start + pow2(k) <= end + 1) {
        lemma_block_fits(start, end, (k - 1) as nat);
    }
}

/// The blocks `(first address, host bits)` that cover `start..=end`, each
/// the largest aligned block that fits from where the previous one ended.
pub open spec fn range_blocks(start: nat, end: nat) -> Seq<(nat, nat)>
    decreases end + 1 - start,
{
    if start > end {
        Seq::empty()
    } else {
        let k = block_bits(start, end, 32);
        proof {
            lemma_block_fits(start, end, 32);
            lemma_pow2_pos(k);
        }
        seq![(start, k)] + range_blocks(start + pow2(k), end)
    }
}

/// An IPv4 block in its text form, `a.b.c.d/len`.
pub open spec fn ipv4_cidr_text(addr: nat, host_bits: nat) -> Seq<char> {
    decimal(addr / 0x100_0000 % 256) + seq!['.'] + decimal(addr / 0x1_0000 % 256) + seq!['.']
        + decimal(addr / 0x100 % 256) + seq!['.'] + decimal(addr % 256) + seq!['/']
        + decimal((32 - host_bits) as nat)
}

/// The CIDR blocks, as text, that cover the IPv4 range `start..=end`: each
/// block as large as it can be, starting where the previous one ended.
pub open spec fn ipv4_range_cidrs(start: u32, end: u32) -> Seq<Seq<char>> {
    range_blocks(start as nat, end as nat).map_values(|b: (nat, nat)| ipv4_cidr_text(b.0, b.1))
}

/// `ipnet::Ipv4Subnets::new(start, end, 0)`, each block written with `Display`:
/// the iterator yields, from `start` on, the next network of the largest size
/// that starts there and does not pass `end`, until `end` is covered.
#[verifier::external_body]
fn ipv4_subnets(start: u32, end: u32) -> (r: Vec<String>)
    requires
        start <= end,
    ensures
        deep_strings(r@) == ipv4_range_cidrs(start, end),
{
    ipnet::Ipv4Subnets::new(start.into(), end.into(), 0).map(|n| n.to_string()).collect()
}

/// A comment starts at `i`: a `#`, or `//`.
pub open spec fn comment_at(s: Seq<char>, i: int) -> bool {
    (0 <= i < s.len() && s[i] == '#') || occurs_at(s, seq!['/', '/'], i)
}

/// The index of the first comment at or after `i`, or the length.
pub open spec fn comment_cut_from(s: Seq<char>, i: int) -> int
    decreases s.len() - i,
{
    if i >= s.len() {
        s.len() as int
    } else if comment_at(s, i) {
        i
    } else {
        comment_cut_from(s, i + 1)
    }
}

/// `s` without its inline comment.
pub open spec fn strip_comment_spec(s: Seq<char>) -> Seq<char> {
    s.subrange(0, comment_cut_from(s, 0))
}

proof fn lemma_comment_cut_bounds(s: Seq<char>, i: int)
    requires
        0 <= i <= s.len(),
    ensures
        i <= comment_cut_from(s, i) <= s.len(),
    decreases s.len() - i,
{
    if i < s.len() && !comment_at(s, i) {
        lemma_comment_cut_bounds(s, i + 1);
    }
}

/// The text before the first inline comment (`#` or `//`, whichever comes first).
pub fn strip_inline_comment(line: &str) -> (r: &str)
    ensures
        r@ == strip_comment_spec(line@),
{
    let v = chars_of(line);
    let slashes = chars_of("//");
    assert(slashes@ =~= seq!['/', '/']) by {
        reveal_strlit("//");
    }
    let mut i: usize = 0;
    while i < v.len()
        invariant
            i <= v@.len(),
            v@ == line@,
            slashes@ == seq!['/', '/'],
            comment_cut_from(v@, i as int) == comment_cut_from(v@, 0),
        decreases v@.len() - i,
    {
        if v[i] == '#' || matches_at(&v, &slashes, i) {
            proof { lemma_comment_cut_bounds(v@, 0); }
            return line.substring_char(0, i);
        }
        i += 1;
    }
    proof { lemma_comment_cut_bounds(v@, 0); }
    line.substring_char(0, v.len())
}

/// The value of a dotted quad whose parts are decimal numbers up to 255,
/// leading zeros allowed (as in eMule DAT files), after trimming.
pub open spec fn padded_ipv4_spec(s: Seq<char>) -> Option<u32> {
    let parts = split_on(trim_spec(s), '.');
    if parts.len() == 4 && parse_unsigned_spec(parts[0], 255) is Some && parse_unsigned_spec(parts[1], 255) is Some
        && parse_unsigned_spec(parts[2], 255) is Some && parse_unsigned_spec(parts[3], 255) is Some {
        let a = parse_unsigned_spec(parts[0], 255)->0;
        let b = parse_unsigned_spec(parts[1], 255)->0;
        let c = parse_unsigned_spec(parts[2], 255)->0;
        let d = parse_unsigned_spec(parts[3], 255)->0;
        Some((((a * 256 + b) * 256 + c) * 256 + d) as u32)
    } else {
        None
    }
}

/// Reads a zero-padded dotted quad such as `016.000.000.000` (which the std
/// parser refuses), giving the address as its integer value.
pub fn parse_padded_ipv4(s: &str) -> (r: Option<u32>)
    ensures
        r == padded_ipv4_spec(s@),
{
    let t = trim_chars(&chars_of(s));
    let parts = split_chars(&t, '.');
    if parts.len() != 4 {
        return None;
    }
    assert(deep_chars(parts@)[0] == parts@[0]@);
    assert(deep_chars(parts@)[1] == parts@[1]@);
    assert(deep_chars(parts@)[2] == parts@[2]@);
    assert(deep_chars(parts@)[3] == parts@[3]@);
    let a = match parse_unsigned(&parts[0], 0, parts[0].len(), 255) {
        Some(x) => x,
        None => {
            assert(parts@[0]@.subrange(0, parts@[0]@.len() as int) =~= parts@[0]@);
            return None;
        },
    };
    let b = match parse_unsigned(&parts[1], 0, parts[1].len(), 255) {
        Some(x) => x,
        None => {
            assert(parts@[1]@.subrange(0, parts@[1]@.len() as int) =~= parts@[1]@);
            return None;
        },
    };
    let c = match parse_unsigned(&parts[2], 0, parts[2].len(), 255) {
        Some(x) => x,
        None => {
            assert(parts@[2]@.subrange(0, parts@[2]@.len() as int) =~= parts@[2]@);
            return None;
        },
    };
    let d = match parse_unsigned(&parts[3], 0, parts[3].len(), 255) {
        Some(x) => x,
        None => {
            assert(parts@[3]@.subrange(0, parts@[3]@.len() as int) =~= parts@[3]@);
            return None;
        },
    };
    assert(parts@[0]@.subrange(0, parts@[0]@.len() as int) =~= parts@[0]@);
    assert(parts@[1]@.subrange(0, parts@[1]@.len() as int) =~= parts@[1]@);
    assert(parts@[2]@.subrange(0, parts@[2]@.len() as int) =~= parts@[2]@);
    assert(parts@[3]@.subrange(0, parts@[3]@.len() as int) =~= parts@[3]@);
    assert(a <= 255 && b <= 255 && c <= 255 && d <= 255);
    let v: u64 = ((a * 256 + b) * 256 + c) * 256 + d;
    assert(v <= 0xffff_ffff);
    Some(v as u32)
}

/// An eMule DAT level of 128 or more marks a range as untrusted: the level
/// text reads as a signed 64-bit integer of at least 128 (unreadable means 0).
pub open spec fn level_drops(s: Seq<char>) -> bool {
    match parse_unsigned_spec(s, 0x7fff_ffff_ffff_ffff) {
        Some(v) => v >= 128,
        None => false,
    }
}

/// The blocks of one eMule DAT line: `start , end , level , name`.
pub open spec fn dat_entries(line: Seq<char>) -> Seq<Seq<char>> {
    let parts = split_on(line, ',').map_values(|p: Seq<char>| trim_spec(p));
    if parts.len() < 3 || level_drops(parts[2]) {
        Seq::empty()
    } else {
        match (padded_ipv4_spec(parts[0]), padded_ipv4_spec(parts[1])) {
            (Some(start), Some(end)) => if start <= end {
                ipv4_range_cidrs(start, end)
            } else {
                Seq::empty()
            },
            _ => Seq::empty(),
        }
    }
}

/// What one line of a subscription contributes: nothing for blank and
/// comment lines; the blocks of a DAT range; otherwise the line itself (an
/// address or CIDR block, checked when it is inserted).
pub open spec fn line_entries(raw: Seq<char>) -> Seq<Seq<char>> {
    let line = trim_spec(raw);
    if line.len() == 0 || starts_with_spec(line, seq!['#']) || starts_with_spec(line, seq!['/', '/']) {
        Seq::empty()
    } else {
        let body = trim_spec(strip_comment_spec(line));
        if body.len() == 0 {
            Seq::empty()
        } else if body.contains(',') {
            dat_entries(body)
        } else {
            seq![body]
        }
    }
}

/// The entries of all the lines, in order.
pub open spec fn all_entries(lines: Seq<Seq<char>>) -> Seq<Seq<char>>
    decreases lines.len(),
{
    if lines.len() == 0 {
        Seq::empty()
    } else {
        all_entries(lines.drop_last()) + line_entries(lines.last())
    }
}

/// The entries of a subscription text. Lines are split at `\n`; a `\r`
/// before it is whitespace and goes with the trimming.
pub open spec fn rule_list_spec(text: Seq<char>) -> Seq<Seq<char>> {
    all_entries(split_on(text, '\n'))
}

/// Appends the strings of `src` to `out`.
fn append_strings(out: &mut Vec<String>, src: Vec<String>)
    ensures
        deep_strings(final(out)@) == deep_strings(old(out)@) + deep_strings(src@),
{
    let mut src = src;
    let mut i: usize = 0;
    let ghost start = deep_strings(out@);
    let ghost whole = deep_strings(src@);
    let n = src.len();
    let mut rest: Vec<String> = Vec::new();
    while i < n
        invariant
            i <= n == whole.len(),
            deep_strings(out@) == start + whole.subrange(0, i as int),
            deep_strings(src@) == whole,
        decreases n - i,
    {
        let s = string_from_chars(&chars_of(src[i].as_str()));
        assert(whole[i as int] == src@[i as int]@);
        proof { lemma_deep_strings_push(out@, s); }
        out.push(s);
        assert(whole.subrange(0, i as int + 1) =~= whole.subrange(0, i as int).push(whole[i as int]));
        i += 1;
        assert(deep_strings(out@) =~= start + whole.subrange(0, i as int));
    }
    assert(whole.subrange(0, i as int) =~= whole);
}

/// The blocks of one eMule DAT line.
fn dat_line(line: &Vec<char>) -> (r: Vec<String>)
    ensures
        deep_strings(r@) == dat_entries(line@),
{
    let pieces = split_chars(line, ',');
    let mut parts: Vec<Vec<char>> = Vec::new();
    let mut i: usize = 0;
    let ghost want = split_on(line@, ',').map_values(|p: Seq<char>| trim_spec(p));
    while i < pieces.len()
        invariant
            i <= pieces@.len(),
            deep_chars(pieces@) == split_on(line@, ','),
            want == split_on(line@, ',').map_values(|p: Seq<char>| trim_spec(p)),
            deep_chars(parts@) == want.subrange(0, i as int),
        decreases pieces@.len() - i,
    {
        assert(deep_chars(pieces@)[i as int] == pieces@[i as int]@);
        assert(want[i as int] == trim_spec(pieces@[i as int]@));
        let t = trim_chars(&pieces[i]);
        proof { lemma_deep_chars_push(parts@, t); }
        parts.push(t);
        assert(want.subrange(0, i as int + 1) =~= want.subrange(0, i as int).push(want[i as int]));
        i += 1;
        assert(deep_chars(parts@) =~= want.subrange(0, i as int));
    }
    assert(want.subrange(0, i as int) =~= want);
    assert(deep_chars(parts@) == want);
    assert(deep_chars(parts@).len() == parts@.len());
    if parts.len() < 3 {
        return Vec::new();
    }
    assert(deep_chars(parts@)[2] == parts@[2]@);
    assert(want[2] == parts@[2]@);
    assert(want[0] == parts@[0]@);
    assert(want[1] == parts@[1]@);
    assert(parts@[2]@.subrange(0, parts@[2]@.len() as int) =~= parts@[2]@);
    match parse_unsigned(&parts[2], 0, parts[2].len(), 0x7fff_ffff_ffff_ffff) {
        Some(level) => {
            if level >= 128 {
                return Vec::new();
            }
        },
        None => {},
    }
    assert(deep_chars(parts@)[0] == parts@[0]@);
    assert(deep_chars(parts@)[1] == parts@[1]@);
    let start = parse_padded_ipv4(string_from_chars(&parts[0]).as_str());
    let end = parse_padded_ipv4(string_from_chars(&parts[1]).as_str());
    match (start, end) {
        (Some(s), Some(e)) => {
            if s <= e {
                ipv4_subnets(s, e)
            } else {
                Vec::new()
            }
        },
        _ => Vec::new(),
    }
}

/// The entries of one line.
fn line_to_entries(raw: &Vec<char>) -> (r: Vec<String>)
    ensures
        deep_strings(r@) == line_entries(raw@),
{
    let line = trim_chars(raw);
    if line.len() == 0 {
        return Vec::new();
    }
    let hash = chars_of("#");
    let slashes = chars_of("//");
    assert(hash@ =~= seq!['#']) by { reveal_strlit("#"); }
    assert(slashes@ =~= seq!['/', '/']) by { reveal_strlit("//"); }
    if matches_at(&line, &hash, 0) || matches_at(&line, &slashes, 0) {
        return Vec::new();
    }
    let line_str = string_from_chars(&line);
    let cut = strip_inline_comment(line_str.as_str());
    let body = trim_chars(&chars_of(cut));
    if body.len() == 0 {
        return Vec::new();
    }
    if crate::text::has_char(&body, ',') {
        dat_line(&body)
    } else {
        let mut r: Vec<String> = Vec::new();
        r.push(string_from_chars(&body));
        assert(deep_strings(r@) =~= seq![body@]);
        r
    }
}

/// Reads a subscription text into the list of address and CIDR entries.
pub fn parse_rule_list(text: &str) -> (r: Vec<String>)
    ensures
        deep_strings(r@) == rule_list_spec(text@),
{
    let v = chars_of(text);
    let lines = split_chars(&v, '\n');
    let mut out: Vec<String> = Vec::new();
    let mut i: usize = 0;
    while i < lines.len()
        invariant
            i <= lines@.len(),
            deep_chars(lines@) == split_on(text@, '\n'),
            deep_strings(out@) == all_entries(deep_chars(lines@).subrange(0, i as int)),
        decreases lines@.len() - i,
    {
        let ghost pre = deep_chars(lines@).subrange(0, i as int);
        let ghost post = deep_chars(lines@).subrange(0, i as int + 1);
        assert(post.drop_last() =~= pre);
        assert(post.last() == lines@[i as int]@);
        let entries = line_to_entries(&lines[i]);
        append_strings(&mut out, entries);
        i += 1;
    }
    assert(deep_chars(lines@).subrange(0, i as int) =~= deep_chars(lines@));
    out
}

/// One subscription of the profile.
#[derive(Debug, Clone)]
pub struct SubConfig {
    pub rule_id: String,
    pub rule_name: String,
    pub url: String,
    pub enabled: bool,
}

/// The matcher built from one subscription.
pub struct SubMatcher {
    pub rule_id: String,
    pub rule_name: String,
    pub matcher: IpMatcher<()>,
}

/// The first subscription (in order) whose blocks cover `ip`.
pub open spec fn first_covering(subs: Seq<SubMatcher>, ip: crate::ip::IpAddress) -> Option<int> {
    if exists|i: int| 0 <= i < subs.len() && covered(#[trigger] subs[i].matcher@.dom(), ip) {
        Some(choose|i: int| 0 <= i < subs.len() && covered(#[trigger] subs[i].matcher@.dom(), ip)
            && forall|k: int| 0 <= k < i ==> !covered(#[trigger] subs[k].matcher@.dom(), ip))
    } else {
        None
    }
}

/// The subscription module: the matchers of the subscriptions downloaded so far.
pub struct IpBlackRuleList {
    pub ban_duration: i64,
    pub matchers: Vec<SubMatcher>,
}

impl IpBlackRuleList {
    /// The module's name.
    pub fn name(&self) -> (r: &'static str)
        ensures
            r == "IPBlackRuleList",
    {
        "IPBlackRuleList"
    }

    /// The module's key in the profile.
    pub fn config_name(&self) -> (r: &'static str)
        ensures
            r == "ip-address-blocker-rules",
    {
        "ip-address-blocker-rules"
    }

    /// Bans a peer whose address is covered by a subscription; the first such
    /// subscription gives the rule (`ipbl:<id>`) and the reason.
    pub fn should_ban(&self, peer: &Peer) -> (r: CheckResult)
        ensures
            r.module == "IPBlackRuleList",
            match first_covering(self.matchers@, peer.address.ip) {
                Some(i) => {
                    &&& r.action == PeerAction::Ban
                    &&& r.duration_ms == self.ban_duration
                    &&& r.rule@ == "ipbl:"@ + self.matchers@[i].rule_id@
                    &&& r.reason@ == "命中 IP 黑名单订阅「"@ + self.matchers@[i].rule_name@ + "」"@
                },
                None => r.action == PeerAction::NoAction && r.duration_ms == 0,
            },
    {
        let ip = peer.address.ip;
        let mut i: usize = 0;
        while i < self.matchers.len()
            invariant
                i <= self.matchers@.len(),
                ip == peer.address.ip,
                forall|k: int| 0 <= k < i ==> !covered(#[trigger] self.matchers@[k].matcher@.dom(), ip),
            decreases self.matchers@.len() - i,
        {
            if self.matchers[i].matcher.contains(ip) {
                let ghost j = i as int;
                assert(covered(self.matchers@[j].matcher@.dom(), ip));
                proof {
                    assert(0 <= j < self.matchers@.len() && covered(self.matchers@[j].matcher@.dom(), ip)
                        && forall|k: int| 0 <= k < j ==> !covered(#[trigger] self.matchers@[k].matcher@.dom(), ip));
                    let c = first_covering(self.matchers@, ip)->0;
                    assert(first_covering(self.matchers@, ip) is Some);
                    assert(c == j) by {
                        if c < j {
                            assert(!covered(self.matchers@[c].matcher@.dom(), ip));
                        } else if c > j {
                            assert(!covered(self.matchers@[j].matcher@.dom(), ip));
                        }
                    }
                    assert(first_covering(self.matchers@, ip) == Some(j));
                }
                let mut rule: Vec<char> = Vec::new();
                push_str(&mut rule, "ipbl:");
                push_str(&mut rule, self.matchers[i].rule_id.as_str());
                let mut reason: Vec<char> = Vec::new();
                push_str(&mut reason, "命中 IP 黑名单订阅「");
                push_str(&mut reason, self.matchers[i].rule_name.as_str());
                push_str(&mut reason, "」");
                assert(rule@ =~= "ipbl:"@ + self.matchers@[j].rule_id@);
                assert(reason@ =~= "命中 IP 黑名单订阅「"@ + self.matchers@[j].rule_name@ + "」"@);
                let res = CheckResult {
                    module: "IPBlackRuleList",
                    action: PeerAction::Ban,
                    duration_ms: self.ban_duration,
                    rule: string_from_chars(&rule),
                    reason: string_from_chars(&reason),
                };
                assert(res.rule@ == "ipbl:"@ + self.matchers@[j].rule_id@);
                assert(res.reason@ == "命中 IP 黑名单订阅「"@ + self.matchers@[j].rule_name@ + "」"@);
                return res;
            }
            i += 1;
        }
        CheckResult::pass("IPBlackRuleList")
    }
}


/// The networks of a subscription list, inserted in order (a text that is
/// not understood is skipped).
pub open spec fn built_map(cidrs: Seq<Seq<char>>) -> Map<Network, ()>
    decreases cidrs.len(),
{
    if cidrs.len() == 0 {
        Map::empty()
    } else {
        let m = built_map(cidrs.drop_last());
        match network_or_host(cidrs.last()) {
            Some(n) => m.insert(n, ()),
            None => m,
        }
    }
}

/// How many texts of a subscription list are understood.
pub open spec fn parsed_count(cidrs: Seq<Seq<char>>) -> nat
    decreases cidrs.len(),
{
    if cidrs.len() == 0 {
        0
    } else {
        parsed_count(cidrs.drop_last()) + if network_or_host(cidrs.last()) is Some { 1nat } else { 0nat }
    }
}

/// Builds the matcher of a freshly downloaded subscription. Gives back the
/// matcher and the number of entries understood (the count that is stored).
pub fn build_sub_matcher(sub: &SubConfig, cidrs: &Vec<String>) -> (r: (SubMatcher, i64))
    requires
        cidrs@.len() <= i64::MAX,
    ensures
        r.0.rule_id@ == sub.rule_id@,
        r.0.rule_name@ == sub.rule_name@,
        r.0.matcher@ == built_map(deep_strings(cidrs@)),
        r.1 == parsed_count(deep_strings(cidrs@)),
{
    let mut m: IpMatcher<()> = IpMatcher::new();
    let mut cnt: i64 = 0;
    let mut i: usize = 0;
    while i < cidrs.len()
        invariant
            i <= cidrs@.len() <= i64::MAX,
            m@ == built_map(deep_strings(cidrs@).subrange(0, i as int)),
            cnt == parsed_count(deep_strings(cidrs@).subrange(0, i as int)),
            cnt <= i,
        decreases cidrs@.len() - i,
    {
        let ghost pre = deep_strings(cidrs@).subrange(0, i as int);
        let ghost post = deep_strings(cidrs@).subrange(0, i + 1);
        assert(post.drop_last() =~= pre);
        assert(post.last() == cidrs@[i as int]@);
        if m.insert(cidrs[i].as_str(), ()) {
            cnt += 1;
        }
        i += 1;
    }
    assert(deep_strings(cidrs@).subrange(0, cidrs@.len() as int) =~= deep_strings(cidrs@));
    (SubMatcher { rule_id: copy_string(&sub.rule_id), rule_name: copy_string(&sub.rule_name), matcher: m },
        cnt)
}

/// Takes out of `prev` the first matcher of the subscription `rule_id`, if
/// there is one (a failed download keeps the matcher it had).
pub fn take_old(prev: &mut Vec<SubMatcher>, rule_id: &str) -> (r: Option<SubMatcher>)
    ensures
        r is None <==> forall|i: int| 0 <= i < old(prev)@.len() ==> #[trigger] old(prev)@[i].rule_id@ != rule_id@,
        r is None ==> final(prev)@ == old(prev)@,
        r is Some ==> exists|i: int| {
            &&& 0 <= i < old(prev)@.len()
            &&& #[trigger] old(prev)@[i].rule_id@ == rule_id@
            &&& forall|k: int| 0 <= k < i ==> #[trigger] old(prev)@[k].rule_id@ != rule_id@
            &&& r == Some(old(prev)@[i])
            &&& final(prev)@ == old(prev)@.remove(i)
        },
{
    let mut i: usize = 0;
    while i < prev.len()
        invariant
            i <= prev@.len(),
            prev@ == old(prev)@,
            forall|k: int| 0 <= k < i ==> #[trigger] old(prev)@[k].rule_id@ != rule_id@,
        decreases prev@.len() - i,
    {
        if crate::text::str_eq(prev[i].rule_id.as_str(), rule_id) {
            let ghost j = i as int;
            let m = prev.remove(i);
            assert(old(prev)@[j].rule_id@ == rule_id@);
            return Some(m);
        }
        i += 1;
    }
    None
}

/// The pause between two refreshes, in seconds: the configured interval
/// (milliseconds) held between one minute and one day.
pub fn refresh_interval_secs(check_interval_ms: i64) -> (r: u64)
    ensures
        r == (if check_interval_ms / 1000 < 60 { 60 } else if check_interval_ms / 1000 > 86_400 { 86_400 } else {
            check_interval_ms / 1000 }),
{
    let s = check_interval_ms / 1000;
    if s < 60 {
        60
    } else if s > 86_400 {
        86_400
    } else {
        s as u64
    }
}

/// One subscription handled in a refresh. `downloaded` is the list fetched
/// (`None`: the download failed). A fetched list becomes a new matcher; a
/// failed one keeps the subscription's old matcher, taken out of `prev`, if it
/// had one. Whatever results is appended to `next`. Gives back the number of
/// entries understood when the list was fetched.
pub fn refresh_one(prev: &mut Vec<SubMatcher>, next: &mut Vec<SubMatcher>, sub: &SubConfig,
    downloaded: Option<&Vec<String>>) -> (r: Option<i64>)
    requires
        downloaded matches Some(c) ==> c@.len() <= i64::MAX,
    ensures
        match downloaded {
            Some(c) => {
                &&& final(prev)@ == old(prev)@
                &&& final(next)@.len() == old(next)@.len() + 1
                &&& final(next)@.drop_last() == old(next)@
                &&& final(next)@.last().rule_id@ == sub.rule_id@
                &&& final(next)@.last().rule_name@ == sub.rule_name@
                &&& final(next)@.last().matcher@ == built_map(deep_strings(c@))
                &&& r == Some(parsed_count(deep_strings(c@)) as i64)
            },
            None => {
                &&& r is None
                &&& (forall|i: int| 0 <= i < old(prev)@.len() ==> #[trigger] old(prev)@[i].rule_id@ != sub.rule_id@)
                    ==> final(prev)@ == old(prev)@ && final(next)@ == old(next)@
                &&& (exists|i: int| 0 <= i < old(prev)@.len() && #[trigger] old(prev)@[i].rule_id@ == sub.rule_id@)
                    ==> exists|i: int| {
                        &&& 0 <= i < old(prev)@.len()
                        &&& #[trigger] old(prev)@[i].rule_id@ == sub.rule_id@
                        &&& forall|k: int| 0 <= k < i ==> #[trigger] old(prev)@[k].rule_id@ != sub.rule_id@
                        &&& final(prev)@ == old(prev)@.remove(i)
                        &&& final(next)@ == old(next)@.push(old(prev)@[i])
                    }
            },
        },
{
    match downloaded {
        Some(cidrs) => {
            let (m, cnt) = build_sub_matcher(sub, cidrs);
            next.push(m);
            Some(cnt)
        },
        None => {
            match take_old(prev, sub.rule_id.as_str()) {
                Some(m) => {
                    next.push(m);
                },
                None => {},
            }
            None
        },
    }
}
} // verus!

//! Which rule modules a profile enables, and with what settings.
//!
//! The profile's `module` mapping is read as `ConfValue`s. Without a section,
//! the peer-id, client-name, anti-vampire and progress-cheat modules are on
//! (cheap and precise); the others are off until the profile turns them on.
//! (The rule lists and the fractional settings are read beside this logic.)

use vstd::prelude::*;
use std::collections::HashSet;
use crate::engine::auto_range_ban::AutoRangeBan;
use crate::engine::ip_blacklist::IpBlackList;
use crate::engine::ip_rule_list::SubConfig;
use crate::rules::idle::ProtectMode;
use crate::rules::module::AntiVampire;
use crate::rules::matcher::{Matcher, MatcherSpec, RuleSet, StringRule};
use crate::text::{chars_of, eq_chars, string_from_chars};
use crate::domain::ban::copy_string;

verus! {

broadcast use vstd::std_specs::hash::group_hash_axioms;

/// A configuration value as the modules read it (mappings keep their
/// string keys; values of other kinds are `Other`).
#[derive(Debug)]
pub enum ConfValue {
    Null,
    Bool(bool),
    Int(i64),
    Text(String),
    List(Vec<ConfValue>),
    Mapping(Vec<(String, ConfValue)>),
    Other,
}

/// The value of the first entry under `key`.
pub open spec fn lookup(entries: Seq<(String, ConfValue)>, key: Seq<char>) -> Option<ConfValue>
    decreases entries.len(),
{
    if entries.len() == 0 {
        None
    } else if entries[0].0@ == key {
        Some(entries[0].1)
    } else {
        lookup(entries.drop_first(), key)
    }
}

/// The value under `key` of a mapping.
pub open spec fn get_key(v: ConfValue, key: Seq<char>) -> Option<ConfValue> {
    match v {
        ConfValue::Mapping(m) => lookup(m@, key),
        _ => None,
    }
}

/// The field `key` of the section of module `m`.
pub open spec fn field_of(sections: Seq<(String, ConfValue)>, m: Seq<char>, key: Seq<char>) -> Option<ConfValue> {
    match lookup(sections, m) {
        Some(sec) => get_key(sec, key),
        None => None,
    }
}

/// A boolean field, or the default.
pub open spec fn bool_or(v: Option<ConfValue>, default: bool) -> bool {
    match v {
        Some(ConfValue::Bool(b)) => b,
        _ => default,
    }
}

/// An integer field, or the default.
pub open spec fn int_or(v: Option<ConfValue>, default: i64) -> i64 {
    match v {
        Some(ConfValue::Int(i)) => i,
        _ => default,
    }
}

/// Whether module `m` is on: its `enabled` field, or the default.
pub open spec fn enabled_spec(sections: Seq<(String, ConfValue)>, m: Seq<char>, default: bool) -> bool {
    bool_or(field_of(sections, m, "enabled"@), default)
}

/// The ban duration of module `m`: its positive `ban-duration`, or the global one.
pub open spec fn dur_spec(sections: Seq<(String, ConfValue)>, m: Seq<char>, global: i64) -> i64 {
    let d = int_or(field_of(sections, m, "ban-duration"@), 0);
    if d > 0 { d } else { global }
}

/// `x` held within `[lo, hi]`.
pub open spec fn clamp_spec(x: i64, lo: i64, hi: i64) -> i64 {
    if x < lo { lo } else if x > hi { hi } else { x }
}

/// The value under `key` in `entries` (first match).
pub fn lookup_exec<'a>(entries: &'a Vec<(String, ConfValue)>, key: &str) -> (r: Option<&'a ConfValue>)
    ensures
        match r {
            Some(v) => lookup(entries@, key@) == Some(*v),
            None => lookup(entries@, key@) is None,
        },
{
    let k = chars_of(key);
    let mut i: usize = 0;
    assert(entries@.subrange(0, entries@.len() as int) =~= entries@);
    while i < entries.len()
        invariant
            i <= entries@.len(),
            k@ == key@,
            lookup(entries@, key@) == lookup(entries@.subrange(i as int, entries@.len() as int), key@),
        decreases entries@.len() - i,
    {
        let ghost rest = entries@.subrange(i as int, entries@.len() as int);
        assert(rest.drop_first() =~= entries@.subrange(i + 1, entries@.len() as int));
        assert(rest[0] == entries@[i as int]);
        if eq_chars(&chars_of(entries[i].0.as_str()), &k) {
            return Some(&entries[i].1);
        }
        i += 1;
    }
    None
}

/// The field `key` of module `m`'s section.
pub fn field<'a>(sections: &'a Vec<(String, ConfValue)>, m: &str, key: &str) -> (r: Option<&'a ConfValue>)
    ensures
        match r {
            Some(v) => field_of(sections@, m@, key@) == Some(*v),
            None => field_of(sections@, m@, key@) is None,
        },
{
    match lookup_exec(sections, m) {
        Some(ConfValue::Mapping(entries)) => lookup_exec(entries, key),
        _ => None,
    }
}

/// A boolean field of a module, or the default.
pub fn field_bool(sections: &Vec<(String, ConfValue)>, m: &str, key: &str, default: bool) -> (r: bool)
    ensures
        r == bool_or(field_of(sections@, m@, key@), default),
{
    match field(sections, m, key) {
        Some(ConfValue::Bool(b)) => *b,
        _ => default,
    }
}

/// An integer field of a module, or the default.
pub fn field_i64(sections: &Vec<(String, ConfValue)>, m: &str, key: &str, default: i64) -> (r: i64)
    ensures
        r == int_or(field_of(sections@, m@, key@), default),
{
    match field(sections, m, key) {
        Some(ConfValue::Int(i)) => *i,
        _ => default,
    }
}

/// Whether a module is on.
pub fn enabled(sections: &Vec<(String, ConfValue)>, m: &str, default: bool) -> (r: bool)
    ensures
        r == enabled_spec(sections@, m@, default),
{
    field_bool(sections, m, "enabled", default)
}

/// The ban duration of a module.
pub fn dur(sections: &Vec<(String, ConfValue)>, m: &str, global: i64) -> (r: i64)
    ensures
        r == dur_spec(sections@, m@, global),
{
    let d = field_i64(sections, m, "ban-duration", 0);
    if d > 0 { d } else { global }
}

/// `x` held within `[lo, hi]`.
pub fn clamp(x: i64, lo: i64, hi: i64) -> (r: i64)
    requires
        lo <= hi,
    ensures
        r == clamp_spec(x, lo, hi),
{
    if x < lo { lo } else if x > hi { hi } else { x }
}

/// An integer value.
pub open spec fn is_int() -> spec_fn(ConfValue) -> bool {
    |x: ConfValue| x is Int
}

/// The integer of a value.
pub open spec fn int_of() -> spec_fn(ConfValue) -> i64 {
    |x: ConfValue| x->Int_0
}

/// A text value.
pub open spec fn is_text() -> spec_fn(ConfValue) -> bool {
    |x: ConfValue| x is Text
}

/// The text of a value.
pub open spec fn text_of() -> spec_fn(ConfValue) -> Seq<char> {
    |x: ConfValue| x->Text_0@
}

/// An entry whose value is `true`.
pub open spec fn is_on() -> spec_fn((String, ConfValue)) -> bool {
    |e: (String, ConfValue)| e.1 is Bool && e.1->Bool_0
}

/// The key of an entry.
pub open spec fn key_of() -> spec_fn((String, ConfValue)) -> Seq<char> {
    |e: (String, ConfValue)| e.0@
}

/// The integers of a list field (other elements skipped).
pub open spec fn int_list_spec(v: Option<ConfValue>) -> Seq<i64> {
    match v {
        Some(ConfValue::List(items)) => items@.filter(is_int()).map_values(int_of()),
        _ => Seq::empty(),
    }
}

/// The strings of a list field (other elements skipped).
pub open spec fn str_list_spec(v: Option<ConfValue>) -> Seq<Seq<char>> {
    match v {
        Some(ConfValue::List(items)) => items@.filter(is_text()).map_values(text_of()),
        _ => Seq::empty(),
    }
}

/// The integers of a list field.
pub fn int_list(sections: &Vec<(String, ConfValue)>, m: &str, key: &str) -> (r: Vec<i64>)
    ensures
        r@ == int_list_spec(field_of(sections@, m@, key@)),
{
    let mut out: Vec<i64> = Vec::new();
    match field(sections, m, key) {
        Some(ConfValue::List(items)) => {
            let ghost p = is_int();
            let ghost f = int_of();
            let mut i: usize = 0;
            while i < items.len()
                invariant
                    i <= items@.len(),
                    p == is_int(),
                    f == int_of(),
                    out@ == items@.subrange(0, i as int).filter(p).map_values(f),
                decreases items@.len() - i,
            {
                proof {
                    assert(items@.subrange(0, i as int + 1) =~= items@.subrange(0, i as int).push(items@[i as int]));
                    items@.subrange(0, i as int).lemma_filter_push(items@[i as int], p);
                }
                match &items[i] {
                    ConfValue::Int(x) => {
                        assert(p(items@[i as int]));
                        assert(f(items@[i as int]) == *x);
                        out.push(*x);
                        assert(out@ =~= items@.subrange(0, i as int + 1).filter(p).map_values(f));
                    },
                    _ => {
                        assert(!p(items@[i as int]));
                        assert(out@ =~= items@.subrange(0, i as int + 1).filter(p).map_values(f));
                    },
                }
                i += 1;
            }
            assert(items@.subrange(0, i as int) =~= items@);
        },
        _ => {},
    }
    out
}

/// The strings of a list field.
pub fn str_list(sections: &Vec<(String, ConfValue)>, m: &str, key: &str) -> (r: Vec<String>)
    ensures
        crate::text::deep_strings(r@) == str_list_spec(field_of(sections@, m@, key@)),
{
    let mut out: Vec<String> = Vec::new();
    match field(sections, m, key) {
        Some(ConfValue::List(items)) => {
            let ghost p = is_text();
            let ghost f = text_of();
            let mut i: usize = 0;
            while i < items.len()
                invariant
                    i <= items@.len(),
                    p == is_text(),
                    f == text_of(),
                    crate::text::deep_strings(out@) == items@.subrange(0, i as int).filter(p).map_values(f),
                decreases items@.len() - i,
            {
                proof {
                    assert(items@.subrange(0, i as int + 1) =~= items@.subrange(0, i as int).push(items@[i as int]));
                    items@.subrange(0, i as int).lemma_filter_push(items@[i as int], p);
                }
                match &items[i] {
                    ConfValue::Text(s) => {
                        assert(p(items@[i as int]));
                        assert(f(items@[i as int]) == s@);
                        let c = copy_string(s);
                        proof { crate::text::lemma_deep_strings_push(out@, c); }
                        out.push(c);
                        assert(crate::text::deep_strings(out@) =~= items@.subrange(0, i as int + 1).filter(p).map_values(f));
                    },
                    _ => {
                        assert(!p(items@[i as int]));
                        assert(crate::text::deep_strings(out@) =~= items@.subrange(0, i as int + 1).filter(p).map_values(f));
                    },
                }
                i += 1;
            }
            assert(items@.subrange(0, i as int) =~= items@);
        },
        _ => {},
    }
    out
}

/// The names under `net-type` whose value is `true`.
pub open spec fn net_types_spec(v: Option<ConfValue>) -> Seq<Seq<char>> {
    match v {
        Some(ConfValue::Mapping(entries)) => entries@.filter(is_on()).map_values(key_of()),
        _ => Seq::empty(),
    }
}

/// The Chinese network types switched on under `net-type`.
pub fn enabled_net_types(sections: &Vec<(String, ConfValue)>, m: &str) -> (r: Vec<String>)
    ensures
        crate::text::deep_strings(r@) == net_types_spec(field_of(sections@, m@, "net-type"@)),
{
    let mut out: Vec<String> = Vec::new();
    match field(sections, m, "net-type") {
        Some(ConfValue::Mapping(entries)) => {
            let ghost p = is_on();
            let ghost f = key_of();
            let mut i: usize = 0;
            while i < entries.len()
                invariant
                    i <= entries@.len(),
                    p == is_on(),
                    f == key_of(),
                    crate::text::deep_strings(out@) == entries@.subrange(0, i as int).filter(p).map_values(f),
                decreases entries@.len() - i,
            {
                proof {
                    assert(entries@.subrange(0, i as int + 1) =~= entries@.subrange(0, i as int).push(entries@[i as int]));
                    entries@.subrange(0, i as int).lemma_filter_push(entries@[i as int], p);
                }
                let on = match &entries[i].1 {
                    ConfValue::Bool(b) => *b,
                    _ => false,
                };
                assert(p(entries@[i as int]) == on);
                assert(f(entries@[i as int]) == entries@[i as int].0@);
                if on {
                    let c = copy_string(&entries[i].0);
                    proof { crate::text::lemma_deep_strings_push(out@, c); }
                    out.push(c);
                }
                assert(crate::text::deep_strings(out@) =~= entries@.subrange(0, i as int + 1).filter(p).map_values(f));
                i += 1;
            }
            assert(entries@.subrange(0, i as int) =~= entries@);
        },
        _ => {},
    }
    out
}

/// The subscription of one entry of `rules`: its URL (entries without one
/// are skipped), its name (the id by default) and whether it is on (by default yes).
pub open spec fn sub_of(id: Seq<char>, v: ConfValue) -> Option<(Seq<char>, Seq<char>, Seq<char>, bool)> {
    let url = match get_key(v, "url"@) { Some(ConfValue::Text(u)) => u@, _ => Seq::<char>::empty() };
    let name = match get_key(v, "name"@) { Some(ConfValue::Text(n)) => n@, _ => id };
    if url.len() == 0 {
        None
    } else {
        Some((id, name, url, bool_or(get_key(v, "enabled"@), true)))
    }
}

/// The subscriptions listed under `rules`, in order.
pub open spec fn subs_spec(entries: Seq<(String, ConfValue)>) -> Seq<(Seq<char>, Seq<char>, Seq<char>, bool)>
    decreases entries.len(),
{
    if entries.len() == 0 {
        Seq::empty()
    } else {
        let prev = subs_spec(entries.drop_last());
        match sub_of(entries.last().0@, entries.last().1) {
            Some(s) => prev.push(s),
            None => prev,
        }
    }
}

/// A subscription as a mathematical value.
pub open spec fn sub_view(s: SubConfig) -> (Seq<char>, Seq<char>, Seq<char>, bool) {
    (s.rule_id@, s.rule_name@, s.url@, s.enabled)
}

/// The subscriptions of module `m`.
pub fn parse_subs(sections: &Vec<(String, ConfValue)>, m: &str) -> (r: Vec<SubConfig>)
    ensures
        r@.map_values(|s: SubConfig| sub_view(s)) == (match field_of(sections@, m@, "rules"@) {
            Some(ConfValue::Mapping(entries)) => subs_spec(entries@),
            _ => Seq::empty(),
        }),
{
    let mut out: Vec<SubConfig> = Vec::new();
    match field(sections, m, "rules") {
        Some(ConfValue::Mapping(entries)) => {
            let mut i: usize = 0;
            while i < entries.len()
                invariant
                    i <= entries@.len(),
                    out@.map_values(|s: SubConfig| sub_view(s)) == subs_spec(entries@.subrange(0, i as int)),
                decreases entries@.len() - i,
            {
                let ghost pre = entries@.subrange(0, i as int);
                let ghost post = entries@.subrange(0, i as int + 1);
                assert(post.drop_last() =~= pre);
                let id = &entries[i].0;
                let v = &entries[i].1;
                let url: String = match v {
                    ConfValue::Mapping(kv) => match lookup_exec(kv, "url") {
                        Some(ConfValue::Text(u)) => copy_string(u),
                        _ => String::new(),
                    },
                    _ => String::new(),
                };
                if !url.as_str().is_empty() {
                    let name: String = match v {
                        ConfValue::Mapping(kv) => match lookup_exec(kv, "name") {
                            Some(ConfValue::Text(n)) => copy_string(n),
                            _ => copy_string(id),
                        },
                        _ => copy_string(id),
                    };
                    let on: bool = match v {
                        ConfValue::Mapping(kv) => match lookup_exec(kv, "enabled") {
                            Some(ConfValue::Bool(b)) => *b,
                            _ => true,
                        },
                        _ => true,
                    };
                    let s = SubConfig { rule_id: copy_string(id), rule_name: name, url, enabled: on };
                    let ghost before = out@;
                    out.push(s);
                    assert(out@.map_values(|s: SubConfig| sub_view(s)) =~= before.map_values(|s: SubConfig| sub_view(s)).push(sub_view(s)));
                } else {
                }
                i += 1;
            }
            assert(entries@.subrange(0, i as int) =~= entries@);
        },
        _ => {},
    }
    out
}

/// The settings of the multi-dialing blocker.
#[derive(Debug, Clone, Copy, PartialEq, Eq, Structural)]
pub struct MultiDialParams {
    pub ipv4_prefix: u8,
    pub ipv6_prefix: u8,
    pub tolerate_v4: usize,
    pub tolerate_v6: usize,
    pub cache_lifespan_secs: u64,
    pub keep_hunting: bool,
    pub keep_hunting_secs: u64,
    pub ban_duration: i64,
}

/// The whole-number settings of the idle-connection protection (the
/// fractional progress step is read beside them).
#[derive(Debug, Clone, Copy, PartialEq, Eq, Structural)]
pub struct IdleParams {
    pub ban_duration: i64,
    pub max_allowed_idle_ms: i64,
    pub idle_speed_threshold: i64,
    pub reset_on_status_change: bool,
    pub mode: ProtectMode,
}

/// The whole-number settings of the progress-cheat blocker (the fractional
/// thresholds are read beside them).
#[derive(Debug, Clone, Copy, PartialEq, Eq, Structural)]
pub struct PcbParams {
    pub minimum_size: i64,
    pub block_excessive: bool,
    pub ipv4_prefix: u8,
    pub ipv6_prefix: u8,
    pub ban_duration: i64,
    pub max_wait_duration: i64,
    pub fast_pcb_test_block_duration: i64,
    pub enable_persist: bool,
    pub persist_duration: i64,
}

/// One enabled module and its settings. The string-rule modules get their
/// rule lists beside this plan.
pub enum ModulePlan {
    PeerIdBlacklist { ban_duration: i64 },
    ClientNameBlacklist { ban_duration: i64 },
    AntiVampire(AntiVampire),
    AutoRangeBan(AutoRangeBan),
    MultiDialing(MultiDialParams),
    IdleDos(IdleParams),
    ProgressCheat(PcbParams),
    IpBlackList(IpBlackList),
    IpRuleList { ban_duration: i64, subs: Vec<SubConfig>, check_interval: i64 },
    PtrBlacklist { ban_duration: i64, cache_ttl_secs: u64 },
}

/// The kind of a plan.
#[derive(Debug, Clone, Copy, PartialEq, Eq, Structural)]
pub enum PlanKind {
    PeerId,
    ClientName,
    AntiVampire,
    AutoRange,
    MultiDialing,
    IdleDos,
    ProgressCheat,
    IpBlackList,
    IpRuleList,
    Ptr,
}

/// The kind of a plan.
pub open spec fn kind_of(p: ModulePlan) -> PlanKind {
    match p {
        ModulePlan::PeerIdBlacklist { .. } => PlanKind::PeerId,
        ModulePlan::ClientNameBlacklist { .. } => PlanKind::ClientName,
        ModulePlan::AntiVampire(_) => PlanKind::AntiVampire,
        ModulePlan::AutoRangeBan(_) => PlanKind::AutoRange,
        ModulePlan::MultiDialing(_) => PlanKind::MultiDialing,
        ModulePlan::IdleDos(_) => PlanKind::IdleDos,
        ModulePlan::ProgressCheat(_) => PlanKind::ProgressCheat,
        ModulePlan::IpBlackList(_) => PlanKind::IpBlackList,
        ModulePlan::IpRuleList { .. } => PlanKind::IpRuleList,
        ModulePlan::PtrBlacklist { .. } => PlanKind::Ptr,
    }
}

/// The `i`-th module kind in the fixed order.
pub open spec fn kind_at_spec(i: int) -> PlanKind {
    if i == 0 { PlanKind::PeerId }
    else if i == 1 { PlanKind::ClientName }
    else if i == 2 { PlanKind::AntiVampire }
    else if i == 3 { PlanKind::AutoRange }
    else if i == 4 { PlanKind::MultiDialing }
    else if i == 5 { PlanKind::IdleDos }
    else if i == 6 { PlanKind::ProgressCheat }
    else if i == 7 { PlanKind::IpBlackList }
    else if i == 8 { PlanKind::IpRuleList }
    else { PlanKind::Ptr }
}

/// The profile name of the `i`-th module.
pub open spec fn name_at_spec(i: int) -> Seq<char> {
    if i == 0 { "peer-id-blacklist"@ }
    else if i == 1 { "client-name-blacklist"@ }
    else if i == 2 { "anti-vampire"@ }
    else if i == 3 { "auto-range-ban"@ }
    else if i == 4 { "multi-dialing-blocker"@ }
    else if i == 5 { "idle-connection-dos-protection"@ }
    else if i == 6 { "progress-cheat-blocker"@ }
    else if i == 7 { "ip-address-blocker"@ }
    else if i == 8 { "ip-address-blocker-rules"@ }
    else { "ptr-blacklist"@ }
}

/// Whether the `i`-th module is on without a section: the peer-id,
/// client-name, anti-vampire and progress-cheat modules.
pub open spec fn default_at_spec(i: int) -> bool {
    i == 0 || i == 1 || i == 2 || i == 6
}

/// The enabled kinds among the first `i` modules, in order.
pub open spec fn kinds_upto(s: Seq<(String, ConfValue)>, i: nat) -> Seq<PlanKind>
    decreases i,
{
    if i == 0 {
        Seq::empty()
    } else {
        let prev = kinds_upto(s, (i - 1) as nat);
        if enabled_spec(s, name_at_spec(i - 1), default_at_spec(i - 1)) {
            prev.push(kind_at_spec(i - 1))
        } else {
            prev
        }
    }
}

/// The enabled modules, in their fixed order.
pub open spec fn plan_kinds(s: Seq<(String, ConfValue)>) -> Seq<PlanKind> {
    kinds_upto(s, 10)
}

/// An integer field of a module, or the default.
pub open spec fn fi(s: Seq<(String, ConfValue)>, m: Seq<char>, key: Seq<char>, d: i64) -> i64 {
    int_or(field_of(s, m, key), d)
}

/// A boolean field of a module, or the default.
pub open spec fn fb(s: Seq<(String, ConfValue)>, m: Seq<char>, key: Seq<char>, d: bool) -> bool {
    bool_or(field_of(s, m, key), d)
}

/// `x`, at least `lo`.
pub open spec fn at_least(x: i64, lo: i64) -> i64 {
    if x < lo { lo } else { x }
}

/// Whether the anti-vampire's Xunlei preset is on (`presets.xunlei.enabled`, by default yes).
pub open spec fn xunlei_spec(s: Seq<(String, ConfValue)>) -> bool {
    let presets = field_of(s, "anti-vampire"@, "presets"@);
    let x = match presets { Some(p) => get_key(p, "xunlei"@), None => None };
    bool_or(match x { Some(v) => get_key(v, "enabled"@), None => None }, true)
}

/// The settings of a plan are those the profile gives.
pub open spec fn plan_ok(p: ModulePlan, s: Seq<(String, ConfValue)>, g: i64) -> bool {
    match p {
        ModulePlan::PeerIdBlacklist { ban_duration } => ban_duration == dur_spec(s, "peer-id-blacklist"@, g),
        ModulePlan::ClientNameBlacklist { ban_duration } => ban_duration == dur_spec(s, "client-name-blacklist"@, g),
        ModulePlan::AntiVampire(a) => a.ban_duration == dur_spec(s, "anti-vampire"@, g) && a.xunlei_enabled == xunlei_spec(s),
        ModulePlan::AutoRangeBan(a) => {
            let m = "auto-range-ban"@;
            &&& a.ipv4_prefix == clamp_spec(fi(s, m, "ipv4"@, 30), 0, 32)
            &&& a.ipv6_prefix == clamp_spec(fi(s, m, "ipv6"@, 48), 0, 128)
            &&& a.ban_duration == dur_spec(s, m, g)
        },
        ModulePlan::MultiDialing(p) => {
            let m = "multi-dialing-blocker"@;
            &&& p.ipv4_prefix == clamp_spec(fi(s, m, "subnet-mask-length"@, 24), 0, 32)
            &&& p.ipv6_prefix == clamp_spec(fi(s, m, "subnet-mask-v6-length"@, 56), 0, 128)
            &&& p.tolerate_v4 == at_least(fi(s, m, "tolerate-num-ipv4"@, 2), 1) as usize
            &&& p.tolerate_v6 == at_least(fi(s, m, "tolerate-num-ipv6"@, 5), 1) as usize
            &&& p.cache_lifespan_secs == at_least(fi(s, m, "cache-lifespan"@, 86_400), 1) as u64
            &&& p.keep_hunting == fb(s, m, "keep-hunting"@, false)
            &&& p.keep_hunting_secs == at_least(fi(s, m, "keep-hunting-time"@, 2_592_000), 1) as u64
            &&& p.ban_duration == dur_spec(s, m, g)
        },
        ModulePlan::IdleDos(p) => {
            let m = "idle-connection-dos-protection"@;
            &&& p.ban_duration == dur_spec(s, m, g)
            &&& p.max_allowed_idle_ms == at_least(fi(s, m, "max-allowed-idle-time"@, 300_000), 0)
            &&& p.idle_speed_threshold == at_least(fi(s, m, "idle-speed-threshold"@, 64), 0)
            &&& p.reset_on_status_change == fb(s, m, "reset-on-status-change"@, true)
            &&& p.mode == (if clamp_spec(fi(s, m, "protect-mode"@, 0), 0, 2) == 1 {
                ProtectMode::SeedingOnly
            } else if clamp_spec(fi(s, m, "protect-mode"@, 0), 0, 2) == 2 {
                ProtectMode::Always
            } else {
                ProtectMode::ByPeerFlags
            })
        },
        ModulePlan::ProgressCheat(p) => {
            let m = "progress-cheat-blocker"@;
            &&& p.minimum_size == fi(s, m, "minimum-size"@, 50_000_000)
            &&& p.block_excessive == fb(s, m, "block-excessive-clients"@, true)
            &&& p.ipv4_prefix == clamp_spec(fi(s, m, "ipv4-prefix-length"@, 32), 0, 32)
            &&& p.ipv6_prefix == clamp_spec(fi(s, m, "ipv6-prefix-length"@, 56), 0, 128)
            &&& p.ban_duration == fi(s, m, "ban-duration"@, 2_592_000_000)
            &&& p.max_wait_duration == fi(s, m, "max-wait-duration"@, 30_000)
            &&& p.fast_pcb_test_block_duration == fi(s, m, "fast-pcb-test-block-duration"@, 15_000)
            &&& p.enable_persist == fb(s, m, "enable-persist"@, true)
            &&& p.persist_duration == fi(s, m, "persist-duration"@, 1_209_600_000)
        },
        ModulePlan::IpBlackList(b) => {
            let m = "ip-address-blocker"@;
            let ints_p = int_list_spec(field_of(s, m, "ports"@));
            let ints_a = int_list_spec(field_of(s, m, "asns"@));
            let ips = str_list_spec(field_of(s, m, "ips"@));
            &&& b.ban_duration == dur_spec(s, m, g)
            &&& b.ips@.dom() == Set::new(|n: crate::ip::Network| exists|i: int|
                0 <= i < ips.len() && #[trigger] crate::ip::network_or_host(ips[i]) == Some(n))
            &&& b.ports@ == Set::new(|p: u16| ints_p.contains(p as i64))
            &&& b.asns@ == Set::new(|a: u32| ints_a.contains(a as i64))
            &&& crate::text::deep_strings(b.regions@) == str_list_spec(field_of(s, m, "regions"@))
            &&& crate::text::deep_strings(b.cities@) == str_list_spec(field_of(s, m, "cities"@))
            &&& crate::text::deep_strings(b.net_types@) == net_types_spec(field_of(s, m, "net-type"@))
        },
        ModulePlan::IpRuleList { ban_duration, subs, check_interval } => {
            let m = "ip-address-blocker-rules"@;
            &&& ban_duration == dur_spec(s, m, g)
            &&& check_interval == fi(s, m, "check-interval"@, 1_800_000)
            &&& subs@.map_values(|x: SubConfig| sub_view(x)) == (match field_of(s, m, "rules"@) {
                Some(ConfValue::Mapping(entries)) => subs_spec(entries@),
                _ => Seq::empty(),
            })
        },
        ModulePlan::PtrBlacklist { ban_duration, cache_ttl_secs } => {
            let m = "ptr-blacklist"@;
            &&& ban_duration == dur_spec(s, m, g)
            &&& cache_ttl_secs == at_least(fi(s, m, "cache-ttl"@, 3600), 60) as u64
        },
    }
}

/// The ports of a list of integers (those that fit in 16 bits).
fn ports_of(ints: &Vec<i64>) -> (r: HashSet<u16>)
    ensures
        r@ == Set::new(|p: u16| ints@.contains(p as i64)),
{
    let mut set: HashSet<u16> = HashSet::new();
    let mut i: usize = 0;
    while i < ints.len()
        invariant
            i <= ints@.len(),
            set@ == Set::new(|p: u16| ints@.subrange(0, i as int).contains(p as i64)),
        decreases ints@.len() - i,
    {
        let v = ints[i];
        let ghost before = set@;
        if 0 <= v && v <= 65535 {
            set.insert(v as u16);
        }
        proof {
            let pre = ints@.subrange(0, i as int);
            let post = ints@.subrange(0, i as int + 1);
            assert(post =~= pre.push(v));
            assert forall|p: u16| set@.contains(p) == post.contains(p as i64) by {
                assert(before.contains(p) == pre.contains(p as i64));
                if 0 <= v && v <= 65535 && p == v as u16 {
                    assert(p as i64 == v);
                    assert(post[pre.len() as int] == v);
                }
                if post.contains(p as i64) && !pre.contains(p as i64) {
                    let k = choose|k: int| 0 <= k < post.len() && #[trigger] post[k] == p as i64;
                    assert(k == pre.len());
                    assert(v == p as i64);
                }
                if pre.contains(p as i64) {
                    let k = choose|k: int| 0 <= k < pre.len() && #[trigger] pre[k] == p as i64;
                    assert(post[k] == p as i64);
                }
                if post.contains(p as i64) {
                    let k = choose|k: int| 0 <= k < post.len() && #[trigger] post[k] == p as i64;
                    if k < pre.len() {
                        assert(pre[k] == p as i64);
                    }
                }
            }
            assert(set@ =~= Set::new(|p: u16| post.contains(p as i64)));
        }
        i += 1;
    }
    assert(ints@.subrange(0, i as int) =~= ints@);
    set
}

/// The AS numbers of a list of integers (those that fit in 32 bits).
fn asns_of(ints: &Vec<i64>) -> (r: HashSet<u32>)
    ensures
        r@ == Set::new(|a: u32| ints@.contains(a as i64)),
{
    let mut set: HashSet<u32> = HashSet::new();
    let mut i: usize = 0;
    while i < ints.len()
        invariant
            i <= ints@.len(),
            set@ == Set::new(|a: u32| ints@.subrange(0, i as int).contains(a as i64)),
        decreases ints@.len() - i,
    {
        let v = ints[i];
        let ghost before = set@;
        if 0 <= v && v <= 0xffff_ffff {
            set.insert(v as u32);
        }
        proof {
            let pre = ints@.subrange(0, i as int);
            let post = ints@.subrange(0, i as int + 1);
            assert(post =~= pre.push(v));
            assert forall|a: u32| set@.contains(a) == post.contains(a as i64) by {
                assert(before.contains(a) == pre.contains(a as i64));
                if 0 <= v && v <= 0xffff_ffff && a == v as u32 {
                    assert(a as i64 == v);
                    assert(post[pre.len() as int] == v);
                }
                if post.contains(a as i64) && !pre.contains(a as i64) {
                    let k = choose|k: int| 0 <= k < post.len() && #[trigger] post[k] == a as i64;
                    assert(k == pre.len());
                    assert(v == a as i64);
                }
                if pre.contains(a as i64) {
                    let k = choose|k: int| 0 <= k < pre.len() && #[trigger] pre[k] == a as i64;
                    assert(post[k] == a as i64);
                }
                if post.contains(a as i64) {
                    let k = choose|k: int| 0 <= k < post.len() && #[trigger] post[k] == a as i64;
                    if k < pre.len() {
                        assert(pre[k] == a as i64);
                    }
                }
            }
            assert(set@ =~= Set::new(|a: u32| post.contains(a as i64)));
        }
        i += 1;
    }
    assert(ints@.subrange(0, i as int) =~= ints@);
    set
}

/// Whether the anti-vampire's Xunlei preset is on.
fn xunlei_enabled(sections: &Vec<(String, ConfValue)>) -> (r: bool)
    ensures
        r == xunlei_spec(sections@),
{
    let presets = field(sections, "anti-vampire", "presets");
    let x = match presets {
        Some(ConfValue::Mapping(kv)) => lookup_exec(kv, "xunlei"),
        _ => None,
    };
    let e = match x {
        Some(ConfValue::Mapping(kv)) => lookup_exec(kv, "enabled"),
        _ => None,
    };
    match e {
        Some(ConfValue::Bool(b)) => *b,
        _ => true,
    }
}

/// The address blacklist a profile configures.
fn ip_blacklist_plan(sections: &Vec<(String, ConfValue)>, global: i64) -> (b: IpBlackList)
    ensures
        plan_ok(ModulePlan::IpBlackList(b), sections@, global),
{
    let ghost s = sections@;
    let m = "ip-address-blocker";
    let ips = str_list(sections, m, "ips");
    let ports = ports_of(&int_list(sections, m, "ports"));
    let asns = asns_of(&int_list(sections, m, "asns"));
    let b = IpBlackList::new(
        dur(sections, m, global),
        &ips,
        ports,
        asns,
        str_list(sections, m, "regions"),
        str_list(sections, m, "cities"),
        enabled_net_types(sections, m),
    );
    proof {
        let spec_ips = str_list_spec(field_of(s, m@, "ips"@));
        assert(crate::text::deep_strings(ips@) == spec_ips);
        assert forall|k: int| 0 <= k < ips@.len() implies ips@[k]@ == spec_ips[k] by {
            assert(crate::text::deep_strings(ips@)[k] == ips@[k]@);
        }
        assert forall|n: crate::ip::Network| b.ips@.dom().contains(n) == (exists|i: int|
            0 <= i < spec_ips.len() && #[trigger] crate::ip::network_or_host(spec_ips[i]) == Some(n)) by {
            if b.ips@.dom().contains(n) {
                let i = choose|i: int| 0 <= i < ips@.len() && #[trigger] crate::ip::network_or_host(ips@[i]@) == Some(n);
                assert(crate::ip::network_or_host(spec_ips[i]) == Some(n));
            }
            if exists|i: int| 0 <= i < spec_ips.len() && #[trigger] crate::ip::network_or_host(spec_ips[i]) == Some(n) {
                let i = choose|i: int| 0 <= i < spec_ips.len() && #[trigger] crate::ip::network_or_host(spec_ips[i]) == Some(n);
                assert(crate::ip::network_or_host(ips@[i]@) == Some(n));
            }
        }
        assert(b.ips@.dom() =~= Set::new(|n: crate::ip::Network| exists|i: int|
            0 <= i < spec_ips.len() && #[trigger] crate::ip::network_or_host(spec_ips[i]) == Some(n)));
    }
    b
}

/// Appends `p` to the plans when `on`, keeping the kinds in step.
fn push_plan(out: &mut Vec<ModulePlan>, p: ModulePlan)
    ensures
        final(out)@ == old(out)@.push(p),
{
    out.push(p);
}

/// The plan of the module of kind `k`, as the profile sets it.
fn plan_for(sections: &Vec<(String, ConfValue)>, global: i64, k: PlanKind) -> (p: ModulePlan)
    ensures
        kind_of(p) == k,
        plan_ok(p, sections@, global),
{
    match k {
        PlanKind::PeerId => ModulePlan::PeerIdBlacklist { ban_duration: dur(sections, "peer-id-blacklist", global) },
        PlanKind::ClientName => ModulePlan::ClientNameBlacklist {
            ban_duration: dur(sections, "client-name-blacklist", global),
        },
        PlanKind::AntiVampire => ModulePlan::AntiVampire(
            AntiVampire::new(dur(sections, "anti-vampire", global), xunlei_enabled(sections)),
        ),
        PlanKind::AutoRange => {
            let m = "auto-range-ban";
            let v4 = clamp(field_i64(sections, m, "ipv4", 30), 0, 32) as u8;
            let v6 = clamp(field_i64(sections, m, "ipv6", 48), 0, 128) as u8;
            ModulePlan::AutoRangeBan(AutoRangeBan::new(v4, v6, dur(sections, m, global)))
        },
        PlanKind::MultiDialing => ModulePlan::MultiDialing(multi_dial_plan(sections, global)),
        PlanKind::IdleDos => {
            let m = "idle-connection-dos-protection";
            let idle = field_i64(sections, m, "max-allowed-idle-time", 300_000);
            let speed = field_i64(sections, m, "idle-speed-threshold", 64);
            ModulePlan::IdleDos(IdleParams {
                ban_duration: dur(sections, m, global),
                max_allowed_idle_ms: if idle < 0 { 0 } else { idle },
                idle_speed_threshold: if speed < 0 { 0 } else { speed },
                reset_on_status_change: field_bool(sections, m, "reset-on-status-change", true),
                mode: ProtectMode::from_u8(clamp(field_i64(sections, m, "protect-mode", 0), 0, 2) as u8),
            })
        },
        PlanKind::ProgressCheat => ModulePlan::ProgressCheat(pcb_plan(sections)),
        PlanKind::IpBlackList => ModulePlan::IpBlackList(ip_blacklist_plan(sections, global)),
        PlanKind::IpRuleList => {
            let m = "ip-address-blocker-rules";
            ModulePlan::IpRuleList {
                ban_duration: dur(sections, m, global),
                subs: parse_subs(sections, m),
                check_interval: field_i64(sections, m, "check-interval", 1_800_000),
            }
        },
        PlanKind::Ptr => {
            let m = "ptr-blacklist";
            let ttl = field_i64(sections, m, "cache-ttl", 3600);
            ModulePlan::PtrBlacklist {
                ban_duration: dur(sections, m, global),
                cache_ttl_secs: (if ttl < 60 { 60 } else { ttl }) as u64,
            }
        },
    }
}

/// The multi-dialing settings of a profile.
fn multi_dial_plan(sections: &Vec<(String, ConfValue)>, global: i64) -> (p: MultiDialParams)
    ensures
        plan_ok(ModulePlan::MultiDialing(p), sections@, global),
{
    let m = "multi-dialing-blocker";
    let t4 = field_i64(sections, m, "tolerate-num-ipv4", 2);
    let t6 = field_i64(sections, m, "tolerate-num-ipv6", 5);
    let life = field_i64(sections, m, "cache-lifespan", 86_400);
    let hunt = field_i64(sections, m, "keep-hunting-time", 2_592_000);
    MultiDialParams {
        ipv4_prefix: clamp(field_i64(sections, m, "subnet-mask-length", 24), 0, 32) as u8,
        ipv6_prefix: clamp(field_i64(sections, m, "subnet-mask-v6-length", 56), 0, 128) as u8,
        tolerate_v4: (if t4 < 1 { 1 } else { t4 }) as usize,
        tolerate_v6: (if t6 < 1 { 1 } else { t6 }) as usize,
        cache_lifespan_secs: (if life < 1 { 1 } else { life }) as u64,
        keep_hunting: field_bool(sections, m, "keep-hunting", false),
        keep_hunting_secs: (if hunt < 1 { 1 } else { hunt }) as u64,
        ban_duration: dur(sections, m, global),
    }
}

/// The whole-number progress-cheat settings of a profile.
fn pcb_plan(sections: &Vec<(String, ConfValue)>) -> (p: PcbParams)
    ensures
        forall|g: i64| plan_ok(ModulePlan::ProgressCheat(p), sections@, g),
{
    let m = "progress-cheat-blocker";
    PcbParams {
        minimum_size: field_i64(sections, m, "minimum-size", 50_000_000),
        block_excessive: field_bool(sections, m, "block-excessive-clients", true),
        ipv4_prefix: clamp(field_i64(sections, m, "ipv4-prefix-length", 32), 0, 32) as u8,
        ipv6_prefix: clamp(field_i64(sections, m, "ipv6-prefix-length", 56), 0, 128) as u8,
        ban_duration: field_i64(sections, m, "ban-duration", 2_592_000_000),
        max_wait_duration: field_i64(sections, m, "max-wait-duration", 30_000),
        fast_pcb_test_block_duration: field_i64(sections, m, "fast-pcb-test-block-duration", 15_000),
        enable_persist: field_bool(sections, m, "enable-persist", true),
        persist_duration: field_i64(sections, m, "persist-duration", 1_209_600_000),
    }
}

/// The `i`-th module kind, with its profile name and default.
fn kind_at(i: usize) -> (r: (PlanKind, &'static str, bool))
    requires
        i < 10,
    ensures
        r.0 == kind_at_spec(i as int),
        r.1@ == name_at_spec(i as int),
        r.2 == default_at_spec(i as int),
{
    match i {
        0 => (PlanKind::PeerId, "peer-id-blacklist", true),
        1 => (PlanKind::ClientName, "client-name-blacklist", true),
        2 => (PlanKind::AntiVampire, "anti-vampire", true),
        3 => (PlanKind::AutoRange, "auto-range-ban", false),
        4 => (PlanKind::MultiDialing, "multi-dialing-blocker", false),
        5 => (PlanKind::IdleDos, "idle-connection-dos-protection", false),
        6 => (PlanKind::ProgressCheat, "progress-cheat-blocker", true),
        7 => (PlanKind::IpBlackList, "ip-address-blocker", false),
        8 => (PlanKind::IpRuleList, "ip-address-blocker-rules", false),
        _ => (PlanKind::Ptr, "ptr-blacklist", false),
    }
}

/// The plans of the modules a profile enables, in their fixed order, each
/// with the settings the profile gives (or their defaults); `global` is the
/// default ban duration.
pub fn module_plans(sections: &Vec<(String, ConfValue)>, global: i64) -> (r: Vec<ModulePlan>)
    ensures
        r@.map_values(|p: ModulePlan| kind_of(p)) == plan_kinds(sections@),
        forall|i: int| 0 <= i < r@.len() ==> plan_ok(#[trigger] r@[i], sections@, global),
{
    let mut out: Vec<ModulePlan> = Vec::new();
    let mut i: usize = 0;
    while i < 10
        invariant
            i <= 10,
            out@.map_values(|p: ModulePlan| kind_of(p)) == kinds_upto(sections@, i as nat),
            forall|k: int| 0 <= k < out@.len() ==> plan_ok(#[trigger] out@[k], sections@, global),
        decreases 10 - i,
    {
        let (kind, name, default) = kind_at(i);
        if enabled(sections, name, default) {
            let p = plan_for(sections, global, kind);
            let ghost before = out@;
            out.push(p);
            assert(out@.map_values(|p: ModulePlan| kind_of(p)) =~= before.map_values(|p: ModulePlan| kind_of(p)).push(kind));
        }
        i += 1;
    }
    out
}


/// A rule whose hit means "match".
fn hit(m: Matcher) -> (r: StringRule)
    ensures
        r.matcher == m,
        r.hit_is_true,
{
    StringRule::new(m)
}

/// The built-in peer-id rules (used when the profile lists none): the
/// common offline-download and leeching clients.
pub fn default_peer_id_rules() -> (r: RuleSet)
    ensures
        r.rules@.map_values(|x: StringRule| x.matcher.spec_of()) == seq![
            MatcherSpec::StartsWith("-XL"@),
            MatcherSpec::StartsWith("-SD"@),
            MatcherSpec::StartsWith("-XF"@),
            MatcherSpec::StartsWith("-QD"@),
            MatcherSpec::StartsWith("-BN"@),
            MatcherSpec::StartsWith("-DL"@),
            MatcherSpec::StartsWith("-dt"@),
            MatcherSpec::Contains("cacao"@),
        ],
        forall|i: int| 0 <= i < r.rules@.len() ==> (#[trigger] r.rules@[i]).hit_is_true,
{
    let v = vec![
        hit(Matcher::StartsWith("-XL".to_owned())),
        hit(Matcher::StartsWith("-SD".to_owned())),
        hit(Matcher::StartsWith("-XF".to_owned())),
        hit(Matcher::StartsWith("-QD".to_owned())),
        hit(Matcher::StartsWith("-BN".to_owned())),
        hit(Matcher::StartsWith("-DL".to_owned())),
        hit(Matcher::StartsWith("-dt".to_owned())),
        hit(Matcher::Contains("cacao".to_owned())),
    ];
    let r = RuleSet::new(v);
    assert(r.rules@.map_values(|x: StringRule| x.matcher.spec_of()) =~= seq![
        MatcherSpec::StartsWith("-XL"@),
        MatcherSpec::StartsWith("-SD"@),
        MatcherSpec::StartsWith("-XF"@),
        MatcherSpec::StartsWith("-QD"@),
        MatcherSpec::StartsWith("-BN"@),
        MatcherSpec::StartsWith("-DL"@),
        MatcherSpec::StartsWith("-dt"@),
        MatcherSpec::Contains("cacao"@),
    ]);
    r
}

/// The built-in client-name rules (used when the profile lists none).
pub fn default_client_name_rules() -> (r: RuleSet)
    ensures
        r.rules@.map_values(|x: StringRule| x.matcher.spec_of()) == seq![
            MatcherSpec::Contains("Xunlei"@),
            MatcherSpec::Contains("XL0012"@),
            MatcherSpec::Contains("QQDownload"@),
            MatcherSpec::Contains("anacrolix"@),
            MatcherSpec::StartsWith("TaiPei-Torrent"@),
            MatcherSpec::Contains("github.com/anacrolix/torrent"@),
        ],
        forall|i: int| 0 <= i < r.rules@.len() ==> (#[trigger] r.rules@[i]).hit_is_true,
{
    let v = vec![
        hit(Matcher::Contains("Xunlei".to_owned())),
        hit(Matcher::Contains("XL0012".to_owned())),
        hit(Matcher::Contains("QQDownload".to_owned())),
        hit(Matcher::Contains("anacrolix".to_owned())),
        hit(Matcher::StartsWith("TaiPei-Torrent".to_owned())),
        hit(Matcher::Contains("github.com/anacrolix/torrent".to_owned())),
    ];
    let r = RuleSet::new(v);
    assert(r.rules@.map_values(|x: StringRule| x.matcher.spec_of()) =~= seq![
        MatcherSpec::Contains("Xunlei"@),
        MatcherSpec::Contains("XL0012"@),
        MatcherSpec::Contains("QQDownload"@),
        MatcherSpec::Contains("anacrolix"@),
        MatcherSpec::StartsWith("TaiPei-Torrent"@),
        MatcherSpec::Contains("github.com/anacrolix/torrent"@),
    ]);
    r
}
} // verus!

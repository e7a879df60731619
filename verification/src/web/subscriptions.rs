//! The address-list subscriptions as the profile lists them, under the
//! `rules` mapping of the `ip-address-blocker-rules` section: listing them,
//! adding or replacing one, and removing one. A mapping is read by its
//! entries' keys: the first entry with a key gives its value.

use vstd::prelude::*;
use crate::engine::modules::{ConfValue, lookup, get_key, bool_or};
use crate::text::str_eq;
use crate::domain::ban::copy_string;

verus! {

/// The entries of a mapping (none for anything else).
pub open spec fn entries_of(v: Option<ConfValue>) -> Seq<(String, ConfValue)> {
    match v {
        Some(ConfValue::Mapping(m)) => m@,
        _ => Seq::empty(),
    }
}

/// The `rules` mapping of a section, if the section is a mapping that has one.
pub open spec fn rules_of(section: Option<ConfValue>) -> Option<Seq<(String, ConfValue)>> {
    match lookup(entries_of(section), "rules"@) {
        Some(ConfValue::Mapping(r)) => Some(r@),
        _ => None,
    }
}

/// A subscription as listed: its id, its name (the id by default), its URL
/// (empty by default) and whether it is on (by default yes).
pub open spec fn listed(id: Seq<char>, v: ConfValue) -> (Seq<char>, Seq<char>, Seq<char>, bool) {
    let name = match get_key(v, "name"@) {
        Some(ConfValue::Text(n)) => n@,
        _ => id,
    };
    let url = match get_key(v, "url"@) {
        Some(ConfValue::Text(u)) => u@,
        _ => Seq::empty(),
    };
    (id, name, url, bool_or(get_key(v, "enabled"@), true))
}

/// The listed subscriptions of a `rules` mapping, in order.
pub open spec fn listed_all(rules: Seq<(String, ConfValue)>) -> Seq<(Seq<char>, Seq<char>, Seq<char>, bool)> {
    rules.map_values(|e: (String, ConfValue)| listed(e.0@, e.1))
}

/// A listed subscription as a mathematical value.
pub open spec fn row_view(r: (String, String, String, bool)) -> (Seq<char>, Seq<char>, Seq<char>, bool) {
    (r.0@, r.1@, r.2@, r.3)
}

/// `v` is the entry of a subscription: exactly `enabled`, `name` and `url`, in that order.
pub open spec fn rule_entry(v: ConfValue, name: Seq<char>, url: Seq<char>, enabled: bool) -> bool {
    match v {
        ConfValue::Mapping(e) => {
            &&& e@.len() == 3
            &&& e@[0].0@ == "enabled"@
            &&& e@[0].1 == ConfValue::Bool(enabled)
            &&& e@[1].0@ == "name"@
            &&& (e@[1].1 matches ConfValue::Text(n) && n@ == name)
            &&& e@[2].0@ == "url"@
            &&& (e@[2].1 matches ConfValue::Text(u) && u@ == url)
        },
        _ => false,
    }
}

/// `new` reads like `old` but for key `k`, which gives `v`.
pub open spec fn put_spec(old: Seq<(String, ConfValue)>, new: Seq<(String, ConfValue)>, k: Seq<char>, v: ConfValue) -> bool {
    forall|x: Seq<char>| #[trigger] lookup(new, x) == if x == k { Some(v) } else { lookup(old, x) }
}

/// `new` reads like `old` for every key but `k`.
pub open spec fn same_but(old: Seq<(String, ConfValue)>, new: Seq<(String, ConfValue)>, k: Seq<char>) -> bool {
    forall|x: Seq<char>| x != k ==> #[trigger] lookup(new, x) == lookup(old, x)
}

/// The section after adding or replacing subscription `id`: the module is
/// turned on, and unless `rules` is there but not a mapping, `rules` gives
/// the new entry under `id` and reads as before for the other ids.
pub open spec fn with_rule_spec(old: Seq<(String, ConfValue)>, new: Seq<(String, ConfValue)>, id: Seq<char>,
    name: Seq<char>, url: Seq<char>, enabled: bool) -> bool
{
    &&& lookup(new, "enabled"@) == Some(ConfValue::Bool(true))
    &&& forall|k: Seq<char>| k != "enabled"@ && k != "rules"@ ==> #[trigger] lookup(new, k) == lookup(old, k)
    &&& match lookup(old, "rules"@) {
        Some(ConfValue::Mapping(rl)) => rules_with(rl@, lookup(new, "rules"@), id, name, url, enabled),
        None => rules_with(Seq::empty(), lookup(new, "rules"@), id, name, url, enabled),
        Some(other) => lookup(new, "rules"@) == Some(other),
    }
}

/// `new` is a `rules` mapping that gives the entry of subscription `id` and
/// reads as `old` for the other ids.
pub open spec fn rules_with(old: Seq<(String, ConfValue)>, new: Option<ConfValue>, id: Seq<char>,
    name: Seq<char>, url: Seq<char>, enabled: bool) -> bool
{
    match new {
        Some(ConfValue::Mapping(nr)) => {
            &&& same_but(old, nr@, id)
            &&& (lookup(nr@, id) matches Some(e) && rule_entry(e, name, url, enabled))
        },
        _ => false,
    }
}

/// The number of entries left in `rules` once the first entry of `id` is taken out.
pub open spec fn left_after(rules: Seq<(String, ConfValue)>, id: Seq<char>) -> int {
    if lookup(rules, id) is Some { rules.len() - 1 } else { rules.len() as int }
}

/// No subscription is left in the section once `id` is removed (or it has
/// no `rules` mapping).
pub open spec fn emptied(old: Seq<(String, ConfValue)>, id: Seq<char>) -> bool {
    match lookup(old, "rules"@) {
        Some(ConfValue::Mapping(rl)) => left_after(rl@, id) == 0,
        _ => true,
    }
}

/// The section after removing subscription `id`: `rules` loses its first
/// entry for `id` and reads as before for the other ids; when no
/// subscription is left the module is turned off.
pub open spec fn without_rule_spec(old: Seq<(String, ConfValue)>, new: Seq<(String, ConfValue)>, id: Seq<char>) -> bool {
    &&& forall|k: Seq<char>| k != "enabled"@ && k != "rules"@ ==> #[trigger] lookup(new, k) == lookup(old, k)
    &&& match lookup(old, "rules"@) {
        Some(ConfValue::Mapping(rl)) => {
            &&& lookup(new, "rules"@) matches Some(ConfValue::Mapping(nr))
            &&& same_but(rl@, nr@, id)
            &&& nr@.len() == left_after(rl@, id)
        },
        other => lookup(new, "rules"@) == other,
    }
    &&& lookup(new, "enabled"@) == if emptied(old, id) { Some(ConfValue::Bool(false)) } else { lookup(old, "enabled"@) }
}

proof fn lemma_lookup_first(e: Seq<(String, ConfValue)>, i: int, x: Seq<char>)
    requires
        0 <= i < e.len(),
        e[i].0@ == x,
        forall|j: int| 0 <= j < i ==> #[trigger] e[j].0@ != x,
    ensures
        lookup(e, x) == Some(e[i].1),
    decreases i,
{
    if i > 0 {
        assert(e[0].0@ != x);
        lemma_lookup_first(e.drop_first(), i - 1, x);
    }
}

proof fn lemma_lookup_absent(e: Seq<(String, ConfValue)>, x: Seq<char>)
    requires
        forall|j: int| 0 <= j < e.len() ==> #[trigger] e[j].0@ != x,
    ensures
        lookup(e, x) is None,
    decreases e.len(),
{
    if e.len() > 0 {
        assert(e[0].0@ != x);
        lemma_lookup_absent(e.drop_first(), x);
    }
}

proof fn lemma_lookup_push(e: Seq<(String, ConfValue)>, k: String, v: ConfValue, x: Seq<char>)
    requires
        lookup(e, k@) is None,
    ensures
        lookup(e.push((k, v)), x) == if x == k@ { Some(v) } else { lookup(e, x) },
    decreases e.len(),
{
    let p = e.push((k, v));
    if e.len() > 0 {
        assert(p.drop_first() =~= e.drop_first().push((k, v)));
        assert(p[0] == e[0]);
        if e[0].0@ == x {
            assert(lookup(p, x) == Some(e[0].1));
            assert(lookup(e, x) == Some(e[0].1));
        } else {
            assert(e[0].0@ != k@);
            assert(lookup(e.drop_first(), k@) is None);
            lemma_lookup_push(e.drop_first(), k, v, x);
            assert(lookup(p, x) == lookup(p.drop_first(), x));
            assert(lookup(e, x) == lookup(e.drop_first(), x));
        }
    } else {
        assert(p.drop_first() =~= Seq::<(String, ConfValue)>::empty());
        assert(p[0] == (k, v));
        assert(lookup(e, x) is None);
        if x != k@ {
            assert(lookup(p, x) == lookup(p.drop_first(), x));
        }
    }
}

proof fn lemma_lookup_update(e: Seq<(String, ConfValue)>, i: int, k: String, v: ConfValue, x: Seq<char>)
    requires
        0 <= i < e.len(),
        k@ == e[i].0@,
        forall|j: int| 0 <= j < i ==> #[trigger] e[j].0@ != e[i].0@,
    ensures
        lookup(e.update(i, (k, v)), x) == if x == k@ { Some(v) } else { lookup(e, x) },
    decreases i,
{
    let u = e.update(i, (k, v));
    if i == 0 {
        assert(u.drop_first() =~= e.drop_first());
    } else {
        assert(u.drop_first() =~= e.drop_first().update(i - 1, (k, v)));
        assert(e[0].0@ != e[i].0@);
        if e[0].0@ != x {
            assert forall|j: int| 0 <= j < i - 1 implies #[trigger] e.drop_first()[j].0@ != e.drop_first()[i - 1].0@ by {
                assert(e[j + 1].0@ != e[i].0@);
            }
            lemma_lookup_update(e.drop_first(), i - 1, k, v, x);
        }
    }
}

proof fn lemma_lookup_remove(e: Seq<(String, ConfValue)>, i: int, x: Seq<char>)
    requires
        0 <= i < e.len(),
        x != e[i].0@,
    ensures
        lookup(e.remove(i), x) == lookup(e, x),
    decreases i,
{
    let r = e.remove(i);
    if i == 0 {
        assert(r =~= e.drop_first());
    } else {
        assert(r.drop_first() =~= e.drop_first().remove(i - 1));
        if e[0].0@ != x {
            lemma_lookup_remove(e.drop_first(), i - 1, x);
        }
    }
}

proof fn lemma_keys_differ()
    ensures
        "rules"@ != "enabled"@,
{
    reveal_strlit("rules");
    reveal_strlit("enabled");
    assert("rules"@.len() != "enabled"@.len());
}

/// The position of the first entry with key `key`.
fn find_key(entries: &Vec<(String, ConfValue)>, key: &str) -> (r: Option<usize>)
    ensures
        match r {
            Some(i) => i < entries@.len() && entries@[i as int].0@ == key@
                && forall|j: int| 0 <= j < i ==> #[trigger] entries@[j].0@ != key@,
            None => forall|j: int| 0 <= j < entries@.len() ==> #[trigger] entries@[j].0@ != key@,
        },
{
    let mut i: usize = 0;
    while i < entries.len()
        invariant
            i <= entries@.len(),
            forall|j: int| 0 <= j < i ==> #[trigger] entries@[j].0@ != key@,
        decreases entries@.len() - i,
    {
        if str_eq(entries[i].0.as_str(), key) {
            return Some(i);
        }
        i += 1;
    }
    None
}

/// Sets key `key` to `v`: the value of its first entry is replaced, or an
/// entry is appended when there is none.
fn put(entries: &mut Vec<(String, ConfValue)>, key: &str, v: ConfValue)
    ensures
        put_spec(old(entries)@, final(entries)@, key@, v),
{
    let ghost old_e = entries@;
    match find_key(entries, key) {
        Some(i) => {
            let k = copy_string(&entries[i].0);
            let ghost gv = v;
            entries.set(i, (k, v));
            assert forall|x: Seq<char>| #[trigger] lookup(entries@, x) == if x == key@ { Some(gv) } else { lookup(old_e, x) } by {
                lemma_lookup_update(old_e, i as int, k, gv, x);
            }
        },
        None => {
            let k = key.to_string();
            let ghost gv = v;
            proof { lemma_lookup_absent(old_e, key@); }
            entries.push((k, v));
            assert forall|x: Seq<char>| #[trigger] lookup(entries@, x) == if x == key@ { Some(gv) } else { lookup(old_e, x) } by {
                lemma_lookup_push(old_e, k, gv, x);
            }
        },
    }
}

/// Takes out the first entry with key `key`; gives back its value.
fn take(entries: &mut Vec<(String, ConfValue)>, key: &str) -> (r: Option<ConfValue>)
    ensures
        r == lookup(old(entries)@, key@),
        same_but(old(entries)@, final(entries)@, key@),
        final(entries)@.len() == left_after(old(entries)@, key@),
{
    let ghost old_e = entries@;
    match find_key(entries, key) {
        Some(i) => {
            proof { lemma_lookup_first(old_e, i as int, key@); }
            let (_, v) = entries.remove(i);
            assert forall|x: Seq<char>| x != key@ implies #[trigger] lookup(entries@, x) == lookup(old_e, x) by {
                lemma_lookup_remove(old_e, i as int, x);
            }
            Some(v)
        },
        None => {
            proof { lemma_lookup_absent(old_e, key@); }
            None
        },
    }
}

/// The entry of a subscription.
fn rule_entry_value(name: &str, url: &str, enabled: bool) -> (r: ConfValue)
    ensures
        rule_entry(r, name@, url@, enabled),
{
    let mut e: Vec<(String, ConfValue)> = Vec::new();
    e.push(("enabled".to_string(), ConfValue::Bool(enabled)));
    e.push(("name".to_string(), ConfValue::Text(name.to_string())));
    e.push(("url".to_string(), ConfValue::Text(url.to_string())));
    ConfValue::Mapping(e)
}

/// The subscriptions listed in a section: `(id, name, url, enabled)` for
/// each entry of its `rules` mapping, in order.
pub fn profile_sub_rules(section: Option<&ConfValue>) -> (r: Vec<(String, String, String, bool)>)
    ensures
        r@.map_values(|x: (String, String, String, bool)| row_view(x)) == match rules_of(
            match section { Some(v) => Some(*v), None => None },
        ) {
            Some(rules) => listed_all(rules),
            None => Seq::empty(),
        },
{
    let mut out: Vec<(String, String, String, bool)> = Vec::new();
    let ghost sv = match section { Some(v) => Some(*v), None => None };
    let sec = match section {
        Some(ConfValue::Mapping(m)) => m,
        _ => {
            return out;
        },
    };
    let rules = match find_key(sec, "rules") {
        Some(i) => {
            proof { lemma_lookup_first(sec@, i as int, "rules"@); }
            match &sec[i].1 {
                ConfValue::Mapping(rl) => rl,
                _ => {
                    return out;
                },
            }
        },
        None => {
            proof { lemma_lookup_absent(sec@, "rules"@); }
            return out;
        },
    };
    assert(rules_of(sv) == Some(rules@));
    let mut i: usize = 0;
    while i < rules.len()
        invariant
            i <= rules@.len(),
            out@.map_values(|x: (String, String, String, bool)| row_view(x)) == listed_all(rules@.subrange(0, i as int)),
        decreases rules@.len() - i,
    {
        let id = &rules[i].0;
        let v = &rules[i].1;
        let (name, url, on) = match v {
            ConfValue::Mapping(kv) => {
                let n = match find_key(kv, "name") {
                    Some(j) => {
                        proof { lemma_lookup_first(kv@, j as int, "name"@); }
                        match &kv[j].1 {
                            ConfValue::Text(t) => copy_string(t),
                            _ => copy_string(id),
                        }
                    },
                    None => {
                        proof { lemma_lookup_absent(kv@, "name"@); }
                        copy_string(id)
                    },
                };
                let u = match find_key(kv, "url") {
                    Some(j) => {
                        proof { lemma_lookup_first(kv@, j as int, "url"@); }
                        match &kv[j].1 {
                            ConfValue::Text(t) => copy_string(t),
                            _ => String::new(),
                        }
                    },
                    None => {
                        proof { lemma_lookup_absent(kv@, "url"@); }
                        String::new()
                    },
                };
                let e = match find_key(kv, "enabled") {
                    Some(j) => {
                        proof { lemma_lookup_first(kv@, j as int, "enabled"@); }
                        match &kv[j].1 {
                            ConfValue::Bool(b) => *b,
                            _ => true,
                        }
                    },
                    None => {
                        proof { lemma_lookup_absent(kv@, "enabled"@); }
                        true
                    },
                };
                (n, u, e)
            },
            _ => (copy_string(id), String::new(), true),
        };
        let row = (copy_string(id), name, url, on);
        assert(row_view(row) == listed(rules@[i as int].0@, rules@[i as int].1));
        let ghost before = out@;
        out.push(row);
        assert(rules@.subrange(0, i as int + 1) =~= rules@.subrange(0, i as int).push(rules@[i as int]));
        assert(out@.map_values(|x: (String, String, String, bool)| row_view(x))
            =~= before.map_values(|x: (String, String, String, bool)| row_view(x)).push(row_view(row)));
        i += 1;
    }
    assert(rules@.subrange(0, rules@.len() as int) =~= rules@);
    out
}

/// The section after adding (or replacing) subscription `rule_id`. A section
/// that is there but is not a mapping is left as it is; a missing one is
/// created. The module is turned on; a `rules` entry that is not a mapping
/// is left as it is.
pub fn with_sub_rule(section: Option<ConfValue>, rule_id: &str, name: &str, url: &str, enabled: bool)
    -> (r: Option<ConfValue>)
    ensures
        (section matches Some(v) && !(v is Mapping)) ==> r == section,
        !(section matches Some(v) && !(v is Mapping)) ==> (r matches Some(ConfValue::Mapping(s2))
            && with_rule_spec(entries_of(section), s2@, rule_id@, name@, url@, enabled)),
{
    let ghost old_sec = entries_of(section);
    let mut sec: Vec<(String, ConfValue)> = match section {
        None => Vec::new(),
        Some(ConfValue::Mapping(m)) => m,
        Some(other) => {
            return Some(other);
        },
    };
    assert(sec@ == old_sec);
    proof { lemma_keys_differ(); }
    put(&mut sec, "enabled", ConfValue::Bool(true));
    let ghost s1 = sec@;
    assert(lookup(s1, "rules"@) == lookup(old_sec, "rules"@));
    match find_key(&sec, "rules") {
        Some(i) => {
            proof { lemma_lookup_first(s1, i as int, "rules"@); }
            let (k, rv) = sec.remove(i);
            let ghost grv = rv;
            let nv = match rv {
                ConfValue::Mapping(mut rules) => {
                    let ghost old_rules = rules@;
                    put(&mut rules, rule_id, rule_entry_value(name, url, enabled));
                    proof {
                        assert(same_but(old_rules, rules@, rule_id@));
                    }
                    ConfValue::Mapping(rules)
                },
                other => other,
            };
            let ghost gnv = nv;
            sec.insert(i, (k, nv));
            assert(sec@ =~= s1.update(i as int, (k, gnv)));
            assert forall|x: Seq<char>| #[trigger] lookup(sec@, x) == if x == "rules"@ { Some(gnv) } else { lookup(s1, x) } by {
                lemma_lookup_update(s1, i as int, k, gnv, x);
            }
        },
        None => {
            proof { lemma_lookup_absent(s1, "rules"@); }
            let mut rules: Vec<(String, ConfValue)> = Vec::new();
            put(&mut rules, rule_id, rule_entry_value(name, url, enabled));
            assert(same_but(Seq::empty(), rules@, rule_id@)) by {
                assert forall|x: Seq<char>| x != rule_id@ implies #[trigger] lookup(rules@, x) == lookup(Seq::<(String, ConfValue)>::empty(), x) by {
                }
            }
            put(&mut sec, "rules", ConfValue::Mapping(rules));
        },
    }
    Some(ConfValue::Mapping(sec))
}

/// The section after removing subscription `rule_id`. Anything but a mapping
/// is left as it is. When no subscription is left, the module is turned off.
pub fn without_sub_rule(section: Option<ConfValue>, rule_id: &str) -> (r: Option<ConfValue>)
    ensures
        !(section matches Some(ConfValue::Mapping(_))) ==> r == section,
        (section matches Some(ConfValue::Mapping(_))) ==> (r matches Some(ConfValue::Mapping(s2))
            && without_rule_spec(entries_of(section), s2@, rule_id@)),
{
    let ghost old_sec = entries_of(section);
    let mut sec: Vec<(String, ConfValue)> = match section {
        Some(ConfValue::Mapping(m)) => m,
        other => {
            return other;
        },
    };
    proof { lemma_keys_differ(); }
    let empty = match find_key(&sec, "rules") {
        Some(i) => {
            proof { lemma_lookup_first(old_sec, i as int, "rules"@); }
            let (k, rv) = sec.remove(i);
            let (nv, e) = match rv {
                ConfValue::Mapping(mut rules) => {
                    let _ = take(&mut rules, rule_id);
                    let e = rules.len() == 0;
                    (ConfValue::Mapping(rules), e)
                },
                other => (other, true),
            };
            let ghost gnv = nv;
            sec.insert(i, (k, nv));
            assert(sec@ =~= old_sec.update(i as int, (k, gnv)));
            assert forall|x: Seq<char>| #[trigger] lookup(sec@, x) == if x == "rules"@ { Some(gnv) } else { lookup(old_sec, x) } by {
                lemma_lookup_update(old_sec, i as int, k, gnv, x);
            }
            e
        },
        None => {
            proof { lemma_lookup_absent(old_sec, "rules"@); }
            true
        },
    };
    assert(empty == emptied(old_sec, rule_id@));
    if empty {
        put(&mut sec, "enabled", ConfValue::Bool(false));
    }
    Some(ConfValue::Mapping(sec))
}

/// The entries of the `rules` mapping of a section (none without one).
pub open spec fn rules_in(sec: Seq<(String, ConfValue)>) -> Seq<(String, ConfValue)> {
    match lookup(sec, "rules"@) {
        Some(ConfValue::Mapping(r)) => r@,
        _ => Seq::empty(),
    }
}

/// Adding a subscription and then removing it leaves every other
/// subscription reading as it did before (when `rules` was a mapping or
/// missing).
pub proof fn lemma_add_then_remove_keeps_others(old: Seq<(String, ConfValue)>, mid: Seq<(String, ConfValue)>,
    new: Seq<(String, ConfValue)>, id: Seq<char>, name: Seq<char>, url: Seq<char>, enabled: bool, k: Seq<char>)
    requires
        !(lookup(old, "rules"@) matches Some(v) && !(v is Mapping)),
        with_rule_spec(old, mid, id, name, url, enabled),
        without_rule_spec(mid, new, id),
        k != id,
    ensures
        lookup(rules_in(new), k) == lookup(rules_in(old), k),
{
    let nr = rules_in(mid);
    assert(lookup(mid, "rules"@) matches Some(ConfValue::Mapping(_)));
    assert(lookup(rules_in(new), k) == lookup(nr, k));
    assert(lookup(nr, k) == lookup(rules_in(old), k));
}

} // verus!

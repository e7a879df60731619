//! The in-memory ban list: networks (single addresses or CIDR blocks) mapped
//! to their ban records, queried by longest-prefix match.

use vstd::prelude::*;
use crate::domain::ban::{BanMetadata, copy_string};
use crate::ip::{IpAddress, Network, host_network, lemma_host_network_wf, network_or_host, parse_network, network_contains, network_text, network_to_string};
use crate::ip_table::{NetMap, is_longest_match, no_match};
use crate::rules::ip_matcher::covered;
use crate::downloader::{join_chars, join_spec};
use crate::text::{chars_of, deep_chars, deep_strings};

verus! {

/// The bans of `m` that are still running at `now_ms`.
pub open spec fn unexpired(m: Map<Network, BanMetadata>, now_ms: i64) -> Map<Network, BanMetadata> {
    Map::new(|n: Network| m.dom().contains(n) && m[n].unban_at > now_ms, |n: Network| m[n])
}

/// The networks of `m` whose ban has run out at `now_ms`.
pub open spec fn expired_keys(m: Map<Network, BanMetadata>, now_ms: i64) -> Set<Network> {
    Set::new(|n: Network| m.dom().contains(n) && m[n].unban_at <= now_ms)
}

/// The ban of `n` is a real ban (not a disconnect) and its network address lies in `block`.
pub open spec fn active_in(m: Map<Network, BanMetadata>, block: Network, n: Network) -> bool {
    &&& m.dom().contains(n)
    &&& !m[n].ban_for_disconnect
    &&& block.contains_spec(n.addr)
}

/// `r` holds the records of the networks `keys` of `m`, one each, in some order.
pub open spec fn values_of(r: Seq<BanMetadata>, keys: Set<Network>, m: Map<Network, BanMetadata>) -> bool {
    exists|ks: Seq<Network>|
        {
            &&& ks.no_duplicates()
            &&& ks.to_set() == keys
            &&& ks.len() == r.len()
            &&& forall|i: int| 0 <= i < ks.len() ==> r[i] == m[#[trigger] ks[i]]
        }
}

/// `r` lists every network of `m` once, as CIDR text, with a copy of its
/// record; IPv4 networks come first.
pub open spec fn snapshot_of(r: Seq<(String, BanMetadata)>, m: Map<Network, BanMetadata>) -> bool {
    exists|ks: Seq<Network>|
        {
            &&& ks.no_duplicates()
            &&& ks.to_set() == m.dom()
            &&& ks.len() == r.len()
            &&& forall|i: int| 0 <= i < ks.len() ==> r[i].0@ == network_text(#[trigger] ks[i])
                && r[i].1.same(m[ks[i]])
            &&& forall|i: int, j: int| 0 <= i < j < ks.len() && (ks[i].addr is V6) ==> (ks[j].addr is V6)
        }
}

/// `r` is the CIDR text of every network of `m`, once each; IPv4 networks
/// come first.
pub open spec fn texts_of(r: Seq<Seq<char>>, m: Map<Network, BanMetadata>) -> bool {
    exists|ks: Seq<Network>|
        {
            &&& ks.no_duplicates()
            &&& ks.to_set() == m.dom()
            &&& ks.len() == r.len()
            &&& forall|i: int| 0 <= i < ks.len() ==> r[i] == network_text(#[trigger] ks[i])
            &&& forall|i: int, j: int| 0 <= i < j < ks.len() && (ks[i].addr is V6) ==> (ks[j].addr is V6)
        }
}

/// The ban list.
pub struct BanList {
    map: NetMap<BanMetadata>,
}

impl View for BanList {
    type V = Map<Network, BanMetadata>;

    closed spec fn view(&self) -> Map<Network, BanMetadata> {
        self.map.view()
    }
}

impl BanList {
    #[verifier::type_invariant]
    spec fn inv(self) -> bool {
        self.map.wf()
    }

    /// An empty list.
    pub fn new() -> (r: Self)
        ensures
            r@ == Map::<Network, BanMetadata>::empty(),
    {
        BanList { map: NetMap::new() }
    }

    /// Bans an address or CIDR block with the given record, replacing an earlier
    /// ban of exactly that network. Gives back whether the text was understood.
    pub fn ban(&mut self, ip_or_cidr: &str, meta: BanMetadata) -> (ok: bool)
        ensures
            ok == network_or_host(ip_or_cidr@) is Some,
            match network_or_host(ip_or_cidr@) {
                Some(n) => final(self)@ == old(self)@.insert(n, meta),
                None => final(self)@ == old(self)@,
            },
            forall|n: Network| #[trigger] final(self)@.dom().contains(n) ==> n.wf(),
    {
        proof { use_type_invariant(&*self); }
        match parse_network(ip_or_cidr) {
            Some(n) => {
                let mut m = NetMap::new();
                std::mem::swap(&mut m, &mut self.map);
                m.insert(n, meta);
                self.map = m;
                proof {
                    use_type_invariant(&*self);
                    self.map.lemma_wf_keys();
                }
                true
            },
            None => {
                proof { self.map.lemma_wf_keys(); }
                false
            },
        }
    }

    /// Lifts the ban of exactly this network, giving back its record.
    pub fn unban(&mut self, ip_or_cidr: &str) -> (r: Option<BanMetadata>)
        ensures
            match network_or_host(ip_or_cidr@) {
                Some(n) => {
                    &&& final(self)@ == old(self)@.remove(n)
                    &&& r == (if old(self)@.dom().contains(n) {
                        Some(old(self)@[n])
                    } else {
                        None
                    })
                },
                None => final(self)@ == old(self)@ && r is None,
            },
    {
        proof { use_type_invariant(&*self); }
        match parse_network(ip_or_cidr) {
            Some(n) => {
                let mut m = NetMap::new();
                std::mem::swap(&mut m, &mut self.map);
                let r = m.remove(n);
                self.map = m;
                r
            },
            None => None,
        }
    }

    /// A copy of the record of the most specific ban that covers `ip`.
    pub fn get(&self, ip: IpAddress) -> (r: Option<BanMetadata>)
        ensures
            r is None <==> !covered(self@.dom(), ip),
            r matches Some(m) ==> exists|n: Network|
                is_longest_match(self@.dom(), ip, n) && m.same(#[trigger] self@[n]),
    {
        proof { use_type_invariant(self); }
        match self.map.longest_match(ip) {
            Some((n, v)) => {
                let m = v.duplicate();
                assert(is_longest_match(self@.dom(), ip, n) && m.same(self@[n]));
                Some(m)
            },
            None => None,
        }
    }

    /// Whether some ban covers `ip`.
    pub fn contains(&self, ip: IpAddress) -> (b: bool)
        ensures
            b == covered(self@.dom(), ip),
    {
        proof { use_type_invariant(self); }
        self.map.longest_match(ip).is_some()
    }

    /// The number of banned networks.
    pub fn len(&self) -> (r: usize)
        ensures
            r == self@.dom().len(),
    {
        proof { use_type_invariant(self); }
        self.map.len()
    }

    /// Lifts every ban whose end is at or before `now_ms`, giving back their records.
    pub fn remove_expired(&mut self, now_ms: i64) -> (r: Vec<BanMetadata>)
        ensures
            final(self)@ == unexpired(old(self)@, now_ms),
            values_of(r@, expired_keys(old(self)@, now_ms), old(self)@),
    {
        proof { use_type_invariant(&*self); }
        let mut m = NetMap::new();
        std::mem::swap(&mut m, &mut self.map);
        let ghost orig = m.view();
        let keys = m.ordered_keys();
        let mut removed: Vec<BanMetadata> = Vec::new();
        let ghost mut ks: Seq<Network> = Seq::empty();
        let ghost mut done: Set<Network> = Set::empty();
        let mut i: usize = 0;
        while i < keys.len()
            invariant
                m.wf(),
                orig == old(self)@,
                keys@.no_duplicates(),
                keys@.to_set() == orig.dom(),
                i <= keys@.len(),
                forall|j: int| 0 <= j < i ==> #[trigger] done.contains(keys@[j]),
                forall|j: int| i <= j < keys@.len() ==> !#[trigger] done.contains(keys@[j]),
                forall|n: Network| #[trigger] done.contains(n) ==> orig.dom().contains(n),
                m.view() == Map::new(
                    |n: Network| orig.dom().contains(n) && !(done.contains(n) && orig[n].unban_at <= now_ms),
                    |n: Network| orig[n],
                ),
                ks.no_duplicates(),
                ks.len() == removed@.len(),
                forall|j: int| 0 <= j < ks.len() ==> done.contains(#[trigger] ks[j])
                    && orig.dom().contains(ks[j]) && orig[ks[j]].unban_at <= now_ms
                    && removed@[j] == orig[ks[j]],
                forall|n: Network| #[trigger] done.contains(n) && orig[n].unban_at <= now_ms
                    ==> ks.contains(n),
            decreases keys@.len() - i,
        {
            let n = keys[i];
            proof {
                assert(keys@.to_set().contains(n));
                assert(!done.contains(n));
                assert(m.view().dom().contains(n));
                m.lemma_wf_keys();
            }
            let expired = match m.get(n) {
                Some(v) => v.unban_at <= now_ms,
                None => false,
            };
            assert(expired == (orig[n].unban_at <= now_ms));
            let ghost old_ks = ks;
            let ghost old_done = done;
            if expired {
                let v = m.remove(n);
                removed.push(v.unwrap());
                proof {
                    assert(!ks.contains(n));
                    ks = ks.push(n);
                }
            }
            proof {
                done = done.insert(n);
                assert forall|j: int| 0 <= j < ks.len() implies done.contains(#[trigger] ks[j])
                    && orig.dom().contains(ks[j]) && orig[ks[j]].unban_at <= now_ms
                    && removed@[j] == orig[ks[j]] by {
                    if j < old_ks.len() {
                        assert(old_ks[j] == ks[j]);
                    }
                }
                assert forall|j: int| i + 1 <= j < keys@.len() implies !#[trigger] done.contains(keys@[j]) by {
                    assert(keys@[j] != keys@[i as int]);
                    assert(!old_done.contains(keys@[j]));
                }
                assert forall|nn: Network| #[trigger] done.contains(nn) && orig[nn].unban_at <= now_ms
                    implies ks.contains(nn) by {
                    if nn == n {
                        assert(ks[ks.len() - 1] == n);
                    } else {
                        assert(old_done.contains(nn));
                        assert(old_ks.contains(nn));
                        let k = choose|k: int| 0 <= k < old_ks.len() && old_ks[k] == nn;
                        assert(ks[k] == nn);
                    }
                }
                assert(m.view() =~= Map::new(
                    |nn: Network| orig.dom().contains(nn) && !(done.contains(nn) && orig[nn].unban_at <= now_ms),
                    |nn: Network| orig[nn],
                ));
            }
            i += 1;
        }
        proof {
            assert forall|n: Network| orig.dom().contains(n) implies done.contains(n) by {
                assert(keys@.to_set().contains(n));
                let j = choose|j: int| 0 <= j < keys@.len() && keys@[j] == n;
                assert(done.contains(keys@[j]));
            }
            assert(m.view() =~= unexpired(orig, now_ms));
            assert(ks.to_set() =~= expired_keys(orig, now_ms)) by {
                assert forall|n: Network| ks.to_set().contains(n) implies expired_keys(orig, now_ms).contains(n) by {
                    let j = choose|j: int| 0 <= j < ks.len() && ks[j] == n;
                    assert(done.contains(ks[j]));
                }
                assert forall|n: Network| expired_keys(orig, now_ms).contains(n) implies ks.to_set().contains(n) by {
                    assert(done.contains(n));
                    assert(ks.contains(n));
                }
            }
            assert(forall|j: int| 0 <= j < ks.len() ==> removed@[j] == orig[#[trigger] ks[j]]);
            assert(values_of(removed@, expired_keys(orig, now_ms), orig));
        }
        self.map = m;
        removed
    }

    /// The network address of some real ban (not a disconnect) that lies in
    /// `block`, if there is one.
    pub fn any_active_ban_in(&self, block: Network) -> (r: Option<IpAddress>)
        requires
            block.wf(),
        ensures
            r is None <==> forall|n: Network| !#[trigger] active_in(self@, block, n),
            r matches Some(a) ==> exists|n: Network| #[trigger] active_in(self@, block, n) && n.addr == a,
    {
        proof {
            use_type_invariant(self);
            self.map.lemma_wf_keys();
        }
        let keys = self.map.ordered_keys();
        let mut i: usize = 0;
        while i < keys.len()
            invariant
                self.map.wf(),
                block.wf(),
                forall|n: Network| #[trigger] self@.dom().contains(n) ==> n.wf(),
                keys@.to_set() == self@.dom(),
                i <= keys@.len(),
                forall|j: int| 0 <= j < i ==> !#[trigger] active_in(self@, block, keys@[j]),
            decreases keys@.len() - i,
        {
            let n = keys[i];
            assert(keys@.to_set().contains(n));
            match self.map.get(n) {
                Some(meta) => {
                    if !meta.ban_for_disconnect && network_contains(&block, n.addr) {
                        assert(active_in(self@, block, n));
                        return Some(n.addr);
                    }
                },
                None => {},
            }
            i += 1;
        }
        assert forall|n: Network| !#[trigger] active_in(self@, block, n) by {
            if active_in(self@, block, n) {
                assert(keys@.to_set().contains(n));
                let j = choose|j: int| 0 <= j < keys@.len() && keys@[j] == n;
                assert(!active_in(self@, block, keys@[j]));
            }
        }
        None
    }

    /// Every ban as `(CIDR text, record)`, for persistence and for walking the list.
    pub fn snapshot(&self) -> (r: Vec<(String, BanMetadata)>)
        ensures
            snapshot_of(r@, self@),
    {
        proof { use_type_invariant(self); }
        let keys = self.map.ordered_keys();
        let mut out: Vec<(String, BanMetadata)> = Vec::new();
        let mut i: usize = 0;
        while i < keys.len()
            invariant
                self.map.wf(),
                keys@.to_set() == self@.dom(),
                i <= keys@.len(),
                out@.len() == i,
                forall|j: int| 0 <= j < i ==> out@[j].0@ == network_text(#[trigger] keys@[j])
                    && out@[j].1.same(self@[keys@[j]]),
            decreases keys@.len() - i,
        {
            let n = keys[i];
            assert(keys@.to_set().contains(n));
            proof { self.map.lemma_wf_keys(); }
            let meta = self.map.get(n).unwrap();
            out.push((network_to_string(&n), meta.duplicate()));
            i += 1;
        }
        assert(snapshot_of(out@, self@)) by {
            assert(forall|j: int| 0 <= j < keys@.len() ==> out@[j].0@ == network_text(#[trigger] keys@[j])
                && out@[j].1.same(self@[keys@[j]]));
        }
        out
    }

    /// The banned networks as CIDR text, each once, IPv4 first.
    pub fn network_texts(&self) -> (r: Vec<String>)
        ensures
            texts_of(deep_strings(r@), self@),
    {
        let snap = self.snapshot();
        let mut out: Vec<String> = Vec::new();
        let mut i: usize = 0;
        while i < snap.len()
            invariant
                i <= snap@.len(),
                out@.len() == i,
                forall|j: int| 0 <= j < i ==> (#[trigger] out@[j])@ == snap@[j].0@,
            decreases snap@.len() - i,
        {
            out.push(copy_string(&snap[i].0));
            i += 1;
        }
        let ghost lines = deep_strings(out@);
        proof {
            let ks = choose|ks: Seq<Network>|
                {
                    &&& ks.no_duplicates()
                    &&& ks.to_set() == self@.dom()
                    &&& ks.len() == snap@.len()
                    &&& forall|i: int| 0 <= i < ks.len() ==> snap@[i].0@ == network_text(#[trigger] ks[i])
                        && snap@[i].1.same(self@[ks[i]])
                    &&& forall|i: int, j: int| 0 <= i < j < ks.len() && (ks[i].addr is V6) ==> (ks[j].addr is V6)
                };
            assert forall|i: int| 0 <= i < ks.len() implies lines[i] == network_text(#[trigger] ks[i]) by {
                assert(lines[i] == out@[i]@);
            }
            assert(texts_of(lines, self@));
        }
        out
    }

    /// The banned networks as CIDR text, one per line (the plain-text
    /// block list that other tools fetch).
    pub fn blocklist_text(&self) -> (r: String)
        ensures
            exists|lines: Seq<Seq<char>>| #[trigger] texts_of(lines, self@) && r@ == join_spec(lines, '\n'),
    {
        let texts = self.network_texts();
        let mut parts: Vec<Vec<char>> = Vec::new();
        let mut i: usize = 0;
        while i < texts.len()
            invariant
                i <= texts@.len(),
                parts@.len() == i,
                forall|j: int| 0 <= j < i ==> (#[trigger] parts@[j])@ == texts@[j]@,
            decreases texts@.len() - i,
        {
            parts.push(chars_of(texts[i].as_str()));
            i += 1;
        }
        assert(deep_chars(parts@) =~= deep_strings(texts@));
        join_chars(&parts, '\n')
    }

    /// Whether nothing is banned.
    pub fn is_empty(&self) -> (b: bool)
        ensures
            b == (self@.dom().len() == 0),
    {
        self.len() == 0
    }
}

impl Default for BanList {
    /// An empty list.
    fn default() -> (r: Self)
        ensures
            r@ == Map::<Network, BanMetadata>::empty(),
    {
        Self::new()
    }
}


/// After banning a network, every address it contains is covered, and the
/// network holds the new record.
pub proof fn lemma_ban_covers(m: Map<Network, BanMetadata>, n: Network, meta: BanMetadata, ip: IpAddress)
    requires
        n.contains_spec(ip),
    ensures
        covered(m.insert(n, meta).dom(), ip),
        m.insert(n, meta)[n] == meta,
{
    assert(m.insert(n, meta).dom().contains(n));
}

/// Banning a single address makes its record the one found for it: no other
/// banned network is more specific.
pub proof fn lemma_host_ban_is_most_specific(m: Map<Network, BanMetadata>, a: IpAddress, meta: BanMetadata)
    requires
        forall|k: Network| #[trigger] m.dom().contains(k) ==> k.wf(),
    ensures
        is_longest_match(m.insert(host_network(a), meta).dom(), a, host_network(a)),
        m.insert(host_network(a), meta)[host_network(a)] == meta,
{
    lemma_host_network_wf(a);
    let d = m.insert(host_network(a), meta).dom();
    assert forall|k: Network| #[trigger] d.contains(k) && k.contains_spec(a) implies k.prefix
        <= host_network(a).prefix by {
        if k != host_network(a) {
            assert(m.dom().contains(k));
            assert(k.wf());
        }
    }
}

/// Lifting a ban undoes it: banning a network that was not banned and then
/// lifting it gives back the list as it was.
pub proof fn lemma_unban_undoes_ban(m: Map<Network, BanMetadata>, n: Network, meta: BanMetadata)
    requires
        !m.dom().contains(n),
    ensures
        m.insert(n, meta).remove(n) == m,
{
    assert(m.insert(n, meta).remove(n) =~= m);
}

/// Removing the expired bans keeps exactly the running ones: every ban left
/// ends after `now_ms`, every running ban is left unchanged, the removed
/// networks are the expired ones, and removing again at the same time changes
/// nothing.
pub proof fn lemma_remove_expired_keeps_running(m: Map<Network, BanMetadata>, now_ms: i64)
    ensures
        forall|n: Network| #[trigger] unexpired(m, now_ms).dom().contains(n)
            ==> unexpired(m, now_ms)[n].unban_at > now_ms && unexpired(m, now_ms)[n] == m[n],
        forall|n: Network| #[trigger] m.dom().contains(n) && m[n].unban_at > now_ms
            ==> unexpired(m, now_ms).dom().contains(n),
        m.dom() == unexpired(m, now_ms).dom() + expired_keys(m, now_ms),
        unexpired(m, now_ms).dom().disjoint(expired_keys(m, now_ms)),
        unexpired(unexpired(m, now_ms), now_ms) == unexpired(m, now_ms),
{
    assert(m.dom() =~= unexpired(m, now_ms).dom() + expired_keys(m, now_ms));
    assert(unexpired(unexpired(m, now_ms), now_ms) =~= unexpired(m, now_ms));
}
} // verus!

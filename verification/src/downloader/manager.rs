//! The list of configured downloaders, kept by id: adding a configuration
//! replaces the one with the same id, removing takes it out.

use vstd::prelude::*;
use crate::downloader::DownloaderConfig;
use crate::text::str_eq;

verus! {

/// The position of the first configuration with id `id`.
pub open spec fn first_with_id(s: Seq<DownloaderConfig>, id: Seq<char>) -> Option<int> {
    if exists|i: int| 0 <= i < s.len() && #[trigger] s[i].id@ == id {
        Some(choose|i: int| 0 <= i < s.len() && #[trigger] s[i].id@ == id
            && forall|k: int| 0 <= k < i ==> #[trigger] s[k].id@ != id)
    } else {
        None
    }
}

/// No two configurations share an id.
pub open spec fn ids_distinct(s: Seq<DownloaderConfig>) -> bool {
    forall|i: int, j: int| 0 <= i < j < s.len() ==> #[trigger] s[i].id@ != #[trigger] s[j].id@
}

/// The list after adding `cfg`: it replaces the configuration with its id, or
/// is appended when there is none.
pub open spec fn upserted(s: Seq<DownloaderConfig>, cfg: DownloaderConfig) -> Seq<DownloaderConfig> {
    match first_with_id(s, cfg.id@) {
        Some(i) => s.update(i, cfg),
        None => s.push(cfg),
    }
}

/// The list after removing the configuration with id `id` (unchanged when
/// there is none).
pub open spec fn removed(s: Seq<DownloaderConfig>, id: Seq<char>) -> Seq<DownloaderConfig> {
    match first_with_id(s, id) {
        Some(i) => s.remove(i),
        None => s,
    }
}

proof fn lemma_first_with_id(s: Seq<DownloaderConfig>, id: Seq<char>, i: int)
    requires
        0 <= i < s.len(),
        s[i].id@ == id,
        forall|k: int| 0 <= k < i ==> #[trigger] s[k].id@ != id,
    ensures
        first_with_id(s, id) == Some(i),
{
    let c = first_with_id(s, id)->0;
    assert(first_with_id(s, id) is Some);
    if c < i {
        assert(s[c].id@ != id);
    } else if c > i {
        assert(s[i].id@ != id);
    }
}

proof fn lemma_first_with_id_in_range(s: Seq<DownloaderConfig>, id: Seq<char>)
    ensures
        first_with_id(s, id) matches Some(i) ==> 0 <= i < s.len() && s[i].id@ == id,
{
    if exists|i: int| 0 <= i < s.len() && #[trigger] s[i].id@ == id {
        let w = choose|i: int| 0 <= i < s.len() && #[trigger] s[i].id@ == id;
        lemma_first_index_exists(s, id, w);
    }
}

proof fn lemma_first_index_exists(s: Seq<DownloaderConfig>, id: Seq<char>, w: int)
    requires
        0 <= w < s.len(),
        s[w].id@ == id,
    ensures
        exists|i: int| 0 <= i < s.len() && #[trigger] s[i].id@ == id
            && forall|k: int| 0 <= k < i ==> #[trigger] s[k].id@ != id,
    decreases w,
{
    if exists|k: int| 0 <= k < w && #[trigger] s[k].id@ == id {
        let k = choose|k: int| 0 <= k < w && #[trigger] s[k].id@ == id;
        lemma_first_index_exists(s, id, k);
    } else {
        assert(forall|k: int| 0 <= k < w ==> #[trigger] s[k].id@ != id);
    }
}

/// The position of the configuration with id `id`.
pub fn find_config(configs: &Vec<DownloaderConfig>, id: &str) -> (r: Option<usize>)
    ensures
        r is None <==> first_with_id(configs@, id@) is None,
        r matches Some(i) ==> first_with_id(configs@, id@) == Some(i as int),
        r matches Some(i) ==> i < configs@.len() && configs@[i as int].id@ == id@,
{
    let mut i: usize = 0;
    while i < configs.len()
        invariant
            i <= configs@.len(),
            forall|k: int| 0 <= k < i ==> #[trigger] configs@[k].id@ != id@,
        decreases configs@.len() - i,
    {
        if str_eq(configs[i].id.as_str(), id) {
            proof { lemma_first_with_id(configs@, id@, i as int); }
            return Some(i);
        }
        i += 1;
    }
    None
}

/// Adds or replaces a configuration (by id). Gives back the position that was
/// replaced (`None`: the configuration was appended), so that the running
/// downloader at the same position can be replaced too.
pub fn upsert_config(configs: &mut Vec<DownloaderConfig>, cfg: DownloaderConfig) -> (r: Option<usize>)
    ensures
        final(configs)@ == upserted(old(configs)@, cfg),
        r is None <==> first_with_id(old(configs)@, cfg.id@) is None,
        r matches Some(i) ==> first_with_id(old(configs)@, cfg.id@) == Some(i as int),
{
    match find_config(configs, cfg.id.as_str()) {
        Some(i) => {
            configs.set(i, cfg);
            Some(i)
        },
        None => {
            configs.push(cfg);
            None
        },
    }
}

/// Removes the configuration with id `id`. Gives back its position (`None`:
/// there was none, nothing changed).
pub fn remove_config(configs: &mut Vec<DownloaderConfig>, id: &str) -> (r: Option<usize>)
    ensures
        final(configs)@ == removed(old(configs)@, id@),
        r is None <==> first_with_id(old(configs)@, id@) is None,
        r matches Some(i) ==> first_with_id(old(configs)@, id@) == Some(i as int),
{
    match find_config(configs, id) {
        Some(i) => {
            configs.remove(i);
            Some(i)
        },
        None => None,
    }
}

/// Adding a configuration keeps the ids of the list distinct, and the list
/// then holds it.
pub proof fn lemma_upsert_keeps_ids_distinct(s: Seq<DownloaderConfig>, cfg: DownloaderConfig)
    requires
        ids_distinct(s),
    ensures
        ids_distinct(upserted(s, cfg)),
        first_with_id(upserted(s, cfg), cfg.id@) matches Some(i) && upserted(s, cfg)[i] == cfg,
{
    let t = upserted(s, cfg);
    match first_with_id(s, cfg.id@) {
        Some(i) => {
            assert forall|a: int, b: int| 0 <= a < b < t.len() implies #[trigger] t[a].id@ != #[trigger] t[b].id@ by {
                if a == i {
                    assert(s[b].id@ != s[i].id@);
                } else if b == i {
                    assert(s[a].id@ != s[i].id@);
                } else {
                    assert(s[a].id@ != s[b].id@);
                }
            }
            assert forall|k: int| 0 <= k < i implies #[trigger] t[k].id@ != cfg.id@ by {
                assert(s[k].id@ != s[i].id@);
            }
            lemma_first_with_id(t, cfg.id@, i);
        },
        None => {
            assert forall|a: int, b: int| 0 <= a < b < t.len() implies #[trigger] t[a].id@ != #[trigger] t[b].id@ by {
                if b == s.len() {
                    assert(!(0 <= a < s.len() && s[a].id@ == cfg.id@));
                } else {
                    assert(s[a].id@ != s[b].id@);
                }
            }
            assert forall|k: int| 0 <= k < s.len() implies #[trigger] t[k].id@ != cfg.id@ by {
                assert(!(0 <= k < s.len() && s[k].id@ == cfg.id@));
            }
            lemma_first_with_id(t, cfg.id@, s.len() as int);
        },
    }
}

/// Removing a configuration keeps the ids distinct and leaves none with that id.
pub proof fn lemma_remove_takes_id_out(s: Seq<DownloaderConfig>, id: Seq<char>)
    requires
        ids_distinct(s),
    ensures
        ids_distinct(removed(s, id)),
        first_with_id(removed(s, id), id) is None,
{
    let t = removed(s, id);
    match first_with_id(s, id) {
        Some(i) => {
            assert forall|a: int, b: int| 0 <= a < b < t.len() implies #[trigger] t[a].id@ != #[trigger] t[b].id@ by {
                let sa = if a < i { a } else { a + 1 };
                let sb = if b < i { b } else { b + 1 };
                assert(t[a] == s[sa] && t[b] == s[sb]);
                assert(s[sa].id@ != s[sb].id@);
            }
            assert forall|k: int| 0 <= k < t.len() implies #[trigger] t[k].id@ != id by {
                let sk = if k < i { k } else { k + 1 };
                assert(t[k] == s[sk]);
                if sk != i {
                    if sk < i {
                        assert(s[sk].id@ != s[i].id@);
                    } else {
                        assert(s[i].id@ != s[sk].id@);
                    }
                }
            }
        },
        None => {
            assert forall|k: int| 0 <= k < t.len() implies #[trigger] t[k].id@ != id by {
                assert(!(0 <= k < s.len() && s[k].id@ == id));
            }
        },
    }
}

/// How many of the entries hold a built downloader.
pub open spec fn built_count<D>(s: Seq<Option<D>>) -> nat
    decreases s.len(),
{
    if s.len() == 0 {
        0
    } else {
        built_count(s.drop_last()) + if s.last() is Some { 1nat } else { 0nat }
    }
}

/// The configured downloaders, kept by id, and beside each configuration the
/// running downloader built from it (`None` where building it failed).
pub struct DownloaderManager<D> {
    configs: Vec<DownloaderConfig>,
    items: Vec<Option<D>>,
}

impl<D> DownloaderManager<D> {
    #[verifier::type_invariant]
    spec fn aligned(&self) -> bool {
        self.configs@.len() == self.items@.len()
    }

    /// The configurations, in order.
    pub closed spec fn configs_spec(&self) -> Seq<DownloaderConfig> {
        self.configs@
    }

    /// The running downloaders, one entry per configuration.
    pub closed spec fn items_spec(&self) -> Seq<Option<D>> {
        self.items@
    }

    /// A manager over the loaded configurations; `built[i]` is what building
    /// `configs[i]` gave.
    pub fn load(configs: Vec<DownloaderConfig>, built: Vec<Option<D>>) -> (r: Self)
        requires
            configs@.len() == built@.len(),
        ensures
            r.configs_spec() == configs@,
            r.items_spec() == built@,
    {
        DownloaderManager { configs, items: built }
    }

    /// The configurations.
    pub fn configs(&self) -> (r: &Vec<DownloaderConfig>)
        ensures
            r@ == self.configs_spec(),
    {
        &self.configs
    }

    /// The running downloaders, one entry per configuration.
    pub fn items(&self) -> (r: &Vec<Option<D>>)
        ensures
            r@ == self.items_spec(),
            r@.len() == self.configs_spec().len(),
    {
        proof { use_type_invariant(self); }
        &self.items
    }

    /// The number of running downloaders.
    pub fn count(&self) -> (r: usize)
        ensures
            r == built_count(self.items_spec()),
    {
        let mut n: usize = 0;
        let mut i: usize = 0;
        while i < self.items.len()
            invariant
                i <= self.items@.len(),
                n == built_count(self.items@.subrange(0, i as int)),
                n <= i,
            decreases self.items@.len() - i,
        {
            assert(self.items@.subrange(0, i + 1).drop_last() =~= self.items@.subrange(0, i as int));
            if self.items[i].is_some() {
                n += 1;
            }
            i += 1;
        }
        assert(self.items@.subrange(0, i as int) =~= self.items@);
        n
    }

    /// Adds or replaces (by id) a configuration together with the downloader
    /// built from it.
    pub fn upsert(&mut self, config: DownloaderConfig, downloader: D)
        ensures
            final(self).configs_spec() == upserted(old(self).configs_spec(), config),
            final(self).items_spec() == match first_with_id(old(self).configs_spec(), config.id@) {
                Some(i) => old(self).items_spec().update(i, Some(downloader)),
                None => old(self).items_spec().push(Some(downloader)),
            },
    {
        proof { use_type_invariant(&*self); }
        let mut taken = DownloaderManager { configs: Vec::new(), items: Vec::new() };
        std::mem::swap(&mut taken, self);
        proof {
            use_type_invariant(&taken);
            lemma_first_with_id_in_range(taken.configs@, config.id@);
        }
        let DownloaderManager { mut configs, mut items } = taken;
        match upsert_config(&mut configs, config) {
            Some(i) => {
                items.set(i, Some(downloader));
            },
            None => {
                items.push(Some(downloader));
            },
        }
        *self = DownloaderManager { configs, items };
    }

    /// Removes the configuration with id `id` and its downloader; says whether
    /// there was one.
    pub fn remove(&mut self, id: &str) -> (r: bool)
        ensures
            r == first_with_id(old(self).configs_spec(), id@) is Some,
            final(self).configs_spec() == removed(old(self).configs_spec(), id@),
            final(self).items_spec() == match first_with_id(old(self).configs_spec(), id@) {
                Some(i) => old(self).items_spec().remove(i),
                None => old(self).items_spec(),
            },
    {
        proof { use_type_invariant(&*self); }
        let mut taken = DownloaderManager { configs: Vec::new(), items: Vec::new() };
        std::mem::swap(&mut taken, self);
        proof {
            use_type_invariant(&taken);
            lemma_first_with_id_in_range(taken.configs@, id@);
        }
        let DownloaderManager { mut configs, mut items } = taken;
        let r = match remove_config(&mut configs, id) {
            Some(i) => {
                items.remove(i);
                true
            },
            None => false,
        };
        *self = DownloaderManager { configs, items };
        r
    }
}

} // verus!

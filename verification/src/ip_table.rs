//! Prefix tables: `ip_network_table::IpNetworkTable` behind trusted wrappers,
//! and `NetMap`, a verified map from networks to values built on it.

use vstd::prelude::*;
use ip_network::{Ipv4Network, Ipv6Network};
use ip_network_table::IpNetworkTable;
use crate::ip::{IpAddress, Network};

verus! {

#[verifier::external_type_specification]
#[verifier::external_body]
#[verifier::reject_recursive_types(T)]
pub struct ExIpNetworkTable<T>(IpNetworkTable<T>);

/// The networks held by a table, each with its value.
pub uninterp spec fn table_entries(t: IpNetworkTable<usize>) -> Map<Network, usize>;

/// `IpNetworkTable::new`: an empty table.
#[verifier::external_body]
fn table_new() -> (r: IpNetworkTable<usize>)
    ensures
        forall|n: Network| !table_entries(r).dom().contains(n),
{
    IpNetworkTable::new()
}

/// `IpNetworkTable::insert`: sets the value of a network and gives back the
/// value it held before.
#[verifier::external_body]
fn table_insert(t: &mut IpNetworkTable<usize>, n: Network, v: usize) -> (r: Option<usize>)
    requires
        n.wf(),
    ensures
        table_entries(*final(t)) == table_entries(*old(t)).insert(n, v),
        r == (if table_entries(*old(t)).dom().contains(n) {
            Some(table_entries(*old(t))[n])
        } else {
            None
        }),
{
    match n.addr {
        IpAddress::V4(a) => t.insert(Ipv4Network::new(a.into(), n.prefix).unwrap(), v),
        IpAddress::V6(a) => t.insert(Ipv6Network::new(a.into(), n.prefix).unwrap(), v),
    }
}

/// `IpNetworkTable::remove`: removes a network (exact match) and gives back its value.
#[verifier::external_body]
fn table_remove(t: &mut IpNetworkTable<usize>, n: Network) -> (r: Option<usize>)
    requires
        n.wf(),
    ensures
        table_entries(*final(t)) == table_entries(*old(t)).remove(n),
        r == (if table_entries(*old(t)).dom().contains(n) {
            Some(table_entries(*old(t))[n])
        } else {
            None
        }),
{
    match n.addr {
        IpAddress::V4(a) => t.remove(Ipv4Network::new(a.into(), n.prefix).unwrap()),
        IpAddress::V6(a) => t.remove(Ipv6Network::new(a.into(), n.prefix).unwrap()),
    }
}

/// `IpNetworkTable::exact_match`: the value of exactly this network.
#[verifier::external_body]
fn table_exact(t: &IpNetworkTable<usize>, n: Network) -> (r: Option<usize>)
    requires
        n.wf(),
    ensures
        r == (if table_entries(*t).dom().contains(n) {
            Some(table_entries(*t)[n])
        } else {
            None
        }),
{
    match n.addr {
        IpAddress::V4(a) => t.exact_match(Ipv4Network::new(a.into(), n.prefix).unwrap()).copied(),
        IpAddress::V6(a) => t.exact_match(Ipv6Network::new(a.into(), n.prefix).unwrap()).copied(),
    }
}

/// `n` is the most specific network of `d` that contains `ip`.
pub open spec fn is_longest_match(d: Set<Network>, ip: IpAddress, n: Network) -> bool {
    &&& d.contains(n)
    &&& n.contains_spec(ip)
    &&& forall|k: Network| #[trigger] d.contains(k) && k.contains_spec(ip) ==> k.prefix
        <= n.prefix
}

/// No network of `d` contains `ip`.
pub open spec fn no_match(d: Set<Network>, ip: IpAddress) -> bool {
    forall|k: Network| #[trigger] d.contains(k) ==> !k.contains_spec(ip)
}

/// `IpNetworkTable::longest_match`: the most specific network that contains
/// `ip`, with its value, or `None` when no network contains it.
#[verifier::external_body]
fn table_longest_match(t: &IpNetworkTable<usize>, ip: IpAddress) -> (r: Option<(Network, usize)>)
    ensures
        match r {
            Some((n, v)) => is_longest_match(table_entries(*t).dom(), ip, n)
                && table_entries(*t)[n] == v,
            None => no_match(table_entries(*t).dom(), ip),
        },
{
    match ip {
        IpAddress::V4(a) => t.longest_match_ipv4(a.into()).map(|(n, v)| (Network {
            addr: IpAddress::V4(u32::from(n.network_address())),
            prefix: n.netmask(),
        }, *v)),
        IpAddress::V6(a) => t.longest_match_ipv6(a.into()).map(|(n, v)| (Network {
            addr: IpAddress::V6(u128::from(n.network_address())),
            prefix: n.netmask(),
        }, *v)),
    }
}

/// `IpNetworkTable::iter`: every network of the table once, with its value;
/// the IPv4 networks come before the IPv6 ones.
#[verifier::external_body]
fn table_iter(t: &IpNetworkTable<usize>) -> (r: Vec<(Network, usize)>)
    ensures
        forall|i: int| 0 <= i < r@.len() ==> #[trigger] table_entries(*t).dom().contains(r@[i].0)
            && table_entries(*t)[r@[i].0] == r@[i].1,
        forall|n: Network| #[trigger] table_entries(*t).dom().contains(n) ==> exists|i: int|
            0 <= i < r@.len() && r@[i].0 == n,
        forall|i: int, j: int| 0 <= i < j < r@.len() ==> r@[i].0 != r@[j].0,
        forall|i: int, j: int| 0 <= i < j < r@.len() && (r@[i].0.addr is V6) ==> (r@[j].0.addr is V6),
{
    t.iter().map(|(n, v)| (Network {
        addr: match n {
            ip_network::IpNetwork::V4(m) => IpAddress::V4(u32::from(m.network_address())),
            ip_network::IpNetwork::V6(m) => IpAddress::V6(u128::from(m.network_address())),
        },
        prefix: n.netmask(),
    }, *v)).collect()
}

/// A map from networks to values: a prefix table that finds the most specific
/// network of an address, holding for each network the position of its value.
pub struct NetMap<V> {
    table: IpNetworkTable<usize>,
    entries: Vec<(Network, V)>,
}

impl<V> NetMap<V> {
    /// The networks in the order of the positions.
    pub closed spec fn keys(&self) -> Seq<Network> {
        self.entries@.map_values(|e: (Network, V)| e.0)
    }

    /// The table and the positions agree, one to one, and every network is canonical.
    pub closed spec fn wf(&self) -> bool {
        &&& forall|n: Network| #[trigger]
            table_entries(self.table).dom().contains(n) ==> n.wf() && table_entries(self.table)[n]
                < self.entries@.len() && self.entries@[table_entries(self.table)[n] as int].0 == n
        &&& forall|k: int|
            0 <= k < self.entries@.len() ==> #[trigger] table_entries(self.table).dom().contains(
                self.entries@[k].0,
            ) && table_entries(self.table)[self.entries@[k].0] == k
    }

    /// The map from each network to its value.
    pub closed spec fn view(&self) -> Map<Network, V> {
        Map::new(
            |n: Network| table_entries(self.table).dom().contains(n),
            |n: Network| self.entries@[table_entries(self.table)[n] as int].1,
        )
    }

    /// Every network of a well-formed map is canonical, and there are finitely many.
    pub proof fn lemma_wf_keys(&self)
        requires
            self.wf(),
        ensures
            forall|n: Network| #[trigger] self.view().dom().contains(n) ==> n.wf(),
            self.view().dom().finite(),
            self.view().dom() == self.keys().to_set(),
    {
        assert forall|n: Network| #[trigger] self.view().dom().contains(n) == self.keys().to_set().contains(n) by {
            if self.view().dom().contains(n) {
                assert(self.keys()[table_entries(self.table)[n] as int] == n);
            }
            if self.keys().to_set().contains(n) {
                let k = choose|k: int| 0 <= k < self.keys().len() && self.keys()[k] == n;
                assert(self.entries@[k].0 == n);
            }
        }
        assert(self.view().dom() =~= self.keys().to_set());
    }

    /// An empty map.
    pub fn new() -> (r: Self)
        ensures
            r.wf(),
            r.view() == Map::<Network, V>::empty(),
    {
        let r = NetMap { table: table_new(), entries: Vec::new() };
        assert(r.view() =~= Map::<Network, V>::empty());
        r
    }

    /// Sets the value of network `n`.
    #[verifier::spinoff_prover]
    pub fn insert(&mut self, n: Network, v: V)
        requires
            old(self).wf(),
            n.wf(),
        ensures
            final(self).wf(),
            final(self).view() == old(self).view().insert(n, v),
    {
        let ghost old_self = *self;
        match table_exact(&self.table, n) {
            Some(i) => {
                assert(old_self.entries@[i as int].0 == n);
                self.entries.set(i, (n, v));
                assert forall|m: Network| #[trigger] table_entries(self.table).dom().contains(m)
                    implies m.wf() && table_entries(self.table)[m] < self.entries@.len()
                    && self.entries@[table_entries(self.table)[m] as int].0 == m by {
                    assert(table_entries(old_self.table).dom().contains(m));
                }
                assert forall|k: int| 0 <= k < self.entries@.len() implies #[trigger]
                    table_entries(self.table).dom().contains(self.entries@[k].0)
                    && table_entries(self.table)[self.entries@[k].0] == k by {
                    assert(table_entries(old_self.table).dom().contains(old_self.entries@[k].0));
                }
                assert(self.view() =~= old_self.view().insert(n, v));
                assert(self.wf());
            },
            None => {
                let i = self.entries.len();
                self.entries.push((n, v));
                table_insert(&mut self.table, n, i);
                assert forall|m: Network| #[trigger] table_entries(self.table).dom().contains(m)
                    implies m.wf() && table_entries(self.table)[m] < self.entries@.len()
                    && self.entries@[table_entries(self.table)[m] as int].0 == m by {
                    if m != n {
                        assert(table_entries(old_self.table).dom().contains(m));
                    }
                }
                assert forall|k: int| 0 <= k < self.entries@.len() implies #[trigger]
                    table_entries(self.table).dom().contains(self.entries@[k].0) && table_entries(self.table)[self.entries@[k].0]
                    == k by {
                    if k < i {
                        assert(old_self.entries@[k].0 != n);
                    }
                }
                assert(self.view() =~= old_self.view().insert(n, v));
                assert(self.wf());
            },
        }
    }

    /// Removes network `n` (exact match), giving back its value.
    #[verifier::spinoff_prover]
    pub fn remove(&mut self, n: Network) -> (r: Option<V>)
        requires
            old(self).wf(),
            n.wf(),
        ensures
            final(self).wf(),
            final(self).view() == old(self).view().remove(n),
            r == (if old(self).view().dom().contains(n) {
                Some(old(self).view()[n])
            } else {
                None
            }),
    {
        let ghost old_self = *self;
        match table_remove(&mut self.table, n) {
            None => {
                assert(self.view() =~= old_self.view().remove(n));
                assert(self.wf());
                None
            },
            Some(i) => {
                let last = self.entries.len() - 1;
                let (_, v) = self.entries.swap_remove(i);
                if (i) < last {
                    let moved = self.entries[i].0;
                    assert(table_entries(old_self.table).dom().contains(moved));
                    table_insert(&mut self.table, moved, i);
                }
                assert forall|k: int| 0 <= k < self.entries@.len() implies #[trigger]
                    table_entries(self.table).dom().contains(self.entries@[k].0) && table_entries(self.table)[self.entries@[k].0]
                    == k by {
                    if k != i {
                        assert(old_self.entries@[k] == self.entries@[k]);
                        assert(table_entries(old_self.table).dom().contains(old_self.entries@[k].0));
                    }
                }
                assert(self.view() =~= old_self.view().remove(n));
                assert(self.wf());
                Some(v)
            },
        }
    }

    /// The value of exactly network `n`.
    pub fn get(&self, n: Network) -> (r: Option<&V>)
        requires
            self.wf(),
            n.wf(),
        ensures
            r == (if self.view().dom().contains(n) {
                Some(&self.view()[n])
            } else {
                None
            }),
    {
        match table_exact(&self.table, n) {
            Some(i) => Some(&self.entries[i].1),
            None => None,
        }
    }

    /// The most specific network that contains `ip`, with its value.
    pub fn longest_match(&self, ip: IpAddress) -> (r: Option<(Network, &V)>)
        requires
            self.wf(),
        ensures
            match r {
                Some((n, v)) => is_longest_match(self.view().dom(), ip, n) && *v == self.view()[n],
                None => no_match(self.view().dom(), ip),
            },
    {
        match table_longest_match(&self.table, ip) {
            Some((n, i)) => Some((n, &self.entries[i].1)),
            None => None,
        }
    }

    /// The number of networks.
    pub fn len(&self) -> (r: usize)
        requires
            self.wf(),
        ensures
            r == self.view().dom().len(),
    {
        proof {
            self.lemma_wf_keys();
            assert forall|a: int, b: int| 0 <= a < b < self.keys().len() implies self.keys()[a]
                != self.keys()[b] by {
                assert(table_entries(self.table).dom().contains(self.entries@[a].0));
                assert(table_entries(self.table).dom().contains(self.entries@[b].0));
            }
            self.keys().unique_seq_to_set();
        }
        self.entries.len()
    }

    /// Every network once, in the order of the prefix table (IPv4 first).
    pub fn ordered_keys(&self) -> (r: Vec<Network>)
        requires
            self.wf(),
        ensures
            r@.no_duplicates(),
            r@.to_set() == self.view().dom(),
            forall|i: int, j: int| 0 <= i < j < r@.len() && (r@[i].addr is V6) ==> (r@[j].addr is V6),
    {
        let items = table_iter(&self.table);
        let mut r: Vec<Network> = Vec::new();
        let mut i: usize = 0;
        while i < items.len()
            invariant
                i <= items@.len(),
                r@ == items@.subrange(0, i as int).map_values(|e: (Network, usize)| e.0),
            decreases items@.len() - i,
        {
            r.push(items[i].0);
            i += 1;
            assert(r@ =~= items@.subrange(0, i as int).map_values(|e: (Network, usize)| e.0));
        }
        assert(items@.subrange(0, i as int) =~= items@);
        assert forall|n: Network| r@.to_set().contains(n) == self.view().dom().contains(n) by {
            if self.view().dom().contains(n) {
                let j = choose|j: int| 0 <= j < items@.len() && items@[j].0 == n;
                assert(r@[j] == n);
            }
            if r@.to_set().contains(n) {
                let j = choose|j: int| 0 <= j < r@.len() && r@[j] == n;
                assert(items@[j].0 == n);
            }
        }
        assert(r@.to_set() =~= self.view().dom());
        r
    }
}

} // verus!

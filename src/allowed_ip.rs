//! A longest-prefix table from IPv4 prefixes to values, kept in
//! `ip_network_table`'s trie.
use vstd::prelude::*;

use ip_network::Ipv4Network;
use ip_network_table::IpNetworkTable;

verus! {

/// Values keyed by (network address, prefix length).
pub type PrefixMap = Map<(u32, u8), u32>;

/// The mask of the first `cidr` bits of an address (`cidr <= 32`).
pub open spec fn prefix_mask(cidr: u8) -> u32 {
    if cidr == 0 {
        0u32
    } else {
        0xffff_ffffu32 << ((32 - cidr) as u32)
    }
}

/// The network address of the prefix of length `cidr` that covers `addr`.
pub open spec fn prefix_of(addr: u32, cidr: u8) -> u32 {
    addr & prefix_mask(cidr)
}

/// Whether the table entry `(net, cidr)` covers `addr`.
pub open spec fn covers(net: u32, cidr: u8, addr: u32) -> bool {
    prefix_of(addr, cidr) == net
}

/// A table key: a prefix length of at most 32 and a network address with no
/// bits past it.
pub open spec fn valid_key(k: (u32, u8)) -> bool {
    k.1 <= 32 && prefix_of(k.0, k.1) == k.0
}

/// The longest prefix length `c <= k` whose prefix of `addr` is a key of `m`.
pub open spec fn longest_prefix(m: PrefixMap, addr: u32, k: nat) -> Option<u8>
    decreases k,
{
    if m.contains_key((prefix_of(addr, k as u8), k as u8)) {
        Some(k as u8)
    } else if k == 0 {
        None
    } else {
        longest_prefix(m, addr, (k - 1) as nat)
    }
}

/// A longest match is an entry of the table.
pub proof fn lemma_longest_prefix_found(m: PrefixMap, addr: u32, k: nat)
    ensures
        longest_prefix(m, addr, k) matches Some(c) ==> m.contains_key((prefix_of(addr, c), c)),
    decreases k,
{
    if !m.contains_key((prefix_of(addr, k as u8), k as u8)) && k > 0 {
        lemma_longest_prefix_found(m, addr, (k - 1) as nat);
    }
}

/// The value of the longest prefix in `m` that covers `addr`.
pub open spec fn lookup(m: PrefixMap, addr: u32) -> Option<u32> {
    match longest_prefix(m, addr, 32) {
        Some(c) => Some(m[(prefix_of(addr, c), c)]),
        None => None,
    }
}

#[verifier::external_type_specification]
#[verifier::external_body]
#[verifier::reject_recursive_types(T)]
pub struct ExIpNetworkTable<T>(IpNetworkTable<T>);

/// The IPv4 entries of a table, keyed by network address and prefix length.
pub uninterp spec fn table_entries(t: IpNetworkTable<u32>) -> Map<(u32, u8), u32>;

/// Relies on `IpNetworkTable::new`: a table with no entries.
#[verifier::external_body]
fn table_new() -> (r: IpNetworkTable<u32>)
    ensures
        table_entries(r) == PrefixMap::empty(),
{
    IpNetworkTable::new()
}

/// Relies on `Ipv4Network::new_truncate` (clears the bits past `cidr`, fails
/// only for `cidr > 32`) and `IpNetworkTable::insert` (sets the entry of that
/// network, returning the value it replaced).
#[verifier::external_body]
fn table_insert(t: &mut IpNetworkTable<u32>, addr: u32, cidr: u8, v: u32) -> (r: Option<u32>)
    requires
        cidr <= 32,
    ensures
        table_entries(*final(t)) == table_entries(*old(t)).insert((prefix_of(addr, cidr), cidr), v),
        r == (if table_entries(*old(t)).contains_key((prefix_of(addr, cidr), cidr)) {
            Some(table_entries(*old(t))[(prefix_of(addr, cidr), cidr)])
        } else {
            None
        }),
{
    t.insert(Ipv4Network::new_truncate(addr.into(), cidr).unwrap(), v)
}

/// Relies on `Ipv4Network::new_truncate` and `IpNetworkTable::remove`: drops
/// the entry of that network, returning its value.
#[verifier::external_body]
fn table_remove(t: &mut IpNetworkTable<u32>, addr: u32, cidr: u8) -> (r: Option<u32>)
    requires
        cidr <= 32,
    ensures
        table_entries(*final(t)) == table_entries(*old(t)).remove((prefix_of(addr, cidr), cidr)),
        r == (if table_entries(*old(t)).contains_key((prefix_of(addr, cidr), cidr)) {
            Some(table_entries(*old(t))[(prefix_of(addr, cidr), cidr)])
        } else {
            None
        }),
{
    t.remove(Ipv4Network::new_truncate(addr.into(), cidr).unwrap())
}

/// Relies on `IpNetworkTable::longest_match_ipv4`: the most specific network
/// in the table that contains `addr`, with its value.
#[verifier::external_body]
fn table_longest_match(t: &IpNetworkTable<u32>, addr: u32) -> (r: Option<(u32, u8, u32)>)
    ensures
        r == (match longest_prefix(table_entries(*t), addr, 32) {
            Some(c) => Some((prefix_of(addr, c), c, table_entries(*t)[(prefix_of(addr, c), c)])),
            None => None,
        }),
{
    t.longest_match_ipv4(addr.into()).map(|(n, v)| (u32::from(n.network_address()), n.netmask(), *v))
}

/// Relies on `IpNetworkTable::iter_ipv4`: every IPv4 entry once, in no
/// promised order, each as an `Ipv4Network` (which has no bits set past its
/// netmask).
#[verifier::external_body]
fn table_list(t: &IpNetworkTable<u32>) -> (r: Vec<(u32, u8, u32)>)
    ensures
        forall|i: int| 0 <= i < r@.len() ==> valid_key((#[trigger] r@[i].0, r@[i].1)),
        forall|i: int|
            0 <= i < r@.len() ==> #[trigger] table_entries(*t).contains_key((r@[i].0, r@[i].1))
                && table_entries(*t)[(r@[i].0, r@[i].1)] == r@[i].2,
        forall|k: (u32, u8)|
            #[trigger] table_entries(*t).contains_key(k) ==> exists|i: int|
                0 <= i < r@.len() && r@[i].0 == k.0 && r@[i].1 == k.1,
        forall|i: int, j: int|
            0 <= i < j < r@.len() ==> (#[trigger] r@[i].0, r@[i].1) != (#[trigger] r@[j].0, r@[j].1),
{
    t.iter_ipv4().map(|(n, v)| (u32::from(n.network_address()), n.netmask(), *v)).collect()
}

/// A trie of IPv4 prefixes, each mapped to a value.
pub struct AllowedIps {
    ips: IpNetworkTable<u32>,
}

impl View for AllowedIps {
    type V = Map<(u32, u8), u32>;

    closed spec fn view(&self) -> Map<(u32, u8), u32> {
        table_entries(self.ips)
    }
}

impl AllowedIps {
    pub fn new() -> (r: Self)
        ensures
            r@ == PrefixMap::empty(),
    {
        AllowedIps { ips: table_new() }
    }

    pub fn clear(&mut self)
        ensures
            final(self)@ == PrefixMap::empty(),
    {
        self.ips = table_new();
    }

    /// Stores `data` under the prefix of length `cidr` that covers `key`;
    /// returns the value it replaced.
    pub fn insert(&mut self, key: u32, cidr: u8, data: u32) -> (r: Option<u32>)
        requires
            cidr <= 32,
        ensures
            final(self)@ == old(self)@.insert((prefix_of(key, cidr), cidr), data),
            r == (if old(self)@.contains_key((prefix_of(key, cidr), cidr)) {
                Some(old(self)@[(prefix_of(key, cidr), cidr)])
            } else {
                None
            }),
    {
        table_insert(&mut self.ips, key, cidr, data)
    }

    /// Deletes every entry whose value satisfies `predicate`.
    pub fn remove<F: Fn(u32) -> bool>(&mut self, predicate: F)
        requires
            forall|v: u32| predicate.requires((v,)),
        ensures
            forall|k: (u32, u8)|
                #[trigger] final(self)@.contains_key(k) ==> old(self)@.contains_key(k) && final(self)@[k]
                    == old(self)@[k] && predicate.ensures((old(self)@[k],), false),
            forall|k: (u32, u8)|
                #[trigger] old(self)@.contains_key(k) && !final(self)@.contains_key(k)
                    ==> predicate.ensures((old(self)@[k],), true),
    {
        let list = table_list(&self.ips);
        let ghost start = self@;
        let mut i: usize = 0;
        while i < list.len()
            invariant
                i <= list@.len(),
                start == old(self)@,
                forall|v: u32| predicate.requires((v,)),
                forall|j: int| 0 <= j < list@.len() ==> valid_key((#[trigger] list@[j].0, list@[j].1)),
                forall|j: int|
                    0 <= j < list@.len() ==> #[trigger] start.contains_key((list@[j].0, list@[j].1))
                        && start[(list@[j].0, list@[j].1)] == list@[j].2,
                forall|k: (u32, u8)|
                    #[trigger] start.contains_key(k) ==> exists|j: int|
                        #![trigger list@[j]]
                        0 <= j < list@.len() && list@[j].0 == k.0 && list@[j].1 == k.1,
                forall|a: int, b: int|
                    0 <= a < b < list@.len() ==> (#[trigger] list@[a].0, list@[a].1) != (
                    #[trigger] list@[b].0,
                    list@[b].1,
                ),
                forall|k: (u32, u8)|
                    #[trigger] self@.contains_key(k) ==> start.contains_key(k) && self@[k] == start[k],
                forall|k: (u32, u8)|
                    #[trigger] start.contains_key(k) && !self@.contains_key(k) ==> predicate.ensures(
                        (start[k],),
                        true,
                    ),
                forall|j: int|
                    0 <= j < i && #[trigger] self@.contains_key((list@[j].0, list@[j].1))
                        ==> predicate.ensures((list@[j].2,), false),
                forall|j: int| i <= j < list@.len() ==> #[trigger] self@.contains_key((list@[j].0, list@[j].1)),
            decreases list@.len() - i,
        {
            let (net, cidr, v) = list[i];
            let ghost before = self@;
            assert(valid_key((list@[i as int].0, list@[i as int].1)));
            if predicate(v) {
                table_remove(&mut self.ips, net, cidr);
                assert forall|j: int| i < j < list@.len() implies #[trigger] self@.contains_key(
                    (list@[j].0, list@[j].1),
                ) by {
                    assert(before.contains_key((list@[j].0, list@[j].1)));
                    assert((list@[i as int].0, list@[i as int].1) != (list@[j].0, list@[j].1));
                }
            }
            i = i + 1;
        }
        assert forall|k: (u32, u8)| #[trigger] self@.contains_key(k) implies predicate.ensures(
            (start[k],),
            false,
        ) by {
            let j = choose|j: int|
                #![trigger list@[j]]
                0 <= j < list@.len() && list@[j].0 == k.0 && list@[j].1 == k.1;
            assert(self@.contains_key((list@[j].0, list@[j].1)));
        }
    }

    /// The value of the longest prefix that covers `key`.
    pub fn get(&self, key: u32) -> (r: Option<u32>)
        ensures
            r == lookup(self@, key),
    {
        match table_longest_match(&self.ips, key) {
            Some((_net, _cidr, v)) => Some(v),
            None => None,
        }
    }

    /// The entries as (value, network address, prefix length), each once.
    pub fn iter(&self) -> (r: Iter)
        ensures
            r.pos == 0,
            forall|i: int| 0 <= i < r.items@.len() ==> valid_key((#[trigger] r.items@[i].1, r.items@[i].2)),
            forall|i: int|
                0 <= i < r.items@.len() ==> #[trigger] self@.contains_key((r.items@[i].1, r.items@[i].2))
                    && self@[(r.items@[i].1, r.items@[i].2)] == r.items@[i].0,
            forall|k: (u32, u8)|
                #[trigger] self@.contains_key(k) ==> exists|i: int|
                    #![trigger r.items@[i]]
                    0 <= i < r.items@.len() && r.items@[i].1 == k.0 && r.items@[i].2 == k.1,
            forall|i: int, j: int|
                0 <= i < j < r.items@.len() ==> (#[trigger] r.items@[i].1, r.items@[i].2) != (
                #[trigger] r.items@[j].1,
                r.items@[j].2,
            ),
    {
        let list = table_list(&self.ips);
        let mut items: Vec<(u32, u32, u8)> = Vec::new();
        let mut i: usize = 0;
        while i < list.len()
            invariant
                i <= list@.len(),
                items@.len() == i,
                forall|j: int|
                    0 <= j < i ==> #[trigger] items@[j] == (list@[j].2, list@[j].0, list@[j].1),
            decreases list@.len() - i,
        {
            let (net, cidr, v) = list[i];
            items.push((v, net, cidr));
            i = i + 1;
        }
        assert forall|k: (u32, u8)| #[trigger] self@.contains_key(k) implies exists|j: int|
            #![trigger items@[j]]
            0 <= j < items@.len() && items@[j].1 == k.0 && items@[j].2 == k.1 by {
            let j = choose|j: int| 0 <= j < list@.len() && list@[j].0 == k.0 && list@[j].1 == k.1;
            assert(items@[j] == (list@[j].2, list@[j].0, list@[j].1));
        }
        assert forall|a: int, b: int| 0 <= a < b < items@.len() implies (
        #[trigger] items@[a].1,
        items@[a].2,
        ) != (#[trigger] items@[b].1, items@[b].2) by {
            assert(items@[a] == (list@[a].2, list@[a].0, list@[a].1));
            assert(items@[b] == (list@[b].2, list@[b].0, list@[b].1));
        }
        assert forall|j: int| 0 <= j < items@.len() implies #[trigger] self@.contains_key(
            (items@[j].1, items@[j].2),
        ) && self@[(items@[j].1, items@[j].2)] == items@[j].0 by {
            assert(items@[j] == (list@[j].2, list@[j].0, list@[j].1));
        }
        let r = Iter { items, pos: 0 };
        assert forall|k: (u32, u8)| #[trigger] self@.contains_key(k) implies exists|i: int|
            #![trigger r.items@[i]]
            0 <= i < r.items@.len() && r.items@[i].1 == k.0 && r.items@[i].2 == k.1 by {
            let j = choose|j: int|
                #![trigger items@[j]]
                0 <= j < items@.len() && items@[j].1 == k.0 && items@[j].2 == k.1;
            assert(r.items@[j] == items@[j]);
        }
        r
    }
}

/// The entries of a table, handed out one at a time.
pub struct Iter {
    pub items: Vec<(u32, u32, u8)>,
    pub pos: usize,
}

impl Iter {
    /// The next (value, network address, prefix length), if any is left.
    pub fn next(&mut self) -> (r: Option<(u32, u32, u8)>)
        ensures
            final(self).items == old(self).items,
            if old(self).pos < old(self).items@.len() {
                r == Some(old(self).items@[old(self).pos as int]) && final(self).pos == old(self).pos + 1
            } else {
                r is None && final(self).pos == old(self).pos
            },
    {
        if self.pos < self.items.len() {
            let item = self.items[self.pos];
            self.pos = self.pos + 1;
            Some(item)
        } else {
            None
        }
    }
}

/// When `m` has an entry of length `c` covering `addr` and none longer up to
/// `k`, that entry is the longest match up to `k`.
proof fn lemma_longest_is(m: PrefixMap, addr: u32, c: u8, k: nat)
    requires
        c <= k <= 32,
        m.contains_key((prefix_of(addr, c), c)),
        forall|c2: u8| c < c2 <= k ==> !m.contains_key((#[trigger] prefix_of(addr, c2), c2)),
    ensures
        longest_prefix(m, addr, k) == Some(c),
    decreases k,
{
    if k > c {
        assert(!m.contains_key((prefix_of(addr, k as u8), k as u8)));
        lemma_longest_is(m, addr, c, (k - 1) as nat);
    }
}

/// Inserting `v` under the prefix of `key` of length `cidr` and then looking
/// up an address inside that prefix gives `v`, provided the table holds no
/// longer prefix covering the address.
pub proof fn lemma_get_after_insert(m: PrefixMap, key: u32, cidr: u8, v: u32, addr: u32)
    requires
        cidr <= 32,
        covers(prefix_of(key, cidr), cidr, addr),
        forall|c: u8| cidr < c <= 32 ==> !m.contains_key((#[trigger] prefix_of(addr, c), c)),
    ensures
        lookup(m.insert((prefix_of(key, cidr), cidr), v), addr) == Some(v),
{
    let m2 = m.insert((prefix_of(key, cidr), cidr), v);
    assert forall|c: u8| cidr < c <= 32 implies !m2.contains_key((#[trigger] prefix_of(addr, c), c)) by {}
    lemma_longest_is(m2, addr, cidr, 32);
}

/// Of two nested prefixes, the inner one `(key1, cidr1)` inside the outer one
/// `(key2, cidr2)`, an address inside the inner one looks up the inner one's
/// value, in whichever order the two were inserted (provided the table holds
/// no still longer prefix covering the address).
pub proof fn lemma_longest_prefix_wins(
    m: PrefixMap,
    key1: u32,
    cidr1: u8,
    v1: u32,
    key2: u32,
    cidr2: u8,
    v2: u32,
    addr: u32,
)
    requires
        cidr2 < cidr1 <= 32,
        prefix_of(key1, cidr2) == prefix_of(key2, cidr2),
        covers(prefix_of(key1, cidr1), cidr1, addr),
        forall|c: u8| cidr1 < c <= 32 ==> !m.contains_key((#[trigger] prefix_of(addr, c), c)),
    ensures
        lookup(
            m.insert((prefix_of(key2, cidr2), cidr2), v2).insert((prefix_of(key1, cidr1), cidr1), v1),
            addr,
        ) == Some(v1),
        lookup(
            m.insert((prefix_of(key1, cidr1), cidr1), v1).insert((prefix_of(key2, cidr2), cidr2), v2),
            addr,
        ) == Some(v1),
{
    let inner_key = (prefix_of(key1, cidr1), cidr1);
    let outer_key = (prefix_of(key2, cidr2), cidr2);
    let outer_first = m.insert(outer_key, v2);
    lemma_get_after_insert(outer_first, key1, cidr1, v1, addr);
    let inner_first = m.insert(inner_key, v1).insert(outer_key, v2);
    assert(inner_first.contains_key(inner_key) && inner_first[inner_key] == v1);
    assert forall|c: u8| cidr1 < c <= 32 implies !inner_first.contains_key(
        (#[trigger] prefix_of(addr, c), c),
    ) by {}
    lemma_longest_is(inner_first, addr, cidr1, 32);
}

} // verus!

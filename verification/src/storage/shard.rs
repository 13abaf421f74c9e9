//! One partition of the key space.
//!
//! A shard keeps its entries in a list in which no key occurs twice, and
//! beside the list a hash index from each key to its place in the list: the
//! index answers lookups, the list gives the entries an order to be walked
//! and written out in. The shard's model is the map from key to entry that
//! the list spells out.

use crate::storage::types::{KvEntry, KvEntryView};
use vstd::hash_map::StringHashMap;
use vstd::prelude::*;

verus! {

/// A key with its entry, as plain data.
pub struct PairView {
    pub key: Seq<char>,
    pub entry: KvEntryView,
}

/// The map that a list of pairs spells out; where a key occurs twice the
/// later pair counts.
pub open spec fn pairs_map(pairs: Seq<PairView>) -> Map<Seq<char>, KvEntryView>
    decreases pairs.len(),
{
    if pairs.len() == 0 {
        Map::empty()
    } else {
        pairs_map(pairs.drop_last()).insert(pairs.last().key, pairs.last().entry)
    }
}

/// No key occurs twice in the list.
pub open spec fn distinct_keys(pairs: Seq<PairView>) -> bool {
    forall|i: int, j: int|
        0 <= i < pairs.len() && 0 <= j < pairs.len() && i != j ==> pairs[i].key != pairs[j].key
}

/// What the map of a list without repeated keys holds: exactly the list's
/// keys, each with its entry, and as many keys as the list is long.
pub proof fn lemma_pairs_map(pairs: Seq<PairView>)
    requires
        distinct_keys(pairs),
    ensures
        forall|i: int|
            0 <= i < pairs.len() ==> pairs_map(pairs).contains_key(#[trigger] pairs[i].key)
                && pairs_map(pairs)[pairs[i].key] == pairs[i].entry,
        forall|k: Seq<char>|
            pairs_map(pairs).contains_key(k) ==> exists|i: int|
                0 <= i < pairs.len() && #[trigger] pairs[i].key == k,
        pairs_map(pairs).dom().finite(),
        pairs_map(pairs).len() == pairs.len(),
    decreases pairs.len(),
{
    if pairs.len() > 0 {
        let front = pairs.drop_last();
        let last = pairs.last();
        assert forall|i: int, j: int|
            0 <= i < front.len() && 0 <= j < front.len() && i != j implies front[i].key
            != front[j].key by {
            assert(front[i] == pairs[i] && front[j] == pairs[j]);
        }
        lemma_pairs_map(front);
        assert forall|i: int| 0 <= i < pairs.len() implies pairs_map(pairs).contains_key(
            #[trigger] pairs[i].key,
        ) && pairs_map(pairs)[pairs[i].key] == pairs[i].entry by {
            if i < front.len() {
                assert(front[i] == pairs[i]);
                assert(pairs[i].key != pairs[pairs.len() - 1].key);
            }
        }
        assert forall|k: Seq<char>| pairs_map(pairs).contains_key(k) implies exists|i: int|
            0 <= i < pairs.len() && #[trigger] pairs[i].key == k by {
            if k == last.key {
                assert(pairs[pairs.len() - 1].key == k);
            } else {
                let i = choose|i: int| 0 <= i < front.len() && #[trigger] front[i].key == k;
                assert(pairs[i].key == k);
            }
        }
        if pairs_map(front).contains_key(last.key) {
            let i = choose|i: int| 0 <= i < front.len() && #[trigger] front[i].key == last.key;
            assert(pairs[i].key == pairs[pairs.len() - 1].key);
        }
    }
}

/// A map is the map of a list once it holds exactly the list's keys with
/// their entries.
pub proof fn lemma_map_by_keys(pairs: Seq<PairView>, m: Map<Seq<char>, KvEntryView>)
    requires
        distinct_keys(pairs),
        forall|i: int|
            0 <= i < pairs.len() ==> m.contains_key(#[trigger] pairs[i].key) && m[pairs[i].key]
                == pairs[i].entry,
        forall|k: Seq<char>|
            m.contains_key(k) ==> exists|i: int|
                0 <= i < pairs.len() && #[trigger] pairs[i].key == k,
    ensures
        pairs_map(pairs) == m,
{
    lemma_pairs_map(pairs);
    assert forall|k: Seq<char>| pairs_map(pairs).contains_key(k) implies m.contains_key(k) by {
        let i = choose|i: int| 0 <= i < pairs.len() && #[trigger] pairs[i].key == k;
        assert(m.contains_key(pairs[i].key));
    }
    assert forall|k: Seq<char>| m.contains_key(k) implies pairs_map(pairs).contains_key(k)
        && pairs_map(pairs)[k] == m[k] by {
        let i = choose|i: int| 0 <= i < pairs.len() && #[trigger] pairs[i].key == k;
        assert(pairs_map(pairs).contains_key(pairs[i].key));
    }
    assert(pairs_map(pairs) =~= m);
}

struct Slot {
    key: String,
    entry: KvEntry,
}

impl View for Slot {
    type V = PairView;

    closed spec fn view(&self) -> PairView {
        PairView { key: self.key@, entry: self.entry@ }
    }
}

spec fn slot_views(slots: Seq<Slot>) -> Seq<PairView> {
    Seq::new(slots.len(), |i: int| slots[i]@)
}

/// The index names, for every key of the list, the key's place, and names
/// nothing else.
spec fn indexed(slots: Seq<Slot>, index: Map<Seq<char>, usize>) -> bool {
    &&& forall|i: int|
        0 <= i < slots.len() ==> index.contains_key((#[trigger] slots[i]).key@)
            && index[slots[i].key@] == i
    &&& forall|k: Seq<char>| #[trigger]
        index.contains_key(k) ==> index[k] < slots.len() && slots[index[k] as int].key@ == k
}

/// A list with an index repeats no key.
proof fn lemma_indexed_distinct(slots: Seq<Slot>, index: Map<Seq<char>, usize>)
    requires
        indexed(slots, index),
    ensures
        distinct_keys(slot_views(slots)),
{
    let pairs = slot_views(slots);
    assert forall|i: int, j: int|
        0 <= i < pairs.len() && 0 <= j < pairs.len() && i != j implies pairs[i].key
        != pairs[j].key by {
        assert(index[slots[i].key@] == i);
        assert(index[slots[j].key@] == j);
    }
}

struct Table {
    slots: Vec<Slot>,
    index: StringHashMap<usize>,
}

impl Table {
    fn empty() -> (t: Self)
        ensures
            t.slots@ == Seq::<Slot>::empty(),
            t.index@ == Map::<Seq<char>, usize>::empty(),
    {
        Table { slots: Vec::new(), index: StringHashMap::new() }
    }
}

pub struct Shard {
    table: Table,
}

impl View for Shard {
    type V = Map<Seq<char>, KvEntryView>;

    closed spec fn view(&self) -> Map<Seq<char>, KvEntryView> {
        pairs_map(self.pairs())
    }
}

impl Shard {
    #[verifier::type_invariant]
    spec fn inv(self) -> bool {
        indexed(self.table.slots@, self.table.index@)
    }

    /// The entries in the order in which the shard walks them.
    pub closed spec fn pairs(&self) -> Seq<PairView> {
        slot_views(self.table.slots@)
    }

    /// The list and the map of a shard say the same.
    pub proof fn lemma_pairs(&self)
        ensures
            self@ == pairs_map(self.pairs()),
    {
    }

    pub fn new() -> (s: Self)
        ensures
            s@ == Map::<Seq<char>, KvEntryView>::empty(),
            s.pairs() == Seq::<PairView>::empty(),
    {
        let s = Shard { table: Table::empty() };
        assert(slot_views(s.table.slots@) =~= Seq::<PairView>::empty());
        s
    }

    /// Where `key` stands in the list, if it is there.
    fn find(&self, key: &str) -> (at: Option<usize>)
        ensures
            indexed(self.table.slots@, self.table.index@),
            distinct_keys(self.pairs()),
            match at {
                Some(i) => i < self.table.slots@.len() && self.table.slots@[i as int].key@ == key@,
                None => forall|j: int|
                    0 <= j < self.table.slots@.len() ==> self.table.slots@[j].key@ != key@,
            },
    {
        proof {
            use_type_invariant(self);
            lemma_indexed_distinct(self.table.slots@, self.table.index@);
        }
        match self.table.index.get(key) {
            Some(at) => Some(*at),
            None => {
                let ghost slots = self.table.slots@;
                assert forall|j: int| 0 <= j < slots.len() implies slots[j].key@ != key@ by {
                    assert(self.table.index@.contains_key(slots[j].key@));
                }
                None
            },
        }
    }

    /// A copy of the entry under `key`.
    pub fn get(&self, key: &str) -> (r: Option<KvEntry>)
        ensures
            match r {
                Some(e) => self@.contains_key(key@) && e@ == self@[key@],
                None => !self@.contains_key(key@),
            },
    {
        match self.find(key) {
            Some(i) => {
                proof {
                    lemma_pairs_map(self.pairs());
                    assert(self.pairs()[i as int].key == key@);
                }
                Some(self.table.slots[i].entry.clone())
            },
            None => {
                proof {
                    lemma_pairs_map(self.pairs());
                    assert forall|j: int| 0 <= j < self.pairs().len() implies self.pairs()[j].key
                        != key@ by {
                        assert(self.pairs()[j].key == self.table.slots@[j].key@);
                    }
                }
                None
            },
        }
    }

    /// Whether the shard holds `key`.
    pub fn exists_key(&self, key: &str) -> (r: bool)
        ensures
            r == self@.contains_key(key@),
            distinct_keys(self.pairs()),
    {
        match self.find(key) {
            Some(i) => {
                proof {
                    lemma_pairs_map(self.pairs());
                    assert(self.pairs()[i as int].key == key@);
                }
                true
            },
            None => {
                proof {
                    lemma_pairs_map(self.pairs());
                    assert forall|j: int| 0 <= j < self.pairs().len() implies self.pairs()[j].key
                        != key@ by {
                        assert(self.pairs()[j].key == self.table.slots@[j].key@);
                    }
                }
                false
            },
        }
    }

    /// The number of keys.
    pub fn len(&self) -> (n: usize)
        ensures
            n == self@.len(),
            n == self.pairs().len(),
            self@.dom().finite(),
            distinct_keys(self.pairs()),
    {
        proof {
            use_type_invariant(self);
            lemma_indexed_distinct(self.table.slots@, self.table.index@);
            lemma_pairs_map(self.pairs());
        }
        self.table.slots.len()
    }

    /// Stores `entry` under `key` and hands back the entry that was there.
    /// A key that is new goes to the end of the list.
    pub fn set(&mut self, key: String, entry: KvEntry) -> (r: Option<KvEntry>)
        ensures
            final(self)@ == old(self)@.insert(key@, entry@),
            distinct_keys(final(self).pairs()),
            match r {
                Some(e) => old(self)@.contains_key(key@) && e@ == old(self)@[key@],
                None => !old(self)@.contains_key(key@) && final(self).pairs() == old(
                    self,
                ).pairs().push(PairView { key: key@, entry: entry@ }),
            },
    {
        let ghost before = self.pairs();
        let ghost new_pair = PairView { key: key@, entry: entry@ };
        let found = self.find(key.as_str());
        proof {
            lemma_pairs_map(before);
        }
        let ghost slots0 = self.table.slots@;
        let ghost index0 = self.table.index@;
        let mut t = Table::empty();
        core::mem::swap(&mut self.table, &mut t);
        let r = match found {
            Some(i) => {
                t.slots.push(Slot { key, entry });
                let gone = t.slots.swap_remove(i);
                proof {
                    let after = slot_views(t.slots@);
                    assert(after =~= before.update(i as int, new_pair));
                    assert(before[i as int].key == new_pair.key);
                    assert forall|a: int| 0 <= a < t.slots@.len() implies t.slots@[a].key@
                        == slots0[a].key@ by {
                        assert(after[a].key == before[a].key);
                    }
                    assert(indexed(t.slots@, t.index@));
                    lemma_indexed_distinct(t.slots@, t.index@);
                    let m = pairs_map(before).insert(new_pair.key, new_pair.entry);
                    assert forall|a: int| 0 <= a < after.len() implies m.contains_key(
                        #[trigger] after[a].key,
                    ) && m[after[a].key] == after[a].entry by {
                        assert(after[a].key == before[a].key);
                        if a != i {
                            assert(before[a].key != before[i as int].key);
                        }
                    }
                    assert forall|k: Seq<char>| m.contains_key(k) implies exists|a: int|
                        0 <= a < after.len() && #[trigger] after[a].key == k by {
                        if k == new_pair.key {
                            assert(after[i as int].key == k);
                        } else {
                            let a = choose|a: int|
                                0 <= a < before.len() && #[trigger] before[a].key == k;
                            assert(after[a].key == k);
                        }
                    }
                    lemma_map_by_keys(after, m);
                    assert(gone@ == before[i as int]);
                }
                Some(gone.entry)
            },
            None => {
                let at: usize = t.slots.len();
                t.index.insert(key.clone(), at);
                t.slots.push(Slot { key, entry });
                proof {
                    let after = slot_views(t.slots@);
                    assert(after =~= before.push(new_pair));
                    assert(after.drop_last() =~= before);
                    assert forall|j: int| 0 <= j < before.len() implies before[j].key
                        != new_pair.key by {
                        assert(before[j].key == slots0[j].key@);
                    }
                    assert forall|a: int| 0 <= a < t.slots@.len() implies t.index@.contains_key(
                        (#[trigger] t.slots@[a]).key@,
                    ) && t.index@[t.slots@[a].key@] == a by {
                        if a < slots0.len() {
                            assert(t.slots@[a] == slots0[a]);
                            assert(before[a].key == slots0[a].key@);
                        }
                    }
                    assert forall|k: Seq<char>| #[trigger]
                        t.index@.contains_key(k) implies t.index@[k] < t.slots@.len()
                        && t.slots@[t.index@[k] as int].key@ == k by {
                        if k != new_pair.key {
                            assert(index0.contains_key(k));
                            assert(t.slots@[index0[k] as int] == slots0[index0[k] as int]);
                        }
                    }
                    lemma_indexed_distinct(t.slots@, t.index@);
                    if pairs_map(before).contains_key(new_pair.key) {
                        let a = choose|a: int|
                            0 <= a < before.len() && #[trigger] before[a].key == new_pair.key;
                        assert(false);
                    }
                }
                None
            },
        };
        core::mem::swap(&mut self.table, &mut t);
        r
    }

    /// Removes `key` and hands back the entry that was there. The entry
    /// that stood last in the list takes the place that falls free.
    pub fn del(&mut self, key: &str) -> (r: Option<KvEntry>)
        ensures
            final(self)@ == old(self)@.remove(key@),
            match r {
                Some(e) => old(self)@.contains_key(key@) && e@ == old(self)@[key@],
                None => !old(self)@.contains_key(key@),
            },
    {
        let ghost before = self.pairs();
        let found = self.find(key);
        proof {
            lemma_pairs_map(before);
        }
        let ghost slots0 = self.table.slots@;
        let ghost index0 = self.table.index@;
        match found {
            Some(i) => {
                let mut t = Table::empty();
                core::mem::swap(&mut self.table, &mut t);
                t.index.remove(key);
                let gone = t.slots.swap_remove(i);
                if i < t.slots.len() {
                    let moved = t.slots[i].key.clone();
                    t.index.insert(moved, i);
                }
                proof {
                    let last = slots0.len() - 1;
                    let after = slot_views(t.slots@);
                    assert(before[i as int].key == key@);
                    assert forall|a: int| 0 <= a < t.slots@.len() implies t.slots@[a] == (if a
                        == i {
                        slots0[last]
                    } else {
                        slots0[a]
                    }) by {}
                    assert forall|a: int| 0 <= a < slots0.len() implies before[a].key
                        == slots0[a].key@ by {}
                    assert forall|a: int| 0 <= a < t.slots@.len() implies t.index@.contains_key(
                        (#[trigger] t.slots@[a]).key@,
                    ) && t.index@[t.slots@[a].key@] == a by {
                        if a != i {
                            assert(index0.contains_key(slots0[a].key@));
                            assert(before[a].key != before[i as int].key);
                            assert(before[a].key != before[last].key);
                        }
                    }
                    assert forall|k: Seq<char>| #[trigger]
                        t.index@.contains_key(k) implies t.index@[k] < t.slots@.len()
                        && t.slots@[t.index@[k] as int].key@ == k by {
                        if i < last && k == slots0[last].key@ {
                        } else {
                            assert(index0.contains_key(k));
                            let at = index0[k] as int;
                            assert(slots0[at].key@ == k);
                            assert(at != i);
                            assert(at != last);
                        }
                    }
                    lemma_indexed_distinct(t.slots@, t.index@);
                    let m = pairs_map(before).remove(key@);
                    assert forall|a: int| 0 <= a < after.len() implies m.contains_key(
                        #[trigger] after[a].key,
                    ) && m[after[a].key] == after[a].entry by {
                        let a0 = if a == i { last } else { a };
                        assert(after[a] == before[a0]);
                        assert(before[a0].key != before[i as int].key);
                    }
                    assert forall|k: Seq<char>| m.contains_key(k) implies exists|a: int|
                        0 <= a < after.len() && #[trigger] after[a].key == k by {
                        let a0 = choose|a: int|
                            0 <= a < before.len() && #[trigger] before[a].key == k;
                        let a = if a0 == last { i as int } else { a0 };
                        assert(after[a] == before[a0]);
                    }
                    lemma_map_by_keys(after, m);
                    assert(gone@ == before[i as int]);
                }
                core::mem::swap(&mut self.table, &mut t);
                Some(gone.entry)
            },
            None => {
                proof {
                    assert forall|j: int| 0 <= j < before.len() implies before[j].key != key@ by {
                        assert(before[j].key == self.table.slots@[j].key@);
                    }
                    assert(pairs_map(before).remove(key@) =~= pairs_map(before));
                }
                None
            },
        }
    }

    /// The key of the `i`-th entry.
    pub fn key_at(&self, i: usize) -> (key: &str)
        requires
            i < self.pairs().len(),
        ensures
            key@ == self.pairs()[i as int].key,
    {
        self.table.slots[i].key.as_str()
    }

    /// The `i`-th entry.
    pub fn entry_at(&self, i: usize) -> (entry: &KvEntry)
        requires
            i < self.pairs().len(),
        ensures
            entry@ == self.pairs()[i as int].entry,
    {
        &self.table.slots[i].entry
    }

    /// A deep copy of the shard.
    pub fn snapshot(&self) -> (copy: Shard)
        ensures
            copy@ == self@,
            copy.pairs() == self.pairs(),
    {
        proof {
            use_type_invariant(self);
        }
        let ghost slots0 = self.table.slots@;
        let mut t = Table::empty();
        let mut i: usize = 0;
        while i < self.table.slots.len()
            invariant
                i <= self.table.slots@.len(),
                slots0 == self.table.slots@,
                indexed(slots0, self.table.index@),
                t.slots@.len() == i,
                slot_views(t.slots@) =~= slot_views(slots0).take(i as int),
                indexed(t.slots@, t.index@),
            decreases self.table.slots@.len() - i,
        {
            let key = self.table.slots[i].key.clone();
            let entry = self.table.slots[i].entry.clone();
            let ghost before = slot_views(t.slots@);
            let ghost copied = t.slots@;
            let ghost index_before = t.index@;
            let slot = Slot { key: key.clone(), entry };
            assert(slot@ == slots0[i as int]@);
            t.index.insert(key, i);
            t.slots.push(slot);
            proof {
                assert(slot_views(t.slots@) =~= before.push(slots0[i as int]@));
                assert forall|a: int| 0 <= a < copied.len() implies copied[a].key@
                    == slots0[a].key@ by {
                    assert(slot_views(copied)[a] == slot_views(slots0).take(i as int)[a]);
                }
                assert forall|a: int| 0 <= a < t.slots@.len() implies t.index@.contains_key(
                    (#[trigger] t.slots@[a]).key@,
                ) && t.index@[t.slots@[a].key@] == a by {
                    if a < i {
                        assert(t.slots@[a] == copied[a]);
                        assert(self.table.index@[slots0[a].key@] == a);
                        assert(self.table.index@[slots0[i as int].key@] == i);
                    }
                }
                assert forall|k: Seq<char>| #[trigger]
                    t.index@.contains_key(k) implies t.index@[k] < t.slots@.len()
                    && t.slots@[t.index@[k] as int].key@ == k by {
                    if k != slots0[i as int].key@ {
                        assert(index_before.contains_key(k));
                        assert(t.slots@[index_before[k] as int] == copied[index_before[k] as int]);
                    }
                }
            }
            i = i + 1;
        }
        assert(slot_views(slots0).take(i as int) =~= slot_views(slots0));
        Shard { table: t }
    }
}

} // verus!

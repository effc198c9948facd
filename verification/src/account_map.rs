//! An association from accounts to values, with at most one value per account.

use crate::account::AccountId;
use vstd::prelude::*;

verus! {

/// A finite map keyed by [`AccountId`]. Its view is the mathematical map; the
/// order in which it enumerates its accounts is [`AccountMap::keys`].
#[derive(Debug)]
pub struct AccountMap<V> {
    entries: Vec<(AccountId, V)>,
}

/// Whether some entry of `entries` is filed under `key`.
spec fn holds_key<V>(entries: Seq<(AccountId, V)>, key: AccountId) -> bool {
    exists|i: int| 0 <= i < entries.len() && (#[trigger] entries[i]).0 == key
}

/// An index at which `entries` files `key`, where there is one.
spec fn position<V>(entries: Seq<(AccountId, V)>, key: AccountId) -> int {
    choose|i: int| 0 <= i < entries.len() && (#[trigger] entries[i]).0 == key
}

/// No two entries are filed under the same account.
spec fn distinct_keys<V>(entries: Seq<(AccountId, V)>) -> bool {
    forall|i: int, j: int|
        0 <= i < j < entries.len() ==> (#[trigger] entries[i]).0 != (#[trigger] entries[j]).0
}

/// The map that a duplicate-free list of entries stands for.
spec fn as_map<V>(entries: Seq<(AccountId, V)>) -> Map<AccountId, V> {
    Map::new(
        |key: AccountId| holds_key(entries, key),
        |key: AccountId| entries[position(entries, key)].1,
    )
}

/// The accounts of a list of entries, in order.
spec fn key_list<V>(entries: Seq<(AccountId, V)>) -> Seq<AccountId> {
    Seq::new(entries.len(), |i: int| entries[i].0)
}

/// In a duplicate-free list each entry is the one the map gives for its key.
proof fn lemma_entry_in_map<V>(entries: Seq<(AccountId, V)>, i: int)
    requires
        distinct_keys(entries),
        0 <= i < entries.len(),
    ensures
        as_map(entries).contains_key(entries[i].0),
        as_map(entries)[entries[i].0] == entries[i].1,
{
    let key = entries[i].0;
    assert(holds_key(entries, key));
    let p = position(entries, key);
    assert(p == i) by {
        if p < i {
            assert(entries[p].0 != entries[i].0);
        } else if i < p {
            assert(entries[i].0 != entries[p].0);
        }
    }
}

/// The key list of a duplicate-free list has no duplicates and covers
/// exactly the map's domain, which is therefore finite.
proof fn lemma_key_list<V>(entries: Seq<(AccountId, V)>)
    requires
        distinct_keys(entries),
    ensures
        key_list(entries).no_duplicates(),
        key_list(entries).to_set() == as_map(entries).dom(),
        as_map(entries).dom().finite(),
        as_map(entries).dom().len() == entries.len(),
{
    let keys = key_list(entries);
    assert forall|i: int, j: int| 0 <= i < keys.len() && 0 <= j < keys.len() && i != j implies keys[i]
        != keys[j] by {
        if i < j {
            assert(entries[i].0 != entries[j].0);
        } else {
            assert(entries[j].0 != entries[i].0);
        }
    }
    assert forall|key: AccountId| keys.to_set().contains(key) <==> as_map(entries).dom().contains(
        key,
    ) by {
        if keys.to_set().contains(key) {
            let i = choose|i: int| 0 <= i < keys.len() && keys[i] == key;
            assert(entries[i].0 == key);
        }
        if holds_key(entries, key) {
            let i = position(entries, key);
            assert(keys[i] == key);
        }
    }
    assert(keys.to_set() =~= as_map(entries).dom());
    keys.unique_seq_to_set();
    vstd::seq_lib::seq_to_set_is_finite(keys);
}

impl<V> View for AccountMap<V> {
    type V = Map<AccountId, V>;

    closed spec fn view(&self) -> Map<AccountId, V> {
        as_map(self.entries@)
    }
}

impl<V> AccountMap<V> {
    /// What holds of every map: no account is filed twice.
    #[verifier::type_invariant]
    pub closed spec fn wf(self) -> bool {
        distinct_keys(self.entries@)
    }

    /// The accounts of the map in the order in which [`AccountMap::entry_at`]
    /// enumerates them: each account of the map once.
    pub closed spec fn keys(self) -> Seq<AccountId> {
        key_list(self.entries@)
    }

    /// An empty map.
    pub fn new() -> (map: Self)
        ensures
            map@ == Map::<AccountId, V>::empty(),
            map.keys() == Seq::<AccountId>::empty(),
    {
        let map = AccountMap { entries: Vec::new() };
        assert(map@ =~= Map::<AccountId, V>::empty());
        assert(map.keys() =~= Seq::<AccountId>::empty());
        map
    }

    /// The enumeration names each account of the map exactly once, so the
    /// map is finite.
    pub proof fn lemma_enumeration(self)
        requires
            self.wf(),
        ensures
            self.keys().no_duplicates(),
            self.keys().to_set() == self@.dom(),
            self@.dom().finite(),
            self@.dom().len() == self.keys().len(),
            self.keys().len() <= usize::MAX,
    {
        lemma_key_list(self.entries@);
        assert(self.entries@.len() == self.entries.len());
    }

    /// The number of accounts in the map.
    pub fn len(&self) -> (count: usize)
        ensures
            count == self@.dom().len(),
            count == self.keys().len(),
    {
        proof {
            use_type_invariant(self);
            self.lemma_enumeration();
        }
        self.entries.len()
    }
}

impl<V: Copy> AccountMap<V> {
    /// The value filed under `key`, if any.
    pub fn get(&self, key: AccountId) -> (found: Option<V>)
        ensures
            found == (if self@.contains_key(key) {
                Some(self@[key])
            } else {
                None::<V>
            }),
    {
        proof {
            use_type_invariant(self);
        }
        let count: usize = self.entries.len();
        let mut i: usize = 0;
        while i < count
            invariant
                count == self.entries@.len(),
                i <= count,
                distinct_keys(self.entries@),
                forall|j: int| 0 <= j < i ==> (#[trigger] self.entries@[j]).0 != key,
            decreases count - i,
        {
            if self.entries[i].0 == key {
                proof {
                    lemma_entry_in_map(self.entries@, i as int);
                }
                return Some(self.entries[i].1);
            }
            i += 1;
        }
        assert(!holds_key(self.entries@, key));
        None
    }

    /// The `index`-th account of [`AccountMap::keys`] with its value, or
    /// `None` past the end.
    pub fn entry_at(&self, index: usize) -> (entry: Option<(AccountId, V)>)
        ensures
            entry == (if index < self.keys().len() {
                Some((self.keys()[index as int], self@[self.keys()[index as int]]))
            } else {
                None::<(AccountId, V)>
            }),
    {
        proof {
            use_type_invariant(self);
        }
        if index < self.entries.len() {
            proof {
                lemma_entry_in_map(self.entries@, index as int);
            }
            Some(self.entries[index])
        } else {
            None
        }
    }

    /// Files `value` under `key`, replacing the value that was there. A new
    /// account goes to the end of the enumeration; a known one keeps its
    /// place.
    pub fn set(&mut self, key: AccountId, value: V)
        ensures
            final(self)@ == old(self)@.insert(key, value),
            final(self).keys() == (if old(self)@.contains_key(key) {
                old(self).keys()
            } else {
                old(self).keys().push(key)
            }),
    {
        proof {
            use_type_invariant(&*self);
        }
        let mut entries: Vec<(AccountId, V)> = Vec::new();
        std::mem::swap(&mut entries, &mut self.entries);
        let ghost before = entries@;
        let count: usize = entries.len();
        let mut i: usize = 0;
        while i < count && !(entries[i].0 == key)
            invariant
                count == entries@.len(),
                i <= count,
                entries@ == before,
                forall|j: int| 0 <= j < i ==> (#[trigger] entries@[j]).0 != key,
            decreases count - i,
        {
            i += 1;
        }
        if i < count {
            entries.set(i, (key, value));
        } else {
            entries.push((key, value));
        }
        proof {
            lemma_set_entries(before, entries@, key, value, i as int);
        }
        self.entries = entries;
    }
}

impl<V: Copy> Clone for AccountMap<V> {
    /// A copy with the same accounts, values and enumeration.
    fn clone(&self) -> (copy: Self)
        ensures
            copy@ == self@,
            copy.keys() == self.keys(),
    {
        proof {
            use_type_invariant(self);
        }
        let count: usize = self.entries.len();
        let mut entries: Vec<(AccountId, V)> = Vec::new();
        let mut i: usize = 0;
        while i < count
            invariant
                count == self.entries@.len(),
                i <= count,
                entries@ == self.entries@.take(i as int),
            decreases count - i,
        {
            entries.push(self.entries[i]);
            assert(entries@ =~= self.entries@.take(i + 1));
            i += 1;
        }
        assert(entries@ =~= self.entries@);
        AccountMap { entries }
    }
}

/// What replacing the entry at the first position of `key`, or appending one
/// where there is none, does to the map and to the key list.
proof fn lemma_set_entries<V>(
    before: Seq<(AccountId, V)>,
    after: Seq<(AccountId, V)>,
    key: AccountId,
    value: V,
    i: int,
)
    requires
        distinct_keys(before),
        0 <= i <= before.len(),
        forall|j: int| 0 <= j < i ==> (#[trigger] before[j]).0 != key,
        i < before.len() ==> before[i].0 == key && after == before.update(i, (key, value)),
        i == before.len() ==> after == before.push((key, value)),
    ensures
        distinct_keys(after),
        as_map(after) == as_map(before).insert(key, value),
        key_list(after) == (if as_map(before).contains_key(key) {
            key_list(before)
        } else {
            key_list(before).push(key)
        }),
{
    assert(distinct_keys(after)) by {
        assert forall|a: int, b: int| 0 <= a < b < after.len() implies (#[trigger] after[a]).0 != (
        #[trigger] after[b]).0 by {
            if i < before.len() {
                assert(after[a].0 == before[a].0);
                assert(after[b].0 == before[b].0);
                assert(before[a].0 != before[b].0);
            } else {
                if b < before.len() {
                    assert(before[a].0 != before[b].0);
                } else {
                    assert(after[a] == before[a]);
                }
            }
        }
    }
    if i < before.len() {
        assert(holds_key(before, key));
    } else {
        assert(!holds_key(before, key));
    }
    assert(key_list(after) =~= (if as_map(before).contains_key(key) {
        key_list(before)
    } else {
        key_list(before).push(key)
    }));
    let target = as_map(before).insert(key, value);
    assert forall|k: AccountId| as_map(after).dom().contains(k) <==> target.dom().contains(k) by {
        if holds_key(after, k) {
            let p = position(after, k);
            if p < before.len() {
                assert(before[p].0 == after[p].0);
            }
        }
        if holds_key(before, k) {
            let p = position(before, k);
            assert(after[p].0 == before[p].0);
        }
        if k == key {
            assert(after[i].0 == key);
        }
    }
    assert forall|k: AccountId| as_map(after).dom().contains(k) implies as_map(after)[k] == target[k] by {
        let p = position(after, k);
        lemma_entry_in_map(after, p);
        if k != key {
            assert(p != i);
            assert(before[p] == after[p]);
            lemma_entry_in_map(before, p);
        } else {
            assert(after[i].0 == key);
            lemma_entry_in_map(after, i);
        }
    }
    assert(as_map(after) =~= target);
}

} // verus!

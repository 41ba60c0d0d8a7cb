//! A map whose entries stand in a vector, each key in at most one of them.
use crate::account::AccountId;
use crate::types::CurrencyId;
use vstd::prelude::*;

verus! {

/// A key of a [`StorageMap`].
pub trait StorageKey: Copy {
    /// Whether two keys are the same.
    fn same_key(&self, other: &Self) -> (r: bool)
        ensures
            r == (*self == *other),
    ;
}

impl StorageKey for CurrencyId {
    fn same_key(&self, other: &CurrencyId) -> (r: bool) {
        *self == *other
    }
}

/// The key of an entry that belongs to an account under a currency.
#[derive(Clone, Copy, PartialEq, Eq, Debug)]
pub struct AccountKey {
    /// The account.
    pub who: AccountId,
    /// The currency.
    pub currency_id: CurrencyId,
}

/// The key of what `who` has under `currency_id`.
pub open spec fn key(who: AccountId, currency_id: CurrencyId) -> AccountKey {
    AccountKey { who, currency_id }
}

impl StorageKey for AccountKey {
    fn same_key(&self, other: &AccountKey) -> (r: bool) {
        self.who.same(&other.who) && self.currency_id == other.currency_id
    }
}

/// The map that a sequence of entries stands for.
pub closed spec fn entries_map<K, V>(entries: Seq<(K, V)>) -> Map<K, V>
    decreases entries.len(),
{
    if entries.len() == 0 {
        Map::empty()
    } else {
        entries_map(entries.drop_last()).insert(entries.last().0, entries.last().1)
    }
}

/// No key occurs twice.
spec fn distinct_keys<K, V>(entries: Seq<(K, V)>) -> bool {
    forall|i: int, j: int|
        0 <= i < j < entries.len() ==> (#[trigger] entries[i]).0 != (#[trigger] entries[j]).0
}

/// Where no key occurs twice, the map holds the entries and nothing else.
proof fn lemma_entries_map<K, V>(entries: Seq<(K, V)>)
    requires
        distinct_keys(entries),
    ensures
        entries_map(entries).dom().finite(),
        forall|i: int|
            0 <= i < entries.len() ==> entries_map(entries).contains_key(
                (#[trigger] entries[i]).0,
            ) && entries_map(entries)[entries[i].0] == entries[i].1,
        forall|k: K| #[trigger]
            entries_map(entries).contains_key(k) ==> exists|i: int|
                0 <= i < entries.len() && (#[trigger] entries[i]).0 == k,
    decreases entries.len(),
{
    if entries.len() > 0 {
        let front = entries.drop_last();
        assert(forall|i: int| 0 <= i < front.len() ==> #[trigger] front[i] == entries[i]);
        lemma_entries_map(front);
        assert forall|i: int| 0 <= i < entries.len() implies entries_map(entries).contains_key(
            (#[trigger] entries[i]).0,
        ) && entries_map(entries)[entries[i].0] == entries[i].1 by {
            if i < front.len() {
                assert(front[i] == entries[i]);
            }
        }
        assert forall|k: K| #[trigger] entries_map(entries).contains_key(k) implies exists|i: int|
            0 <= i < entries.len() && (#[trigger] entries[i]).0 == k by {
            if k == entries.last().0 {
                assert(entries[entries.len() - 1].0 == k);
            } else {
                assert(entries_map(front).contains_key(k));
                let i = choose|i: int| 0 <= i < front.len() && (#[trigger] front[i]).0 == k;
                assert(entries[i].0 == k);
            }
        }
    }
}

/// A map from keys to values.
pub struct StorageMap<K, V> {
    entries: Vec<(K, V)>,
}

impl<K, V> View for StorageMap<K, V> {
    type V = Map<K, V>;

    closed spec fn view(&self) -> Map<K, V> {
        entries_map(self.entries@)
    }
}

impl<K, V> StorageMap<K, V> {
    #[verifier::type_invariant]
    spec fn inv(self) -> bool {
        distinct_keys(self.entries@)
    }
}

impl<K: StorageKey, V> StorageMap<K, V> {
    /// The map without entries.
    pub fn new() -> (r: StorageMap<K, V>)
        ensures
            r@ == Map::<K, V>::empty(),
    {
        StorageMap { entries: Vec::new() }
    }

    /// Where the entry with this key stands.
    fn position(&self, key: &K) -> (r: Option<usize>)
        ensures
            match r {
                Some(i) => i < self.entries@.len() && self.entries@[i as int].0 == *key,
                None => forall|i: int|
                    0 <= i < self.entries@.len() ==> (#[trigger] self.entries@[i]).0 != *key,
            },
    {
        let mut i: usize = 0;
        while i < self.entries.len()
            invariant
                i <= self.entries@.len(),
                forall|j: int| 0 <= j < i ==> (#[trigger] self.entries@[j]).0 != *key,
            decreases self.entries@.len() - i,
        {
            if self.entries[i].0.same_key(key) {
                return Some(i);
            }
            i = i + 1;
        }
        None
    }

    /// The value under a key, if there is one.
    pub fn get(&self, key: &K) -> (r: Option<&V>)
        ensures
            match r {
                Some(v) => self@.contains_key(*key) && *v == self@[*key],
                None => !self@.contains_key(*key),
            },
    {
        proof {
            use_type_invariant(self);
            lemma_entries_map(self.entries@);
        }
        match self.position(key) {
            Some(i) => Some(&self.entries[i].1),
            None => None,
        }
    }

    /// Whether there is a value under a key.
    pub fn contains_key(&self, key: &K) -> (r: bool)
        ensures
            r == self@.contains_key(*key),
    {
        self.get(key).is_some()
    }

    /// Puts a value under a key, in place of the one that was there.
    pub fn insert(&mut self, key: K, value: V)
        ensures
            final(self)@ == old(self)@.insert(key, value),
    {
        proof {
            use_type_invariant(&*self);
        }
        let at: Option<usize> = self.position(&key);
        let ghost before = self.entries@;
        let mut entries: Vec<(K, V)> = Vec::new();
        std::mem::swap(&mut entries, &mut self.entries);
        match at {
            Some(i) => {
                entries.set(i, (key, value));
            },
            None => {
                entries.push((key, value));
            },
        }
        proof {
            lemma_entries_map(before);
            lemma_entries_map(entries@);
            let new = entries_map(entries@);
            let want = entries_map(before).insert(key, value);
            assert forall|k: K| #[trigger]
                new.dom().contains(k) == want.dom().contains(k) && (new.dom().contains(k) ==> new[k]
                == want[k]) by {
                if new.contains_key(k) {
                    let j = choose|j: int| 0 <= j < entries@.len() && (#[trigger] entries@[j]).0 == k;
                    if k != key {
                        assert(before[j] == entries@[j]);
                    }
                }
                if want.contains_key(k) && k != key {
                    let j = choose|j: int| 0 <= j < before.len() && (#[trigger] before[j]).0 == k;
                    assert(entries@[j] == before[j]);
                }
                match at {
                    Some(i) => {
                        assert(entries@[i as int] == (key, value));
                    },
                    None => {
                        assert(entries@[before.len() as int] == (key, value));
                    },
                }
            }
            assert(new.dom() =~= want.dom());
            assert(new =~= want);
        }
        self.entries = entries;
    }

    /// Takes the value under a key away.
    pub fn remove(&mut self, key: &K)
        ensures
            final(self)@ == old(self)@.remove(*key),
    {
        proof {
            use_type_invariant(&*self);
            lemma_entries_map(self.entries@);
        }
        match self.position(key) {
            Some(i) => {
                let ghost before = self.entries@;
                let mut entries: Vec<(K, V)> = Vec::new();
                std::mem::swap(&mut entries, &mut self.entries);
                entries.remove(i);
                proof {
                    assert forall|j: int, l: int| 0 <= j < l < entries@.len() implies (
                    #[trigger] entries@[j]).0 != (#[trigger] entries@[l]).0 by {
                        let j0 = if j < i { j } else { j + 1 };
                        let l0 = if l < i { l } else { l + 1 };
                        assert(entries@[j] == before[j0]);
                        assert(entries@[l] == before[l0]);
                    }
                    lemma_entries_map(entries@);
                    let new = entries_map(entries@);
                    let want = entries_map(before).remove(*key);
                    assert forall|k: K| #[trigger]
                        new.dom().contains(k) == want.dom().contains(k) && (new.dom().contains(k)
                        ==> new[k] == want[k]) by {
                        if new.contains_key(k) {
                            let j = choose|j: int|
                                0 <= j < entries@.len() && (#[trigger] entries@[j]).0 == k;
                            let j0 = if j < i { j } else { j + 1 };
                            assert(entries@[j] == before[j0]);
                            assert(before[i as int].0 == *key);
                            if j0 < i {
                                assert(before[j0].0 != before[i as int].0);
                            }
                        }
                        if want.contains_key(k) {
                            let j = choose|j: int| 0 <= j < before.len() && (#[trigger] before[j]).0 == k;
                            let j0 = if j < i { j } else { j - 1 };
                            assert(entries@[j0] == before[j]);
                        }
                    }
                    assert(new.dom() =~= want.dom());
                    assert(new =~= want);
                }
                self.entries = entries;
            },
            None => {
                assert(self@.remove(*key) =~= self@);
            },
        }
    }
}

impl<K: StorageKey, V: Copy> StorageMap<K, V> {
    /// The keys under which there is a value, each once.
    pub fn keys(&self) -> (r: Vec<K>)
        ensures
            r@.no_duplicates(),
            forall|k: K| #[trigger] r@.contains(k) <==> self@.contains_key(k),
    {
        proof {
            use_type_invariant(self);
            lemma_entries_map(self.entries@);
        }
        let mut keys: Vec<K> = Vec::new();
        let mut i: usize = 0;
        while i < self.entries.len()
            invariant
                i <= self.entries@.len(),
                keys@.len() == i,
                forall|j: int| 0 <= j < i ==> #[trigger] keys@[j] == self.entries@[j].0,
            decreases self.entries@.len() - i,
        {
            keys.push(self.entries[i].0);
            i = i + 1;
        }
        proof {
            assert forall|j: int, l: int| 0 <= j < keys@.len() && 0 <= l < keys@.len() && j
                != l implies keys@[j] != keys@[l] by {
                assert(keys@[j] == self.entries@[j].0);
                assert(keys@[l] == self.entries@[l].0);
            }
            assert forall|k: K| #[trigger] keys@.contains(k) <==> self@.contains_key(k) by {
                if keys@.contains(k) {
                    let j = choose|j: int| 0 <= j < keys@.len() && keys@[j] == k;
                    assert(self.entries@[j].0 == k);
                }
                if self@.contains_key(k) {
                    let j = choose|j: int|
                        0 <= j < self.entries@.len() && (#[trigger] self.entries@[j]).0 == k;
                    assert(keys@[j] == k);
                }
            }
        }
        keys
    }

    /// A map with the same entries.
    pub fn duplicate(&self) -> (r: StorageMap<K, V>)
        ensures
            r@ == self@,
    {
        proof {
            use_type_invariant(self);
        }
        let mut entries: Vec<(K, V)> = Vec::new();
        let mut i: usize = 0;
        while i < self.entries.len()
            invariant
                i <= self.entries@.len(),
                entries@ == self.entries@.take(i as int),
            decreases self.entries@.len() - i,
        {
            let entry: &(K, V) = &self.entries[i];
            entries.push((entry.0, entry.1));
            assert(entries@ =~= self.entries@.take(i + 1));
            i = i + 1;
        }
        assert(entries@ =~= self.entries@);
        StorageMap { entries }
    }
}

/// What a map of lists holds, as sequences.
pub open spec fn lists<K, E>(m: Map<K, Vec<E>>) -> Map<K, Seq<E>> {
    m.map_values(|v: Vec<E>| v@)
}

impl<K: StorageKey, E: Copy> StorageMap<K, Vec<E>> {
    /// A map with the same lists.
    pub fn duplicate_lists(&self) -> (r: StorageMap<K, Vec<E>>)
        ensures
            lists(r@) == lists(self@),
    {
        proof {
            use_type_invariant(self);
            lemma_entries_map(self.entries@);
        }
        let mut entries: Vec<(K, Vec<E>)> = Vec::new();
        let mut i: usize = 0;
        while i < self.entries.len()
            invariant
                i <= self.entries@.len(),
                entries@.len() == i,
                forall|j: int|
                    0 <= j < i ==> (#[trigger] entries@[j]).0 == self.entries@[j].0
                        && entries@[j].1@ == self.entries@[j].1@,
            decreases self.entries@.len() - i,
        {
            let entry: &(K, Vec<E>) = &self.entries[i];
            let list: &Vec<E> = &entry.1;
            let mut copy: Vec<E> = Vec::new();
            let mut n: usize = 0;
            while n < list.len()
                invariant
                    n <= list@.len(),
                    copy@ == list@.take(n as int),
                decreases list@.len() - n,
            {
                copy.push(list[n]);
                assert(copy@ =~= list@.take(n + 1));
                n = n + 1;
            }
            assert(copy@ =~= list@);
            entries.push((entry.0, copy));
            i = i + 1;
        }
        proof {
            assert forall|j: int, l: int| 0 <= j < l < entries@.len() implies (
            #[trigger] entries@[j]).0 != (#[trigger] entries@[l]).0 by {
                assert(self.entries@[j].0 != self.entries@[l].0);
            }
            lemma_entries_map(entries@);
            let new = entries_map(entries@);
            let want = entries_map(self.entries@);
            assert forall|k: K| #[trigger]
                new.dom().contains(k) == want.dom().contains(k) && (new.dom().contains(k) ==> new[k]@
                == want[k]@) by {
                if new.contains_key(k) {
                    let j = choose|j: int| 0 <= j < entries@.len() && (#[trigger] entries@[j]).0 == k;
                    assert(self.entries@[j].0 == k);
                }
                if want.contains_key(k) {
                    let j = choose|j: int|
                        0 <= j < self.entries@.len() && (#[trigger] self.entries@[j]).0 == k;
                    assert(entries@[j].0 == k);
                }
            }
            assert(lists(new).dom() =~= lists(want).dom());
            assert(lists(new) =~= lists(want));
        }
        StorageMap { entries }
    }
}

} // verus!

//! Insertion-ordered maps and sets over keys that are compared for equality only.
use vstd::prelude::*;

verus! {

/// A key whose executable equality is the mathematical one.
pub trait Key: Copy {
    /// Whether the two keys are equal.
    fn same(&self, other: &Self) -> (same: bool)
        ensures
            same == (*self == *other),
    ;
}

/// A map that keeps its entries in the order in which their keys first came.
#[derive(Debug)]
pub struct KeyMap<K: Key, V> {
    entries: Vec<(K, V)>,
}

/// The entry list holds `key`.
pub open spec fn holds_key<K, V>(entries: Seq<(K, V)>, key: K) -> bool {
    exists|i: int| 0 <= i < entries.len() && (#[trigger] entries[i]).0 == key
}

/// No key occurs twice in the entry list.
pub open spec fn keys_unique<K, V>(entries: Seq<(K, V)>) -> bool {
    forall|i: int, j: int|
        0 <= i < j < entries.len() ==> (#[trigger] entries[i]).0 != (#[trigger] entries[j]).0
}

/// The map that an entry list stands for.
pub open spec fn entries_map<K, V>(entries: Seq<(K, V)>) -> Map<K, V> {
    Map::new(
        |key: K| holds_key(entries, key),
        |key: K|
            entries[choose|i: int| 0 <= i < entries.len() && (#[trigger] entries[i]).0 == key].1,
    )
}

/// Where keys are unique, each entry is what the map holds under its key.
pub proof fn lemma_entry_in_map<K, V>(entries: Seq<(K, V)>, i: int)
    requires
        keys_unique(entries),
        0 <= i < entries.len(),
    ensures
        entries_map(entries).contains_key(entries[i].0),
        entries_map(entries)[entries[i].0] == entries[i].1,
{
    let key = entries[i].0;
    assert(holds_key(entries, key));
    let j = choose|j: int| 0 <= j < entries.len() && (#[trigger] entries[j]).0 == key;
    assert(j == i);
}

/// Appending an entry with a fresh key inserts it.
proof fn lemma_push_fresh<K, V>(entries: Seq<(K, V)>, key: K, value: V)
    requires
        keys_unique(entries),
        !holds_key(entries, key),
    ensures
        keys_unique(entries.push((key, value))),
        entries_map(entries.push((key, value))) == entries_map(entries).insert(key, value),
{
    let after = entries.push((key, value));
    assert(keys_unique(after));
    assert forall|k: K| holds_key(after, k) <==> (holds_key(entries, k) || k == key) by {
        if holds_key(entries, k) {
            let i = choose|i: int| 0 <= i < entries.len() && (#[trigger] entries[i]).0 == k;
            assert(after[i].0 == k);
        }
        if k == key {
            assert(after[entries.len() as int].0 == k);
        }
    }
    assert forall|k: K| #[trigger] entries_map(after).contains_key(k) implies entries_map(after)[k]
        == entries_map(entries).insert(key, value)[k] by {
        let i = choose|i: int| 0 <= i < after.len() && (#[trigger] after[i]).0 == k;
        lemma_entry_in_map(after, i);
        if i < entries.len() {
            lemma_entry_in_map(entries, i);
        }
    }
    assert(entries_map(after) =~= entries_map(entries).insert(key, value));
}

/// Replacing the value of the entry that holds a key overwrites it.
proof fn lemma_replace<K, V>(entries: Seq<(K, V)>, at: int, value: V)
    requires
        keys_unique(entries),
        0 <= at < entries.len(),
    ensures
        keys_unique(entries.update(at, (entries[at].0, value))),
        entries_map(entries.update(at, (entries[at].0, value))) == entries_map(entries).insert(
            entries[at].0,
            value,
        ),
{
    let key = entries[at].0;
    let after = entries.update(at, (key, value));
    assert forall|i: int| 0 <= i < entries.len() implies (#[trigger] after[i]).0
        == entries[i].0 by {}
    assert(keys_unique(after));
    assert forall|k: K| holds_key(after, k) <==> holds_key(entries, k) by {
        if holds_key(entries, k) {
            let i = choose|i: int| 0 <= i < entries.len() && (#[trigger] entries[i]).0 == k;
            assert(after[i].0 == k);
        }
        if holds_key(after, k) {
            let i = choose|i: int| 0 <= i < after.len() && (#[trigger] after[i]).0 == k;
            assert(entries[i].0 == k);
        }
    }
    assert(holds_key(entries, key));
    assert forall|k: K| #[trigger] entries_map(after).contains_key(k) implies entries_map(after)[k]
        == entries_map(entries).insert(key, value)[k] by {
        let i = choose|i: int| 0 <= i < after.len() && (#[trigger] after[i]).0 == k;
        lemma_entry_in_map(after, i);
        lemma_entry_in_map(entries, i);
    }
    assert(entries_map(after) =~= entries_map(entries).insert(key, value));
}

impl<K: Key, V> View for KeyMap<K, V> {
    type V = Map<K, V>;

    closed spec fn view(&self) -> Map<K, V> {
        entries_map(self.entries@)
    }
}

impl<K: Key, V> KeyMap<K, V> {
    #[verifier::type_invariant]
    spec fn no_key_twice(self) -> bool {
        keys_unique(self.entries@)
    }

    /// The empty map.
    pub fn new() -> (map: Self)
        ensures
            map@ == Map::<K, V>::empty(),
    {
        let map = KeyMap { entries: Vec::new() };
        assert(map@ =~= Map::<K, V>::empty());
        map
    }

    /// The entries, in the order in which their keys first came.
    pub fn entries(&self) -> (entries: &Vec<(K, V)>)
        ensures
            keys_unique(entries@),
            self@ == entries_map(entries@),
    {
        proof {
            use_type_invariant(self);
        }
        &self.entries
    }

    /// Where the entry for `key` stands.
    fn find(&self, key: &K) -> (found: Option<usize>)
        ensures
            match found {
                Some(i) => i < self.entries@.len() && self.entries@[i as int].0 == *key,
                None => !holds_key(self.entries@, *key),
            },
    {
        let mut i: usize = 0;
        while i < self.entries.len()
            invariant
                i <= self.entries@.len(),
                forall|j: int| 0 <= j < i ==> (#[trigger] self.entries@[j]).0 != *key,
            decreases self.entries@.len() - i,
        {
            if self.entries[i].0.same(key) {
                return Some(i);
            }
            i += 1;
        }
        None
    }

    /// The value under `key`, if there is one.
    pub fn get(&self, key: &K) -> (value: Option<&V>)
        ensures
            match value {
                Some(v) => self@.contains_key(*key) && *v == self@[*key],
                None => !self@.contains_key(*key),
            },
    {
        proof {
            use_type_invariant(self);
        }
        match self.find(key) {
            Some(i) => {
                proof {
                    lemma_entry_in_map(self.entries@, i as int);
                }
                Some(&self.entries[i].1)
            },
            None => None,
        }
    }

    /// Whether there is a value under `key`.
    pub fn contains_key(&self, key: &K) -> (present: bool)
        ensures
            present == self@.contains_key(*key),
    {
        self.get(key).is_some()
    }

    /// Whether the map holds nothing.
    pub fn is_empty(&self) -> (empty: bool)
        ensures
            empty == (self@ == Map::<K, V>::empty()),
    {
        let empty = self.entries.is_empty();
        proof {
            if empty {
                assert(self@ =~= Map::<K, V>::empty());
            } else {
                use_type_invariant(self);
                lemma_entry_in_map(self.entries@, 0);
            }
        }
        empty
    }

    /// Puts `value` under `key`, in place of what was there.
    pub fn insert(&mut self, key: K, value: V)
        ensures
            final(self)@ == old(self)@.insert(key, value),
    {
        proof {
            use_type_invariant(&*self);
        }
        let found = self.find(&key);
        let ghost before = self.entries@;
        let mut entries: Vec<(K, V)> = Vec::new();
        std::mem::swap(&mut entries, &mut self.entries);
        match found {
            Some(i) => {
                proof {
                    lemma_replace(before, i as int, value);
                }
                entries[i] = (key, value);
            },
            None => {
                proof {
                    lemma_push_fresh(before, key, value);
                }
                entries.push((key, value));
            },
        }
        self.entries = entries;
    }
}

/// How often a key was counted: zero where the map has no entry for it.
pub open spec fn count<K>(counts: Map<K, u64>, key: K) -> u64 {
    if counts.contains_key(key) {
        counts[key]
    } else {
        0
    }
}

/// The counts with one more for `key`.
pub open spec fn counted<K>(counts: Map<K, u64>, key: K) -> Map<K, u64> {
    counts.insert(key, (count(counts, key) + 1) as u64)
}

impl<K: Key> KeyMap<K, u64> {
    /// Counts `key` once more.
    pub fn increment(&mut self, key: K)
        requires
            count(old(self)@, key) < u64::MAX,
        ensures
            final(self)@ == counted(old(self)@, key),
    {
        let seen: u64 = match self.get(&key) {
            Some(n) => *n,
            None => 0,
        };
        self.insert(key, seen + 1);
    }
}

impl<K: Key, V> Default for KeyMap<K, V> {
    fn default() -> (map: Self)
        ensures
            map@ == Map::<K, V>::empty(),
    {
        KeyMap::new()
    }
}

impl<K: Key, V: Clone> Clone for KeyMap<K, V> {
    fn clone(&self) -> (copy: Self)
        ensures
            copy@.dom() == self@.dom(),
            forall|key: K| #[trigger]
                copy@.contains_key(key) ==> cloned::<V>(self@[key], copy@[key]),
    {
        proof {
            use_type_invariant(self);
        }
        let mut entries: Vec<(K, V)> = Vec::new();
        let mut i: usize = 0;
        while i < self.entries.len()
            invariant
                i <= self.entries@.len(),
                entries@.len() == i,
                forall|j: int|
                    0 <= j < i ==> (#[trigger] entries@[j]).0 == self.entries@[j].0 && cloned::<V>(
                        self.entries@[j].1,
                        entries@[j].1,
                    ),
            decreases self.entries@.len() - i,
        {
            let value = self.entries[i].1.clone();
            entries.push((self.entries[i].0, value));
            i += 1;
        }
        let copy = KeyMap { entries };
        proof {
            assert forall|key: K| copy@.contains_key(key) <==> self@.contains_key(key) by {
                if holds_key(self.entries@, key) {
                    let j = choose|j: int|
                        0 <= j < self.entries@.len() && (#[trigger] self.entries@[j]).0 == key;
                    assert(copy.entries@[j].0 == key);
                }
                if holds_key(copy.entries@, key) {
                    let j = choose|j: int|
                        0 <= j < copy.entries@.len() && (#[trigger] copy.entries@[j]).0 == key;
                    assert(self.entries@[j].0 == key);
                }
            }
            assert(copy@.dom() =~= self@.dom());
            assert forall|key: K| #[trigger] copy@.contains_key(key) implies cloned::<V>(
                self@[key],
                copy@[key],
            ) by {
                let j = choose|j: int|
                    0 <= j < copy.entries@.len() && (#[trigger] copy.entries@[j]).0 == key;
                lemma_entry_in_map(copy.entries@, j);
                lemma_entry_in_map(self.entries@, j);
            }
        }
        copy
    }
}

/// A set of keys, in the order in which they first came.
#[derive(Clone, Debug)]
pub struct KeySet<K: Key> {
    members: KeyMap<K, ()>,
}

impl<K: Key> View for KeySet<K> {
    type V = Set<K>;

    closed spec fn view(&self) -> Set<K> {
        self.members@.dom()
    }
}

impl<K: Key> KeySet<K> {
    /// The empty set.
    pub fn new() -> (set: Self)
        ensures
            set@ == Set::<K>::empty(),
    {
        let set = KeySet { members: KeyMap::new() };
        assert(set@ =~= Set::<K>::empty());
        set
    }

    /// Whether `key` is a member.
    pub fn contains(&self, key: &K) -> (present: bool)
        ensures
            present == self@.contains(*key),
    {
        self.members.contains_key(key)
    }

    /// Makes `key` a member, and says whether it was none before.
    pub fn insert(&mut self, key: K) -> (fresh: bool)
        ensures
            final(self)@ == old(self)@.insert(key),
            fresh == !old(self)@.contains(key),
    {
        let fresh = !self.members.contains_key(&key);
        self.members.insert(key, ());
        assert(self@ =~= old(self)@.insert(key));
        fresh
    }
}

impl<K: Key> Default for KeySet<K> {
    fn default() -> (set: Self)
        ensures
            set@ == Set::<K>::empty(),
    {
        KeySet::new()
    }
}

/// A set of byte strings, in the order in which they first came.
#[derive(Debug)]
pub struct BytesSet {
    members: Vec<Vec<u8>>,
}

/// The byte strings that a list holds.
pub open spec fn listed(members: Seq<Vec<u8>>) -> Set<Seq<u8>> {
    Set::new(
        |bytes: Seq<u8>|
            exists|i: int| 0 <= i < members.len() && (#[trigger] members[i])@ == bytes,
    )
}

/// Whether two byte strings are equal.
fn same_bytes(a: &Vec<u8>, b: &Vec<u8>) -> (same: bool)
    ensures
        same == (a@ == b@),
{
    if a.len() != b.len() {
        return false;
    }
    let mut i: usize = 0;
    while i < a.len()
        invariant
            i <= a@.len(),
            a@.len() == b@.len(),
            forall|k: int| 0 <= k < i ==> a@[k] == b@[k],
        decreases a@.len() - i,
    {
        if a[i] != b[i] {
            return false;
        }
        i += 1;
    }
    assert(a@ =~= b@);
    true
}

impl View for BytesSet {
    type V = Set<Seq<u8>>;

    closed spec fn view(&self) -> Set<Seq<u8>> {
        listed(self.members@)
    }
}

impl BytesSet {
    /// No byte string occurs twice.
    #[verifier::type_invariant]
    spec fn no_member_twice(self) -> bool {
        forall|i: int, j: int|
            0 <= i < j < self.members@.len() ==> (#[trigger] self.members@[i])@ != (
            #[trigger] self.members@[j])@
    }

    /// The empty set.
    pub fn new() -> (set: Self)
        ensures
            set@ == Set::<Seq<u8>>::empty(),
    {
        let set = BytesSet { members: Vec::new() };
        assert(set@ =~= Set::<Seq<u8>>::empty());
        set
    }

    /// The members, in the order in which they first came; none occurs twice.
    pub fn members(&self) -> (members: &Vec<Vec<u8>>)
        ensures
            self@ == listed(members@),
            forall|i: int, j: int|
                0 <= i < j < members@.len() ==> (#[trigger] members@[i])@ != (
                #[trigger] members@[j])@,
    {
        proof {
            use_type_invariant(self);
        }
        &self.members
    }

    /// Whether `bytes` is a member.
    pub fn contains(&self, bytes: &Vec<u8>) -> (present: bool)
        ensures
            present == self@.contains(bytes@),
    {
        let mut i: usize = 0;
        while i < self.members.len()
            invariant
                i <= self.members@.len(),
                forall|j: int| 0 <= j < i ==> (#[trigger] self.members@[j])@ != bytes@,
            decreases self.members@.len() - i,
        {
            if same_bytes(&self.members[i], bytes) {
                return true;
            }
            i += 1;
        }
        false
    }

    /// Whether the set has no member.
    pub fn is_empty(&self) -> (empty: bool)
        ensures
            empty == (self@ == Set::<Seq<u8>>::empty()),
    {
        let empty = self.members.is_empty();
        proof {
            if empty {
                assert(self@ =~= Set::<Seq<u8>>::empty());
            } else {
                assert(self@.contains(self.members@[0]@));
            }
        }
        empty
    }

    /// Makes `bytes` a member.
    pub fn insert(&mut self, bytes: Vec<u8>)
        ensures
            final(self)@ == old(self)@.insert(bytes@),
    {
        proof {
            use_type_invariant(&*self);
        }
        let ghost before = self.members@;
        if self.contains(&bytes) {
            assert(self@ =~= old(self)@.insert(bytes@));
            return;
        }
        let mut members: Vec<Vec<u8>> = Vec::new();
        std::mem::swap(&mut members, &mut self.members);
        members.push(bytes);
        proof {
            assert forall|other: Seq<u8>|
                listed(members@).contains(other) <==> listed(before).insert(bytes@).contains(
                    other,
                ) by {
                if listed(before).contains(other) {
                    let i = choose|i: int|
                        0 <= i < before.len() && (#[trigger] before[i])@ == other;
                    assert(members@[i]@ == other);
                }
                if other == bytes@ {
                    assert(members@[before.len() as int]@ == other);
                }
                if listed(members@).contains(other) {
                    let i = choose|i: int|
                        0 <= i < members@.len() && (#[trigger] members@[i])@ == other;
                    if i < before.len() {
                        assert(before[i]@ == other);
                    }
                }
            }
            assert forall|i: int, j: int| 0 <= i < j < members@.len() implies (
            #[trigger] members@[i])@ != (#[trigger] members@[j])@ by {
                assert(members@[i] == before[i]);
                if j == before.len() {
                    assert(listed(before).contains(before[i]@));
                } else {
                    assert(members@[j] == before[j]);
                }
            }
            assert(listed(members@) =~= listed(before).insert(bytes@));
        }
        self.members = members;
    }
}

impl Default for BytesSet {
    fn default() -> (set: Self)
        ensures
            set@ == Set::<Seq<u8>>::empty(),
    {
        BytesSet::new()
    }
}

impl Clone for BytesSet {
    fn clone(&self) -> (copy: Self)
        ensures
            copy@ == self@,
    {
        let mut copy = BytesSet::new();
        let mut i: usize = 0;
        assert(listed(self.members@.take(0)) =~= Set::<Seq<u8>>::empty());
        while i < self.members.len()
            invariant
                i <= self.members@.len(),
                copy@ == listed(self.members@.take(i as int)),
            decreases self.members@.len() - i,
        {
            let bytes = self.members[i].clone();
            proof {
                let before = self.members@.take(i as int);
                let after = self.members@.take(i + 1);
                assert(bytes@ =~= self.members@[i as int]@);
                assert forall|other: Seq<u8>|
                    listed(after).contains(other) <==> listed(before).insert(bytes@).contains(
                        other,
                    ) by {
                    if listed(before).contains(other) {
                        let k = choose|k: int|
                            0 <= k < before.len() && (#[trigger] before[k])@ == other;
                        assert(after[k]@ == other);
                    }
                    if other == bytes@ {
                        assert(after[i as int]@ == other);
                    }
                    if listed(after).contains(other) {
                        let k = choose|k: int|
                            0 <= k < after.len() && (#[trigger] after[k])@ == other;
                        if k < i {
                            assert(before[k]@ == other);
                        }
                    }
                }
                assert(listed(after) =~= listed(before).insert(bytes@));
            }
            copy.insert(bytes);
            i += 1;
        }
        assert(self.members@.take(self.members@.len() as int) =~= self.members@);
        copy
    }
}

} // verus!

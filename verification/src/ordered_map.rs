//! A map that remembers the order in which its keys came in.

use vstd::prelude::*;
use vstd::std_specs::cmp::PartialEqSpec;

verus! {

/// An insertion-ordered map.
///
/// Setting a new key appends it, setting a key that is there changes its value in
/// place, and a key that was taken out and set again goes to the end.
#[derive(Clone, Debug)]
pub struct OrderedMap<K, V> {
    order: Vec<K>,
    values: Vec<V>,
}

impl<K, V> View for OrderedMap<K, V> {
    type V = Seq<(K, V)>;

    /// The entries, in insertion order.
    closed spec fn view(&self) -> Seq<(K, V)> {
        Seq::new(self.order@.len(), |i: int| (self.order@[i], self.values@[i]))
    }
}

/// The position of `key` among `entries`, or their number where it is absent.
pub open spec fn position<K, V>(entries: Seq<(K, V)>, key: K) -> int
    decreases entries.len(),
{
    if entries.len() == 0 {
        0
    } else if entries[0].0 == key {
        0
    } else {
        1 + position(entries.skip(1), key)
    }
}

/// Whether `entries` holds `key`.
pub open spec fn has_key<K, V>(entries: Seq<(K, V)>, key: K) -> bool {
    exists|i: int| 0 <= i < entries.len() && (#[trigger] entries[i]).0 == key
}

/// `entries` after `key` was given `value`.
pub open spec fn after_set<K, V>(entries: Seq<(K, V)>, key: K, value: V) -> Seq<(K, V)> {
    if has_key(entries, key) {
        entries.update(position(entries, key), (key, value))
    } else {
        entries.push((key, value))
    }
}

/// `entries` after `key` was taken out.
pub open spec fn after_remove<K, V>(entries: Seq<(K, V)>, key: K) -> Seq<(K, V)> {
    if has_key(entries, key) {
        entries.remove(position(entries, key))
    } else {
        entries
    }
}

/// Every key occurs once.
pub open spec fn distinct_keys<K, V>(entries: Seq<(K, V)>) -> bool {
    forall|i: int, j: int|
        0 <= i < j < entries.len() ==> (#[trigger] entries[i]).0 != (#[trigger] entries[j]).0
}

/// `position` finds the first entry of the key.
pub proof fn lemma_position<K, V>(entries: Seq<(K, V)>, key: K)
    ensures
        0 <= position(entries, key) <= entries.len(),
        has_key(entries, key) == (position(entries, key) < entries.len()),
        position(entries, key) < entries.len() ==> entries[position(entries, key)].0 == key,
        forall|i: int| 0 <= i < position(entries, key) ==> (#[trigger] entries[i]).0 != key,
    decreases entries.len(),
{
    if entries.len() > 0 && entries[0].0 != key {
        let rest = entries.skip(1);
        lemma_position(rest, key);
        assert forall|i: int| 0 <= i < position(entries, key) implies (#[trigger] entries[i]).0 != key by {
            if i > 0 {
                assert(rest[i - 1] == entries[i]);
            }
        }
        if has_key(entries, key) {
            let i = choose|i: int| 0 <= i < entries.len() && (#[trigger] entries[i]).0 == key;
            assert(rest[i - 1].0 == key);
        }
    }
}

impl<K, V> Default for OrderedMap<K, V> {
    fn default() -> (empty: Self)
        ensures
            empty.wf(),
            empty@ == Seq::<(K, V)>::empty(),
    {
        let empty = OrderedMap { order: Vec::new(), values: Vec::new() };
        assert(empty@ =~= Seq::<(K, V)>::empty());
        empty
    }
}

impl<K: Copy + PartialEq, V> OrderedMap<K, V> {
    /// Keys compare by value, so that a lookup finds the key that is meant.
    pub open spec fn keys_compare() -> bool {
        &&& K::obeys_eq_spec()
        &&& forall|x: K, y: K| #[trigger] x.eq_spec(&y) <==> x == y
    }

    pub fn new() -> (empty: Self)
        ensures
            empty.wf(),
            empty@ == Seq::<(K, V)>::empty(),
    {
        Self::default()
    }

    fn find(&self, key: &K) -> (at: usize)
        requires
            self.wf(),
            Self::keys_compare(),
        ensures
            at == position(self@, *key),
            at <= self.order@.len(),
    {
        let mut at: usize = 0;
        assert(self@.skip(0) =~= self@);
        while at < self.order.len()
            invariant
                self.wf(),
                Self::keys_compare(),
                at <= self.order@.len(),
                position(self@, *key) == at + position(self@.skip(at as int), *key),
            decreases self.order@.len() - at,
        {
            let ghost rest = self@.skip(at as int);
            assert(rest[0] == self@[at as int]);
            if self.order[at] == *key {
                return at;
            }
            assert(rest.skip(1) =~= self@.skip(at + 1));
            at += 1;
        }
        at
    }

    /// Appends a new key with its value; gives a key that is there its new value in place.
    pub fn set(&mut self, key: K, value: V)
        requires
            old(self).wf(),
            Self::keys_compare(),
        ensures
            final(self).wf(),
            final(self)@ == after_set(old(self)@, key, value),
    {
        let at = self.find(&key);
        proof {
            lemma_position(self@, key);
        }
        if at < self.order.len() {
            self.values.set(at, value);
            assert(self@ =~= old(self)@.update(at as int, (key, value)));
        } else {
            proof {
                self.lemma_absent(key);
            }
            self.order.push(key);
            self.values.push(value);
            assert(self@ =~= old(self)@.push((key, value)));
        }
    }

    pub fn get(&self, key: &K) -> (value: Option<&V>)
        requires
            self.wf(),
            Self::keys_compare(),
        ensures
            value == (if has_key(self@, *key) {
                Some(&self@[position(self@, *key)].1)
            } else {
                None
            }),
    {
        let at = self.find(key);
        proof {
            lemma_position(self@, *key);
        }
        if at < self.order.len() {
            Some(&self.values[at])
        } else {
            None
        }
    }

    /// A reference through which the value of `key` can be changed.
    pub fn get_mut(&mut self, key: &K) -> (value: Option<&mut V>)
        requires
            old(self).wf(),
            Self::keys_compare(),
        ensures
            final(self).wf(),
            value is Some == has_key(old(self)@, *key),
            value is Some ==> *value->0 == old(self)@[position(old(self)@, *key)].1,
            final(self)@ == (match value {
                Some(slot) => after_set(old(self)@, *key, *final(slot)),
                None => old(self)@,
            }),
    {
        let at = self.find(key);
        proof {
            lemma_position(self@, *key);
        }
        let ghost entries = self@;
        if at < self.order.len() {
            let slot = &mut self.values[at];
            assert(after_set(entries, *key, *final(slot)) =~= entries.update(
                at as int,
                (*key, *final(slot)),
            ));
            Some(slot)
        } else {
            None
        }
    }

    pub fn contains_key(&self, key: &K) -> (present: bool)
        requires
            self.wf(),
            Self::keys_compare(),
        ensures
            present == has_key(self@, *key),
    {
        proof {
            lemma_position(self@, *key);
        }
        self.find(key) < self.order.len()
    }

    /// Takes `key` out and gives its value; the other entries keep their order.
    pub fn remove(&mut self, key: &K) -> (value: Option<V>)
        requires
            old(self).wf(),
            Self::keys_compare(),
        ensures
            final(self).wf(),
            final(self)@ == after_remove(old(self)@, *key),
            value == (if has_key(old(self)@, *key) {
                Some(old(self)@[position(old(self)@, *key)].1)
            } else {
                None
            }),
    {
        let at = self.find(key);
        proof {
            lemma_position(self@, *key);
        }
        if at < self.order.len() {
            self.order.remove(at);
            let value = self.values.remove(at);
            assert(self@ =~= old(self)@.remove(at as int));
            Some(value)
        } else {
            None
        }
    }

    pub fn len(&self) -> (n: usize)
        ensures
            n == self@.len(),
    {
        self.order.len()
    }

    pub fn is_empty(&self) -> (empty: bool)
        ensures
            empty == (self@.len() == 0),
    {
        self.order.len() == 0
    }

    /// The entries in insertion order.
    pub fn iter(&self) -> (entries: Vec<(K, &V)>)
        requires
            self.wf(),
        ensures
            entries@.len() == self@.len(),
            forall|i: int|
                0 <= i < self@.len() ==> (#[trigger] entries@[i]).0 == self@[i].0 && *entries@[i].1
                    == self@[i].1,
    {
        let mut entries: Vec<(K, &V)> = Vec::new();
        for i in 0..self.order.len()
            invariant
                self.wf(),
                entries@.len() == i,
                forall|k: int|
                    0 <= k < i ==> (#[trigger] entries@[k]).0 == self@[k].0 && *entries@[k].1
                        == self@[k].1,
        {
            entries.push((self.order[i], &self.values[i]));
        }
        entries
    }

    /// The keys in insertion order.
    pub fn keys(&self) -> (keys: Vec<K>)
        ensures
            keys@ == self@.map_values(|entry: (K, V)| entry.0),
    {
        let mut keys: Vec<K> = Vec::new();
        for i in 0..self.order.len()
            invariant
                keys@ == self.order@.take(i as int),
        {
            keys.push(self.order[i]);
            assert(self.order@.take(i + 1) =~= self.order@.take(i as int).push(self.order@[i as int]));
        }
        assert(keys@ =~= self@.map_values(|entry: (K, V)| entry.0));
        keys
    }

    /// A reference to the value of `key`, which is set to `default` first where it is
    /// absent.
    pub fn entry_or_insert(&mut self, key: K, default: V) -> (slot: &mut V)
        requires
            old(self).wf(),
            Self::keys_compare(),
        ensures
            final(self).wf(),
            *slot == (if has_key(old(self)@, key) {
                old(self)@[position(old(self)@, key)].1
            } else {
                default
            }),
            final(self)@ == after_set(old(self)@, key, *final(slot)),
    {
        let at = self.find(&key);
        proof {
            lemma_position(self@, key);
        }
        let ghost entries = self@;
        if at >= self.order.len() {
            proof {
                self.lemma_absent(key);
            }
            self.order.push(key);
            self.values.push(default);
        }
        let slot = &mut self.values[at];
        assert(at < entries.len() ==> after_set(entries, key, *final(slot)) =~= entries.update(
            at as int,
            (key, *final(slot)),
        ));
        slot
    }
}

impl<K, V> OrderedMap<K, V> {
    /// Every key has one value and occurs once.
    pub closed spec fn wf(&self) -> bool {
        &&& self.order@.len() == self.values@.len()
        &&& self.order@.no_duplicates()
    }

    proof fn lemma_absent(&self, key: K)
        requires
            self.wf(),
            !has_key(self@, key),
        ensures
            !self.order@.contains(key),
    {
        if self.order@.contains(key) {
            let i = choose|i: int| 0 <= i < self.order@.len() && self.order@[i] == key;
            assert(self@[i].0 == key);
        }
    }

    /// In a well-formed map every key occurs once.
    pub proof fn law_keys_are_distinct(&self)
        requires
            self.wf(),
        ensures
            distinct_keys(self@),
    {
    }
}

/// After `set`, the key has the value that was set.
pub proof fn law_get_after_set<K, V>(entries: Seq<(K, V)>, key: K, value: V)
    ensures
        has_key(after_set(entries, key, value), key),
        after_set(entries, key, value)[position(after_set(entries, key, value), key)].1 == value,
{
    let after = after_set(entries, key, value);
    lemma_position(entries, key);
    lemma_position(after, key);
    if has_key(entries, key) {
        let at = position(entries, key);
        assert(after[at].0 == key);
        assert forall|i: int| 0 <= i < at implies (#[trigger] after[i]).0 != key by {
            assert(entries[i].0 != key);
        }
    } else {
        assert(after[entries.len() as int].0 == key);
        assert forall|i: int| 0 <= i < entries.len() implies (#[trigger] after[i]).0 != key by {
            assert(entries[i].0 != key);
        }
    }
}

/// Setting a key that is there moves no key.
pub proof fn law_set_keeps_the_order<K, V>(entries: Seq<(K, V)>, key: K, value: V)
    requires
        has_key(entries, key),
    ensures
        after_set(entries, key, value).map_values(|entry: (K, V)| entry.0) == entries.map_values(
            |entry: (K, V)| entry.0,
        ),
{
    lemma_position(entries, key);
    assert(after_set(entries, key, value).map_values(|entry: (K, V)| entry.0) =~= entries.map_values(
        |entry: (K, V)| entry.0,
    ));
}

/// Taking a key out and setting it again sends it to the end.
pub proof fn law_resetting_moves_to_the_end<K, V>(entries: Seq<(K, V)>, key: K, value: V)
    requires
        distinct_keys(entries),
        has_key(entries, key),
    ensures
        after_set(after_remove(entries, key), key, value) == entries.remove(
            position(entries, key),
        ).push((key, value)),
{
    lemma_position(entries, key);
    let at = position(entries, key);
    let rest = entries.remove(at);
    assert(!has_key(rest, key)) by {
        if has_key(rest, key) {
            let i = choose|i: int| 0 <= i < rest.len() && (#[trigger] rest[i]).0 == key;
            let m = if i < at { i } else { i + 1 };
            assert(entries[m].0 == key);
            assert(entries[at].0 == key);
        }
    }
}

/// The value of `key` among `entries`.
pub open spec fn lookup<K, V>(entries: Seq<(K, V)>, key: K) -> Option<V> {
    if has_key(entries, key) {
        Some(entries[position(entries, key)].1)
    } else {
        None
    }
}

/// The keys of `entries`, in order.
pub open spec fn keys_of<K, V>(entries: Seq<(K, V)>) -> Seq<K> {
    entries.map_values(|entry: (K, V)| entry.0)
}

/// A change to a map. Writing through a reference to a value sets its key.
pub ghost enum Change<K, V> {
    Put { key: K, value: V },
    Remove { key: K },
}

impl<K, V> Change<K, V> {
    /// The key that is changed.
    pub open spec fn key(self) -> K {
        match self {
            Change::Put { key, .. } => key,
            Change::Remove { key } => key,
        }
    }
}

/// `entries` after a change.
pub open spec fn after_change<K, V>(entries: Seq<(K, V)>, change: Change<K, V>) -> Seq<(K, V)> {
    match change {
        Change::Put { key, value } => after_set(entries, key, value),
        Change::Remove { key } => after_remove(entries, key),
    }
}

/// `entries` after changes, one by one.
pub open spec fn after_changes<K, V>(entries: Seq<(K, V)>, changes: Seq<Change<K, V>>) -> Seq<(K, V)>
    decreases changes.len(),
{
    if changes.len() == 0 {
        entries
    } else {
        after_change(after_changes(entries, changes.drop_last()), changes.last())
    }
}

/// Where every key occurs once, an entry is found under its key.
proof fn lemma_position_of<K, V>(entries: Seq<(K, V)>, i: int)
    requires
        distinct_keys(entries),
        0 <= i < entries.len(),
    ensures
        position(entries, entries[i].0) == i,
        has_key(entries, entries[i].0),
{
    let key = entries[i].0;
    assert(entries[i].0 == key);
    lemma_position(entries, key);
    let at = position(entries, key);
    if at < i {
        assert(entries[at].0 != entries[i].0);
    }
}

/// A change keeps every key single.
proof fn lemma_change_keeps_keys_distinct<K, V>(entries: Seq<(K, V)>, change: Change<K, V>)
    requires
        distinct_keys(entries),
    ensures
        distinct_keys(after_change(entries, change)),
{
    let key = change.key();
    let after = after_change(entries, change);
    lemma_position(entries, key);
    let at = position(entries, key);
    assert forall|i: int, j: int| 0 <= i < j < after.len() implies (#[trigger] after[i]).0 != (
    #[trigger] after[j]).0 by {
        if change is Remove && has_key(entries, key) {
            let k = if i < at { i } else { i + 1 };
            let m = if j < at { j } else { j + 1 };
            assert(entries[k].0 != entries[m].0);
        } else if j < entries.len() {
            assert(entries[i].0 != entries[j].0);
        } else {
            assert(entries[i].0 != key);
        }
    }
}

/// However a map came about, every key occurs once.
pub proof fn law_histories_keep_keys_distinct<K, V>(changes: Seq<Change<K, V>>)
    ensures
        distinct_keys(after_changes(Seq::<(K, V)>::empty(), changes)),
    decreases changes.len(),
{
    if changes.len() > 0 {
        law_histories_keep_keys_distinct(changes.drop_last());
        lemma_change_keeps_keys_distinct(
            after_changes(Seq::<(K, V)>::empty(), changes.drop_last()),
            changes.last(),
        );
    }
}

/// Going through a map gives each of its keys once, in the order of the keys, with the value
/// that is found under it.
pub proof fn law_iteration<K, V>(entries: Seq<(K, V)>)
    requires
        distinct_keys(entries),
    ensures
        keys_of(entries).len() == entries.len(),
        keys_of(entries).no_duplicates(),
        forall|i: int|
            0 <= i < entries.len() ==> (#[trigger] entries[i]).0 == keys_of(entries)[i] && lookup(
                entries,
                entries[i].0,
            ) == Some(entries[i].1),
        forall|key: K| has_key(entries, key) ==> #[trigger] keys_of(entries).contains(key),
{
    let keys = keys_of(entries);
    assert forall|i: int| 0 <= i < entries.len() implies (#[trigger] entries[i]).0 == keys[i]
        && lookup(entries, entries[i].0) == Some(entries[i].1) by {
        lemma_position_of(entries, i);
    }
    assert forall|i: int, j: int| 0 <= i < keys.len() && 0 <= j < keys.len() && i != j implies keys[i]
        != keys[j] by {
        if i < j {
            assert(entries[i].0 != entries[j].0);
        } else {
            assert(entries[j].0 != entries[i].0);
        }
    }
    assert forall|key: K| has_key(entries, key) implies #[trigger] keys.contains(key) by {
        let i = choose|i: int| 0 <= i < entries.len() && (#[trigger] entries[i]).0 == key;
        assert(keys[i] == key);
    }
}

/// A key is present exactly where a value is found under it, and where it is among the keys.
pub proof fn law_lookups_agree<K, V>(entries: Seq<(K, V)>, key: K)
    ensures
        has_key(entries, key) == lookup(entries, key) is Some,
        has_key(entries, key) == keys_of(entries).contains(key),
{
    let keys = keys_of(entries);
    if has_key(entries, key) {
        let i = choose|i: int| 0 <= i < entries.len() && (#[trigger] entries[i]).0 == key;
        assert(keys[i] == key);
    }
    if keys.contains(key) {
        let i = choose|i: int| 0 <= i < keys.len() && keys[i] == key;
        assert(entries[i].0 == key);
    }
}

/// A change of one key leaves what is found under every other.
pub proof fn law_changes_leave_other_keys<K, V>(
    entries: Seq<(K, V)>,
    change: Change<K, V>,
    key: K,
)
    requires
        distinct_keys(entries),
        change.key() != key,
    ensures
        has_key(after_change(entries, change), key) == has_key(entries, key),
        lookup(after_change(entries, change), key) == lookup(entries, key),
{
    let after = after_change(entries, change);
    let at = position(entries, change.key());
    lemma_position(entries, change.key());
    lemma_change_keeps_keys_distinct(entries, change);
    if has_key(entries, key) {
        let i = choose|i: int| 0 <= i < entries.len() && (#[trigger] entries[i]).0 == key;
        let k = if change is Remove && has_key(entries, change.key()) && i > at {
            i - 1
        } else {
            i
        };
        assert(after[k] == entries[i]);
        lemma_position_of(entries, i);
        lemma_position_of(after, k);
    } else if has_key(after, key) {
        let i = choose|i: int| 0 <= i < after.len() && (#[trigger] after[i]).0 == key;
        let k = if change is Remove && has_key(entries, change.key()) && i >= at {
            i + 1
        } else {
            i
        };
        assert(entries[k].0 == key);
    }
}

/// A value that was set is found under its key for as long as only other keys are changed.
pub proof fn law_values_stay<K, V>(
    entries: Seq<(K, V)>,
    key: K,
    value: V,
    changes: Seq<Change<K, V>>,
)
    requires
        distinct_keys(entries),
        forall|i: int| 0 <= i < changes.len() ==> (#[trigger] changes[i]).key() != key,
    ensures
        lookup(after_changes(after_set(entries, key, value), changes), key) == Some(value),
        distinct_keys(after_changes(after_set(entries, key, value), changes)),
    decreases changes.len(),
{
    let start = after_set(entries, key, value);
    if changes.len() == 0 {
        law_get_after_set(entries, key, value);
        lemma_change_keeps_keys_distinct(entries, Change::Put { key, value });
    } else {
        let rest = changes.drop_last();
        assert forall|i: int| 0 <= i < rest.len() implies (#[trigger] rest[i]).key() != key by {
            assert(rest[i] == changes[i]);
        }
        law_values_stay(entries, key, value, rest);
        assert(changes[changes.len() - 1].key() != key);
        law_changes_leave_other_keys(after_changes(start, rest), changes.last(), key);
        lemma_change_keeps_keys_distinct(after_changes(start, rest), changes.last());
    }
}

/// A removed key is gone.
pub proof fn law_removed_keys_are_gone<K, V>(entries: Seq<(K, V)>, key: K)
    requires
        distinct_keys(entries),
    ensures
        !has_key(after_remove(entries, key), key),
{
    lemma_position(entries, key);
    let at = position(entries, key);
    let rest = after_remove(entries, key);
    if has_key(rest, key) {
        let i = choose|i: int| 0 <= i < rest.len() && (#[trigger] rest[i]).0 == key;
        let k = if has_key(entries, key) && i >= at {
            i + 1
        } else {
            i
        };
        assert(entries[k].0 == key);
        assert(entries[at].0 == key);
    }
}

/// A map has as many entries as it has keys. Setting a key adds one only where it is new, and
/// removing a key takes one away only where it is present.
pub proof fn law_lengths<K, V>(entries: Seq<(K, V)>, key: K, value: V)
    requires
        distinct_keys(entries),
    ensures
        entries.len() == keys_of(entries).to_set().len(),
        after_set(entries, key, value).len() == entries.len() + (if has_key(entries, key) {
            0int
        } else {
            1
        }),
        after_remove(entries, key).len() == entries.len() - (if has_key(entries, key) {
            1int
        } else {
            0
        }),
{
    law_iteration(entries);
    keys_of(entries).unique_seq_to_set();
    lemma_position(entries, key);
}

} // verus!

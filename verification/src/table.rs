//! A table of values under text keys. No key occurs twice.
use vstd::prelude::*;

use crate::text::same_text;

verus! {

/// Values under text keys, in the order in which the keys came.
pub struct Table<V> {
    entries: Vec<(String, V)>,
}

/// The keys of a list of entries, in order.
closed spec fn keys_of<V>(entries: Seq<(String, V)>) -> Seq<Seq<char>> {
    entries.map_values(|e: (String, V)| e.0@)
}

impl<V> View for Table<V> {
    type V = Map<Seq<char>, V>;

    closed spec fn view(&self) -> Map<Seq<char>, V> {
        Map::new(
            |k: Seq<char>| keys_of(self.entries@).contains(k),
            |k: Seq<char>| self.entries@[keys_of(self.entries@).index_of(k)].1,
        )
    }
}

impl<V> Table<V> {
    #[verifier::type_invariant]
    closed spec fn unique_keys(&self) -> bool {
        keys_of(self.entries@).no_duplicates()
    }

    /// The keys, in the order in which they came.
    pub closed spec fn order(&self) -> Seq<Seq<char>> {
        keys_of(self.entries@)
    }

    proof fn lemma_entry(&self, i: int)
        requires
            self.unique_keys(),
            0 <= i < self.entries@.len(),
        ensures
            self@.contains_key(self.entries@[i].0@),
            self@[self.entries@[i].0@] == self.entries@[i].1,
    {
        let keys = keys_of(self.entries@);
        let k = self.entries@[i].0@;
        assert(keys[i] == k);
        assert(keys.contains(k));
        let j = keys.index_of(k);
        assert(keys[j] == k);
        assert(i == j);
    }

    /// An empty table.
    pub fn new() -> (table: Self)
        ensures
            table@ == Map::<Seq<char>, V>::empty(),
            table.order() == Seq::<Seq<char>>::empty(),
    {
        let table = Table { entries: Vec::new() };
        assert(table@ =~= Map::<Seq<char>, V>::empty());
        assert(table.order() =~= Seq::<Seq<char>>::empty());
        table
    }

    /// The place of `key` among the entries.
    fn find(&self, key: &str) -> (place: Option<usize>)
        ensures
            match place {
                Some(i) => i < self.entries@.len() && self.entries@[i as int].0@ == key@
                    && self@.contains_key(key@) && self@[key@] == self.entries@[i as int].1,
                None => !self@.contains_key(key@) && !self.order().contains(key@),
            },
    {
        proof {
            use_type_invariant(self);
        }
        let mut i: usize = 0;
        while i < self.entries.len()
            invariant
                i <= self.entries@.len(),
                self.unique_keys(),
                forall|j: int| 0 <= j < i ==> self.entries@[j].0@ != key@,
            decreases self.entries@.len() - i,
        {
            if same_text(self.entries[i].0.as_str(), key) {
                proof {
                    self.lemma_entry(i as int);
                }
                return Some(i);
            }
            i = i + 1;
        }
        proof {
            let keys = keys_of(self.entries@);
            if keys.contains(key@) {
                let j = choose|j: int| 0 <= j < keys.len() && keys[j] == key@;
                assert(self.entries@[j].0@ == key@);
            }
        }
        None
    }

    /// Whether `key` is in the table.
    pub fn contains_key(&self, key: &str) -> (found: bool)
        ensures
            found == self@.contains_key(key@),
    {
        self.find(key).is_some()
    }

    /// The value under `key`.
    pub fn get(&self, key: &str) -> (value: Option<&V>)
        ensures
            match value {
                Some(v) => self@.contains_key(key@) && *v == self@[key@],
                None => !self@.contains_key(key@),
            },
    {
        match self.find(key) {
            Some(i) => Some(&self.entries[i].1),
            None => None,
        }
    }

    /// Puts `value` under `key`, in place of what was there.
    pub fn insert(&mut self, key: String, value: V)
        ensures
            final(self)@ == old(self)@.insert(key@, value),
    {
        self.remove(key.as_str());
        let ghost before = *self;
        let mut entries: Vec<(String, V)> = Vec::new();
        proof {
            use_type_invariant(&*self);
            assert(!self.order().contains(key@)) by {
                if self.order().contains(key@) {
                    assert(self@.contains_key(key@));
                }
            }
        }
        std::mem::swap(&mut entries, &mut self.entries);
        entries.push((key, value));
        let ghost all = entries@;
        proof {
            let keys = keys_of(all);
            let was = keys_of(before.entries@);
            assert(keys =~= was.push(key@));
            assert(keys.no_duplicates());
        }
        self.entries = entries;
        proof {
            assert forall|k: Seq<char>| #[trigger] self@.contains_key(k) <==> before@.insert(
                key@,
                value,
            ).contains_key(k) by {
                let keys = keys_of(all);
                let was = keys_of(before.entries@);
                if was.contains(k) {
                    let j = choose|j: int| 0 <= j < was.len() && was[j] == k;
                    assert(keys[j] == k);
                }
                if k == key@ {
                    assert(keys[was.len() as int] == k);
                }
            }
            assert forall|k: Seq<char>| #[trigger] self@.contains_key(k) implies self@[k]
                == before@.insert(key@, value)[k] by {
                let keys = keys_of(all);
                let j = keys.index_of(k);
                assert(keys[j] == k);
                self.lemma_entry(j);
                if j < before.entries@.len() {
                    before.lemma_entry(j);
                }
            }
            assert(self@ =~= before@.insert(key@, value));
            assert(self@ =~= old(self)@.insert(key@, value));
        }
    }

    /// Takes `key` and its value out of the table.
    pub fn remove(&mut self, key: &str) -> (value: Option<V>)
        ensures
            final(self)@ == old(self)@.remove(key@),
            match value {
                Some(v) => old(self)@.contains_key(key@) && v == old(self)@[key@],
                None => !old(self)@.contains_key(key@),
            },
    {
        match self.find(key) {
            None => {
                assert(self@ =~= old(self)@.remove(key@));
                None
            },
            Some(i) => {
                let ghost before = *self;
                proof {
                    use_type_invariant(&*self);
                }
                let mut entries: Vec<(String, V)> = Vec::new();
                std::mem::swap(&mut entries, &mut self.entries);
                let (_key, value) = entries.remove(i);
                let ghost rest = entries@;
                proof {
                    let keys = keys_of(rest);
                    let was = keys_of(before.entries@);
                    assert(keys =~= was.remove(i as int));
                    assert(keys.no_duplicates());
                }
                self.entries = entries;
                proof {
                    let keys = keys_of(rest);
                    let was = keys_of(before.entries@);
                    assert(was[i as int] == key@);
                    assert forall|k: Seq<char>| #[trigger] self@.contains_key(k) <==> before@.remove(
                        key@,
                    ).contains_key(k) by {
                        if keys.contains(k) {
                            let j = choose|j: int| 0 <= j < keys.len() && keys[j] == k;
                            let at = if j < i {
                                j
                            } else {
                                j + 1
                            };
                            assert(was[at] == k);
                        }
                        if was.contains(k) && k != key@ {
                            let j = choose|j: int| 0 <= j < was.len() && was[j] == k;
                            let at = if j < i {
                                j
                            } else {
                                j - 1
                            };
                            assert(keys[at] == k);
                        }
                    }
                    assert forall|k: Seq<char>| #[trigger] self@.contains_key(k) implies self@[k]
                        == before@.remove(key@)[k] by {
                        let j = keys.index_of(k);
                        assert(keys[j] == k);
                        self.lemma_entry(j);
                        before.lemma_entry(
                            if j < i {
                                j
                            } else {
                                j + 1
                            },
                        );
                    }
                    assert(self@ =~= before@.remove(key@));
                }
                Some(value)
            },
        }
    }

    /// Empties the table.
    pub fn clear(&mut self)
        ensures
            final(self)@ == Map::<Seq<char>, V>::empty(),
    {
        self.entries = Vec::new();
        assert(self@ =~= Map::<Seq<char>, V>::empty());
    }

    /// The number of entries. The order lists every key exactly once.
    pub fn len(&self) -> (n: usize)
        ensures
            n == self.order().len(),
            self.order().no_duplicates(),
            self.order().to_set() == self@.dom(),
    {
        proof {
            use_type_invariant(self);
            assert(self.order().to_set() =~= self@.dom());
        }
        self.entries.len()
    }

    /// The value of the `i`-th entry.
    pub fn value_at(&self, i: usize) -> (value: &V)
        requires
            i < self.order().len(),
        ensures
            self@.contains_key(self.order()[i as int]),
            *value == self@[self.order()[i as int]],
    {
        proof {
            use_type_invariant(self);
            self.lemma_entry(i as int);
        }
        &self.entries[i].1
    }
}

/// What was put under a key is found there, and nowhere else: looking up
/// another key gives what it gave before.
pub proof fn law_what_is_put_is_found<V>(
    table: &mut Table<V>,
    key: String,
    value: V,
    sought: &str,
    before: Option<&V>,
    after: Option<&V>,
    found: bool,
)
    requires
        call_ensures(Table::<V>::get, (old(table), sought), before),
        call_ensures(Table::<V>::insert, (table, key, value), ()),
        call_ensures(Table::<V>::get, (final(table), sought), after),
        call_ensures(Table::<V>::contains_key, (final(table), sought), found),
    ensures
        sought@ == key@ ==> after == Some(&value),
        sought@ != key@ ==> after == before,
        found <==> after is Some,
{
}

/// What was taken out is handed over once and not found any more, and the
/// rest stays; in an empty table nothing is found.
pub proof fn law_what_is_taken_is_gone<V>(
    table: &mut Table<V>,
    key: &str,
    taken: Option<V>,
    sought: &str,
    before: Option<&V>,
    after: Option<&V>,
    cleared: &mut Table<V>,
    in_cleared: Option<&V>,
    fresh: Table<V>,
    in_fresh: Option<&V>,
)
    requires
        call_ensures(Table::<V>::get, (old(table), sought), before),
        call_ensures(Table::<V>::remove, (table, key), taken),
        call_ensures(Table::<V>::get, (final(table), sought), after),
        call_ensures(Table::<V>::clear, (cleared,), ()),
        call_ensures(Table::<V>::get, (final(cleared), sought), in_cleared),
        call_ensures(Table::<V>::new, (), fresh),
        call_ensures(Table::<V>::get, (&fresh, sought), in_fresh),
    ensures
        sought@ == key@ ==> after is None,
        sought@ == key@ ==> (taken is Some <==> before is Some),
        sought@ == key@ && taken is Some ==> before == Some(&taken->0),
        sought@ != key@ ==> after == before,
        in_cleared is None,
        in_fresh is None,
{
}

/// A table has as many entries as keys, and each entry is the value under one
/// of them.
pub proof fn law_every_key_has_one_entry<V>(table: Table<V>, n: usize, i: usize, value: &V)
    requires
        call_ensures(Table::<V>::len, (&table,), n),
        i < n,
        call_ensures(Table::<V>::value_at, (&table, i), value),
    ensures
        n == table@.dom().len(),
        exists|key: Seq<char>| #[trigger] table@.contains_key(key) && table@[key] == *value,
{
    table.order().unique_seq_to_set();
    assert(table@.contains_key(table.order()[i as int]));
}

} // verus!

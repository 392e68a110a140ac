//! An object table: a key-value store from digest strings to objects, with a
//! mathematical `Map` view. A `Store` models one durable table; reading back
//! what was written (read-your-writes) and a `None` answer exactly on absent
//! keys follow from the contracts of `get` and `put`. Persistence of a table
//! to its storage file is the caller's concern: the entries are exposed by
//! index so a table can be spilled and refilled.

use vstd::prelude::*;

verus! {

#[derive(Debug)]
struct Entry<V> {
    key: String,
    val: V,
}

/// One key-value table, keyed by digest strings.
#[derive(Debug)]
pub struct Store<V> {
    entries: Vec<Entry<V>>,
}

/// The map spelled by an entry list: later entries win (the table itself
/// keeps keys unique, so this is simply "the entry with that key").
spec fn spec_map<V>(entries: Seq<Entry<V>>) -> Map<Seq<char>, V>
    decreases entries.len(),
{
    if entries.len() == 0 {
        Map::empty()
    } else {
        spec_map(entries.drop_last()).insert(entries.last().key@, entries.last().val)
    }
}

spec fn unique_keys<V>(entries: Seq<Entry<V>>) -> bool {
    forall|i: int, j: int|
        0 <= i < j < entries.len() ==> (#[trigger] entries[i].key@) != (#[trigger] entries[j].key@)
}

proof fn lemma_spec_map_contains<V>(entries: Seq<Entry<V>>, k: Seq<char>)
    ensures
        spec_map(entries).contains_key(k) <==> exists|i: int|
            0 <= i < entries.len() && (#[trigger] entries[i].key@) == k,
    decreases entries.len(),
{
    if entries.len() > 0 {
        lemma_spec_map_contains(entries.drop_last(), k);
        if spec_map(entries).contains_key(k) {
            if entries.last().key@ != k {
                let i = choose|i: int|
                    0 <= i < entries.drop_last().len() && (#[trigger] entries.drop_last()[i].key@)
                        == k;
                assert(entries[i].key@ == k);
            }
        }
        if exists|i: int| 0 <= i < entries.len() && (#[trigger] entries[i].key@) == k {
            let i = choose|i: int| 0 <= i < entries.len() && (#[trigger] entries[i].key@) == k;
            if i < entries.len() - 1 {
                assert(entries.drop_last()[i].key@ == k);
            }
        }
    }
}

proof fn lemma_spec_map_index<V>(entries: Seq<Entry<V>>, i: int)
    requires
        unique_keys(entries),
        0 <= i < entries.len(),
    ensures
        spec_map(entries).contains_key(entries[i].key@),
        spec_map(entries)[entries[i].key@] == entries[i].val,
    decreases entries.len(),
{
    if i == entries.len() - 1 {
        assert(entries.last() == entries[i]);
    } else {
        lemma_spec_map_index(entries.drop_last(), i);
        assert(entries.drop_last()[i] == entries[i]);
    }
}

proof fn lemma_spec_map_remove<V>(entries: Seq<Entry<V>>, i: int)
    requires
        unique_keys(entries),
        0 <= i < entries.len(),
    ensures
        spec_map(entries.remove(i)) == spec_map(entries).remove(entries[i].key@),
    decreases entries.len(),
{
    let k = entries[i].key@;
    if i == entries.len() - 1 {
        assert(entries.remove(i) =~= entries.drop_last());
        lemma_spec_map_contains(entries.drop_last(), k);
        assert forall|j: int| 0 <= j < entries.drop_last().len() implies (
        #[trigger] entries.drop_last()[j].key@) != k by {
            assert(entries[j].key@ == entries.drop_last()[j].key@);
        }
        assert(!spec_map(entries.drop_last()).contains_key(k));
        assert(spec_map(entries.drop_last()) =~= spec_map(entries).remove(k));
    } else {
        lemma_spec_map_remove(entries.drop_last(), i);
        assert(entries.remove(i).drop_last() =~= entries.drop_last().remove(i));
        assert(entries.remove(i).last() == entries.last());
        let el = entries.last();
        assert(spec_map(entries.remove(i)) == spec_map(entries.drop_last().remove(i)).insert(
            el.key@,
            el.val,
        ));
        assert(el.key@ != k);
        assert(spec_map(entries.drop_last()).remove(k).insert(el.key@, el.val) =~= spec_map(
            entries.drop_last(),
        ).insert(el.key@, el.val).remove(k));
    }
}

impl<V> Store<V> {
    #[verifier::type_invariant]
    spec fn inv(&self) -> bool {
        unique_keys(self.entries@)
    }

    /// The mathematical content of the table: a map from digest strings to
    /// stored values.
    pub closed spec fn view(&self) -> Map<Seq<char>, V> {
        spec_map(self.entries@)
    }

    /// The table's keys, in entry order.
    pub closed spec fn key_seq(&self) -> Seq<Seq<char>> {
        Seq::new(self.entries@.len(), |i: int| self.entries@[i].key@)
    }

    /// An empty table.
    pub fn new() -> (r: Self)
        ensures
            r@ == Map::<Seq<char>, V>::empty(),
            r.key_seq() == Seq::<Seq<char>>::empty(),
    {
        let r = Store { entries: Vec::new() };
        proof {
            assert(r.key_seq() =~= Seq::<Seq<char>>::empty());
        }
        r
    }

    /// How many entries the table holds.
    pub fn len(&self) -> (n: usize)
        ensures
            n == self.key_seq().len(),
    {
        self.entries.len()
    }

    /// The key of the entry at position `i`.
    pub fn key_at(&self, i: usize) -> (k: &String)
        requires
            i < self.key_seq().len(),
        ensures
            k@ == self.key_seq()[i as int],
            self@.contains_key(k@),
    {
        proof {
            use_type_invariant(self);
            lemma_spec_map_index(self.entries@, i as int);
        }
        &self.entries[i].key
    }

    /// The value of the entry at position `i`.
    pub fn val_at(&self, i: usize) -> (v: &V)
        requires
            i < self.key_seq().len(),
        ensures
            self@.contains_key(self.key_seq()[i as int]),
            *v == self@[self.key_seq()[i as int]],
    {
        proof {
            use_type_invariant(self);
            lemma_spec_map_index(self.entries@, i as int);
        }
        &self.entries[i].val
    }

    /// Whether the table holds an entry for `key`.
    pub fn contains_key(&self, key: &String) -> (b: bool)
        ensures
            b == self@.contains_key(key@),
    {
        proof {
            use_type_invariant(self);
        }
        let n = self.entries.len();
        let mut i: usize = 0;
        while i < n
            invariant
                n == self.entries@.len(),
                0 <= i <= n,
                forall|j: int| 0 <= j < i ==> (#[trigger] self.entries@[j].key@) != key@,
            decreases n - i,
        {
            if self.entries[i].key == *key {
                proof {
                    lemma_spec_map_contains(self.entries@, key@);
                }
                return true;
            }
            i = i + 1;
        }
        proof {
            lemma_spec_map_contains(self.entries@, key@);
        }
        false
    }

    /// Looks `key` up: the stored value if present, `None` exactly when the
    /// table has never been given that key.
    pub fn get(&self, key: &String) -> (r: Option<&V>)
        ensures
            match r {
                Some(v) => self@.contains_key(key@) && *v == self@[key@],
                None => !self@.contains_key(key@),
            },
    {
        proof {
            use_type_invariant(self);
        }
        let n = self.entries.len();
        let mut i: usize = 0;
        while i < n
            invariant
                n == self.entries@.len(),
                0 <= i <= n,
                unique_keys(self.entries@),
                forall|j: int| 0 <= j < i ==> (#[trigger] self.entries@[j].key@) != key@,
            decreases n - i,
        {
            if self.entries[i].key == *key {
                proof {
                    lemma_spec_map_index(self.entries@, i as int);
                }
                return Some(&self.entries[i].val);
            }
            i = i + 1;
        }
        proof {
            lemma_spec_map_contains(self.entries@, key@);
        }
        None
    }

    /// Inserts or replaces the entry for `key`. Afterwards the table is the
    /// old one with `key` bound to `val`; a later `get` of this key returns
    /// this value (read-your-writes).
    pub fn put(&mut self, key: String, val: V)
        ensures
            final(self)@ == old(self)@.insert(key@, val),
    {
        proof {
            use_type_invariant(&*self);
        }
        let mut entries: Vec<Entry<V>> = Vec::new();
        core::mem::swap(&mut entries, &mut self.entries);
        let ghost orig = entries@;
        let n = entries.len();
        let mut i: usize = 0;
        while i < n
            invariant
                n == entries@.len(),
                0 <= i <= n,
                entries@ == orig,
                orig == old(self).entries@,
                unique_keys(orig),
                forall|j: int| 0 <= j < i ==> (#[trigger] entries@[j].key@) != key@,
            decreases n - i,
        {
            if entries[i].key == key {
                proof {
                    lemma_spec_map_remove(orig, i as int);
                }
                entries.remove(i);
                assert(unique_keys(entries@)) by {
                    assert forall|a: int, b: int|
                        0 <= a < b < entries@.len() implies (#[trigger] entries@[a].key@) != (
                    #[trigger] entries@[b].key@) by {
                        if b < i {
                            assert(entries@[a] == orig[a] && entries@[b] == orig[b]);
                        } else if a < i {
                            assert(entries@[a] == orig[a] && entries@[b] == orig[b + 1]);
                        } else {
                            assert(entries@[a] == orig[a + 1] && entries@[b] == orig[b + 1]);
                        }
                    }
                }
                assert forall|j: int| 0 <= j < entries@.len() implies (
                #[trigger] entries@[j].key@) != key@ by {
                    if j < i {
                        assert(entries@[j] == orig[j]);
                    } else {
                        assert(entries@[j] == orig[j + 1]);
                    }
                }
                let ghost removed = entries@;
                entries.push(Entry { key, val });
                proof {
                    assert(entries@.drop_last() =~= removed);
                    assert(spec_map(entries@) == spec_map(removed).insert(key@, val));
                    assert(spec_map(removed) == spec_map(orig).remove(key@));
                    assert(spec_map(orig).remove(key@).insert(key@, val) =~= spec_map(orig).insert(
                        key@,
                        val,
                    ));
                }
                self.entries = entries;
                return ;
            }
            i = i + 1;
        }
        let ghost before = entries@;
        entries.push(Entry { key, val });
        proof {
            assert(entries@.drop_last() =~= before);
        }
        self.entries = entries;
    }
}

} // verus!

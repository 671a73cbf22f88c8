//! The members of a class or an instance: a dictionary from names to values.
//!
//! The entries are kept in a vector in which no name occurs twice; the view is
//! the finite map they denote.  Method tables and field tables are
//! dictionaries of this kind.
use vstd::prelude::*;
use super::value::Value;

verus! {

#[derive(Debug)]
pub struct Entry {
    pub key: String,
    pub value: Value,
}

#[derive(Debug)]
pub struct Members {
    entries: Vec<Entry>,
}

/// The map that a sequence of entries denotes: a later entry wins.
pub open spec fn entries_map(entries: Seq<Entry>) -> Map<Seq<char>, Value>
    decreases entries.len(),
{
    if entries.len() == 0 {
        Map::empty()
    } else {
        entries_map(entries.drop_last()).insert(entries.last().key@, entries.last().value)
    }
}

/// No two entries have the same name.
pub open spec fn distinct_keys(entries: Seq<Entry>) -> bool {
    forall|i: int, j: int|
        0 <= i < entries.len() && 0 <= j < entries.len() && i != j ==> entries[i].key@
            != entries[j].key@
}

proof fn lemma_entries_domain(entries: Seq<Entry>, key: Seq<char>)
    ensures
        entries_map(entries).contains_key(key) <==> exists|i: int|
            0 <= i < entries.len() && entries[i].key@ == key,
    decreases entries.len(),
{
    if entries.len() > 0 {
        let rest = entries.drop_last();
        lemma_entries_domain(rest, key);
        if entries_map(entries).contains_key(key) {
            if entries.last().key@ == key {
                assert(entries[entries.len() - 1].key@ == key);
            } else {
                let i = choose|i: int| 0 <= i < rest.len() && rest[i].key@ == key;
                assert(entries[i].key@ == key);
            }
        }
        if exists|i: int| 0 <= i < entries.len() && entries[i].key@ == key {
            let i = choose|i: int| 0 <= i < entries.len() && entries[i].key@ == key;
            if i < entries.len() - 1 {
                assert(rest[i].key@ == key);
            }
        }
    }
}

proof fn lemma_entries_lookup(entries: Seq<Entry>, i: int)
    requires
        distinct_keys(entries),
        0 <= i < entries.len(),
    ensures
        entries_map(entries).contains_key(entries[i].key@),
        entries_map(entries)[entries[i].key@] == entries[i].value,
    decreases entries.len(),
{
    let rest = entries.drop_last();
    if i < entries.len() - 1 {
        assert(distinct_keys(rest)) by {
            assert forall|a: int, b: int|
                0 <= a < rest.len() && 0 <= b < rest.len() && a != b implies rest[a].key@
                != rest[b].key@ by {
                assert(rest[a] == entries[a] && rest[b] == entries[b]);
            }
        }
        lemma_entries_lookup(rest, i);
        assert(rest[i] == entries[i]);
        assert(entries.last().key@ != entries[i].key@);
    }
}

proof fn lemma_entries_update(entries: Seq<Entry>, i: int, entry: Entry)
    requires
        distinct_keys(entries),
        0 <= i < entries.len(),
        entry.key@ == entries[i].key@,
    ensures
        distinct_keys(entries.update(i, entry)),
        entries_map(entries.update(i, entry)) == entries_map(entries).insert(
            entry.key@,
            entry.value,
        ),
    decreases entries.len(),
{
    let updated = entries.update(i, entry);
    let rest = entries.drop_last();
    assert(distinct_keys(updated)) by {
        assert forall|a: int, b: int|
            0 <= a < updated.len() && 0 <= b < updated.len() && a != b implies updated[a].key@
            != updated[b].key@ by {
            assert(updated[a].key@ == entries[a].key@);
            assert(updated[b].key@ == entries[b].key@);
        }
    }
    if i == entries.len() - 1 {
        assert(updated.drop_last() =~= rest);
        assert(entries_map(updated) =~= entries_map(entries).insert(entry.key@, entry.value));
    } else {
        assert(distinct_keys(rest)) by {
            assert forall|a: int, b: int|
                0 <= a < rest.len() && 0 <= b < rest.len() && a != b implies rest[a].key@
                != rest[b].key@ by {
                assert(rest[a] == entries[a] && rest[b] == entries[b]);
            }
        }
        assert(rest[i] == entries[i]);
        lemma_entries_update(rest, i, entry);
        assert(updated.drop_last() =~= rest.update(i, entry));
        assert(updated.last() == entries.last());
        assert(entries.last().key@ != entry.key@);
        assert(entries_map(updated) =~= entries_map(entries).insert(entry.key@, entry.value));
    }
}

impl View for Members {
    type V = Map<Seq<char>, Value>;

    closed spec fn view(&self) -> Map<Seq<char>, Value> {
        entries_map(self.entries@)
    }
}

impl Members {
    /// The representation invariant: no name occurs twice.
    pub closed spec fn wf(&self) -> bool {
        distinct_keys(self.entries@)
    }

    /// The names in the order in which they were first bound.
    pub closed spec fn keys(&self) -> Seq<Seq<char>> {
        Seq::new(self.entries@.len(), |i: int| self.entries@[i].key@)
    }

    /// Every name in `keys` is bound, and every bound name is in `keys`.
    pub proof fn lemma_keys(&self)
        requires
            self.wf(),
        ensures
            forall|i: int| 0 <= i < self.keys().len() ==> self@.contains_key(#[trigger] self.keys()[i]),
            forall|k: Seq<char>| self@.contains_key(k) ==> self.keys().contains(k),
            forall|i: int, j: int|
                0 <= i < self.keys().len() && 0 <= j < self.keys().len() && i != j
                    ==> self.keys()[i] != self.keys()[j],
    {
        assert forall|i: int| 0 <= i < self.keys().len() implies self@.contains_key(
            #[trigger] self.keys()[i],
        ) by {
            lemma_entries_lookup(self.entries@, i);
        }
        assert forall|k: Seq<char>| self@.contains_key(k) implies self.keys().contains(k) by {
            lemma_entries_domain(self.entries@, k);
            let i = choose|i: int| 0 <= i < self.entries@.len() && self.entries@[i].key@ == k;
            assert(self.keys()[i] == k);
        }
    }

    pub fn new() -> (r: Self)
        ensures
            r.wf(),
            r@ == Map::<Seq<char>, Value>::empty(),
            r.keys().len() == 0,
    {
        Members { entries: Vec::new() }
    }

    fn position(&self, key: &String) -> (r: Option<usize>)
        requires
            self.wf(),
        ensures
            r.is_some() == self@.contains_key(key@),
            r matches Some(i) ==> i < self.entries@.len() && self.entries@[i as int].key@
                == key@ && self@[key@] == self.entries@[i as int].value,
    {
        let mut i: usize = 0;
        while i < self.entries.len()
            invariant
                self.wf(),
                i <= self.entries.len(),
                forall|j: int| 0 <= j < i ==> self.entries@[j].key@ != key@,
            decreases self.entries.len() - i,
        {
            if self.entries[i].key == *key {
                proof {
                    lemma_entries_lookup(self.entries@, i as int);
                }
                return Some(i);
            }
            i += 1;
        }
        proof {
            lemma_entries_domain(self.entries@, key@);
        }
        None
    }

    /// Binds `key` to `value` and returns what it was bound to before.
    pub fn insert(&mut self, key: String, value: Value) -> (r: Option<Value>)
        requires
            old(self).wf(),
        ensures
            final(self).wf(),
            final(self)@ == old(self)@.insert(key@, value),
            r == if old(self)@.contains_key(key@) {
                Some(old(self)@[key@])
            } else {
                None
            },
            old(self)@.contains_key(key@) ==> final(self).keys() == old(self).keys(),
            !old(self)@.contains_key(key@) ==> final(self).keys() == old(self).keys().push(key@),
    {
        match self.position(&key) {
            Some(i) => {
                let before: Value = self.entries[i].value;
                let ghost entry = Entry { key, value };
                proof {
                    lemma_entries_update(self.entries@, i as int, entry);
                }
                self.entries[i] = Entry { key, value };
                assert(final(self).keys() =~= old(self).keys());
                Some(before)
            },
            None => {
                proof {
                    assert forall|j: int| 0 <= j < self.entries@.len() implies self.entries@[j].key@
                        != key@ by {
                        lemma_entries_domain(self.entries@, key@);
                    }
                }
                self.entries.push(Entry { key, value });
                assert(self.entries@.drop_last() =~= old(self).entries@);
                assert(final(self).keys() =~= old(self).keys().push(key@));
                None
            },
        }
    }

    /// The value bound to `key`, if any.
    pub fn find(&self, key: &String) -> (r: Option<&Value>)
        requires
            self.wf(),
        ensures
            r.is_some() == self@.contains_key(key@),
            r matches Some(v) ==> *v == self@[key@],
    {
        match self.position(key) {
            Some(i) => Some(&self.entries[i].value),
            None => None,
        }
    }

    /// The dictionary that binds every name of `first` and of `second`, and
    /// where both bind a name gives what `second` binds it to.
    pub fn merged(first: &Members, second: &Members) -> (r: Members)
        requires
            first.wf(),
            second.wf(),
        ensures
            r.wf(),
            r@ == first@.union_prefer_right(second@),
    {
        let mut result = Members::new();
        let mut index: usize = 0;
        while index < first.entries.len()
            invariant
                result.wf(),
                index <= first.entries@.len(),
                result@ == entries_map(first.entries@.take(index as int)),
            decreases first.entries@.len() - index,
        {
            let key = first.entries[index].key.clone();
            let _ = result.insert(key, first.entries[index].value);
            assert(first.entries@.take(index + 1).drop_last() =~= first.entries@.take(
                index as int,
            ));
            index += 1;
        }
        assert(first.entries@.take(index as int) =~= first.entries@);
        let mut index: usize = 0;
        assert(result@ =~= first@.union_prefer_right(entries_map(second.entries@.take(0))));
        while index < second.entries.len()
            invariant
                result.wf(),
                index <= second.entries@.len(),
                result@ == first@.union_prefer_right(
                    entries_map(second.entries@.take(index as int)),
                ),
            decreases second.entries@.len() - index,
        {
            let key = second.entries[index].key.clone();
            let _ = result.insert(key, second.entries[index].value);
            assert(second.entries@.take(index + 1).drop_last() =~= second.entries@.take(
                index as int,
            ));
            assert(result@ =~= first@.union_prefer_right(
                entries_map(second.entries@.take(index + 1)),
            ));
            index += 1;
        }
        assert(second.entries@.take(index as int) =~= second.entries@);
        result
    }

    /// Number of names bound.
    pub fn len(&self) -> (r: usize)
        ensures
            r == self.keys().len(),
    {
        self.entries.len()
    }

    /// The `index`-th name, in the order of first binding.
    pub fn key_at(&self, index: usize) -> (r: &String)
        requires
            index < self.keys().len(),
        ensures
            r@ == self.keys()[index as int],
    {
        &self.entries[index].key
    }

    /// The value bound to the `index`-th name.
    pub fn value_at(&self, index: usize) -> (r: Value)
        requires
            self.wf(),
            index < self.keys().len(),
        ensures
            self@.contains_key(self.keys()[index as int]),
            r == self@[self.keys()[index as int]],
    {
        proof {
            lemma_entries_lookup(self.entries@, index as int);
        }
        self.entries[index].value
    }
}

} // verus!

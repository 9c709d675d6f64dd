//! Small maps keyed by name.
use crate::text;
use vstd::prelude::*;

verus! {

/// The map that a list of entries stands for; a later entry of the same name
/// replaces an earlier one.
pub open spec fn entries_map<V>(entries: Seq<(String, V)>) -> Map<Seq<char>, V>
    decreases entries.len(),
{
    if entries.len() == 0 {
        Map::empty()
    } else {
        entries_map(entries.drop_last()).insert(entries.last().0@, entries.last().1)
    }
}

/// Whether no name occurs twice in a list of entries.
pub open spec fn names_distinct<V>(entries: Seq<(String, V)>) -> bool {
    forall|i: int, j: int|
        0 <= i < j < entries.len() ==> #[trigger] entries[i].0@ != #[trigger] entries[j].0@
}

/// A map from names to values that keeps its entries in the order in which
/// their names were first inserted.
#[derive(Debug)]
pub struct NameMap<V> {
    entries: Vec<(String, V)>,
}

impl<V> View for NameMap<V> {
    type V = Map<Seq<char>, V>;

    closed spec fn view(&self) -> Map<Seq<char>, V> {
        entries_map(self.entries@)
    }
}

/// A name is in the map exactly when an entry has it.
pub proof fn lemma_entries_map_contains<V>(entries: Seq<(String, V)>, name: Seq<char>)
    ensures
        entries_map(entries).contains_key(name) <==> exists|i: int|
            0 <= i < entries.len() && #[trigger] entries[i].0@ == name,
    decreases entries.len(),
{
    if entries.len() > 0 {
        let front = entries.drop_last();
        lemma_entries_map_contains(front, name);
        if exists|i: int| 0 <= i < front.len() && #[trigger] front[i].0@ == name {
            let i = choose|i: int| 0 <= i < front.len() && #[trigger] front[i].0@ == name;
            assert(entries[i].0@ == name);
        }
        if exists|i: int| 0 <= i < entries.len() && #[trigger] entries[i].0@ == name {
            let i = choose|i: int| 0 <= i < entries.len() && #[trigger] entries[i].0@ == name;
            if i < entries.len() - 1 {
                assert(front[i].0@ == name);
            } else {
                assert(entries.last().0@ == name);
            }
        }
        if entries.last().0@ == name {
            assert(entries[entries.len() - 1].0@ == name);
        }
    }
}

proof fn lemma_entries_map_value<V>(entries: Seq<(String, V)>, i: int)
    requires
        0 <= i < entries.len(),
        names_distinct(entries),
    ensures
        entries_map(entries).contains_key(entries[i].0@),
        entries_map(entries)[entries[i].0@] == entries[i].1,
    decreases entries.len(),
{
    let front = entries.drop_last();
    if i < entries.len() - 1 {
        assert(front[i] == entries[i]);
        assert(names_distinct(front)) by {
            assert forall|a: int, b: int| 0 <= a < b < front.len() implies #[trigger] front[a].0@
                != #[trigger] front[b].0@ by {
                assert(entries[a].0@ != entries[b].0@);
            }
        }
        lemma_entries_map_value(front, i);
        assert(entries[i].0@ != entries[entries.len() - 1].0@);
    }
}

proof fn lemma_entries_map_update<V>(entries: Seq<(String, V)>, i: int, value: V)
    requires
        0 <= i < entries.len(),
        names_distinct(entries),
    ensures
        entries_map(entries.update(i, (entries[i].0, value))) == entries_map(entries).insert(
            entries[i].0@,
            value,
        ),
    decreases entries.len(),
{
    let changed = entries.update(i, (entries[i].0, value));
    let front = entries.drop_last();
    if i < entries.len() - 1 {
        assert(names_distinct(front)) by {
            assert forall|a: int, b: int| 0 <= a < b < front.len() implies #[trigger] front[a].0@
                != #[trigger] front[b].0@ by {
                assert(entries[a].0@ != entries[b].0@);
            }
        }
        lemma_entries_map_update(front, i, value);
        assert(changed.drop_last() =~= front.update(i, (front[i].0, value)));
        assert(entries[i].0@ != entries[entries.len() - 1].0@);
        assert(entries_map(changed) =~= entries_map(entries).insert(entries[i].0@, value));
    } else {
        assert(changed.drop_last() =~= front);
        assert(entries_map(changed) =~= entries_map(entries).insert(entries[i].0@, value));
    }
}

proof fn lemma_entries_map_len<V>(entries: Seq<(String, V)>)
    requires
        names_distinct(entries),
    ensures
        entries_map(entries).dom().finite(),
        entries_map(entries).dom().len() == entries.len(),
    decreases entries.len(),
{
    if entries.len() > 0 {
        let front = entries.drop_last();
        assert(names_distinct(front)) by {
            assert forall|a: int, b: int| 0 <= a < b < front.len() implies #[trigger] front[a].0@
                != #[trigger] front[b].0@ by {
                assert(entries[a].0@ != entries[b].0@);
            }
        }
        lemma_entries_map_len(front);
        lemma_entries_map_contains(front, entries.last().0@);
        assert forall|i: int| 0 <= i < front.len() implies #[trigger] front[i].0@
            != entries.last().0@ by {
            assert(entries[i].0@ != entries[entries.len() - 1].0@);
        }
        assert(entries_map(entries).dom() =~= entries_map(front).dom().insert(entries.last().0@));
    }
}

impl<V> NameMap<V> {
    #[verifier::type_invariant]
    spec fn inv(self) -> bool {
        names_distinct(self.entries@)
    }

    /// A map without entries.
    pub fn new() -> (m: Self)
        ensures
            m@ == Map::<Seq<char>, V>::empty(),
    {
        NameMap { entries: Vec::new() }
    }

    /// Position of a name among the entries.
    fn position(entries: &Vec<(String, V)>, name: &str) -> (at: Option<usize>)
        ensures
            match at {
                Some(i) => i < entries@.len() && entries@[i as int].0@ == name@,
                None => forall|i: int|
                    0 <= i < entries@.len() ==> #[trigger] entries@[i].0@ != name@,
            },
    {
        let mut i: usize = 0;
        while i < entries.len()
            invariant
                i <= entries@.len(),
                forall|j: int| 0 <= j < i ==> #[trigger] entries@[j].0@ != name@,
            decreases entries@.len() - i,
        {
            if text::same(entries[i].0.as_str(), name) {
                return Some(i);
            }
            i = i + 1;
        }
        None
    }

    /// Sets the value of a name.
    pub fn insert(&mut self, name: String, value: V)
        ensures
            final(self)@ == old(self)@.insert(name@, value),
    {
        proof {
            use_type_invariant(&*self);
        }
        let mut entries: Vec<(String, V)> = Vec::new();
        std::mem::swap(&mut self.entries, &mut entries);
        let ghost before = entries@;
        match Self::position(&entries, name.as_str()) {
            Some(i) => {
                let ghost old_name = entries@[i as int].0;
                entries.set(i, (name, value));
                proof {
                    let swapped = before.update(i as int, (old_name, value));
                    lemma_entries_map_update(before, i as int, value);
                    lemma_same_views(entries@, swapped);
                    assert forall|a: int, b: int| 0 <= a < b < entries@.len() implies
                        #[trigger] entries@[a].0@ != #[trigger] entries@[b].0@ by {
                        assert(before[a].0@ != before[b].0@);
                    }
                }
            },
            None => {
                entries.push((name, value));
                proof {
                    assert(entries@.drop_last() =~= before);
                    assert forall|a: int, b: int| 0 <= a < b < entries@.len() implies
                        #[trigger] entries@[a].0@ != #[trigger] entries@[b].0@ by {
                        if b < before.len() {
                            assert(before[a].0@ != before[b].0@);
                        } else {
                            assert(before[a].0@ != name@);
                        }
                    }
                }
            },
        }
        self.entries = entries;
    }

    /// Changes the value of a name that has one.
    pub fn replace(&mut self, name: &str, value: V)
        requires
            old(self)@.contains_key(name@),
        ensures
            final(self)@ == old(self)@.insert(name@, value),
    {
        self.insert(name.to_owned(), value);
    }

    /// The value of a name.
    pub fn get(&self, name: &str) -> (v: Option<&V>)
        ensures
            match v {
                Some(x) => self@.contains_key(name@) && *x == self@[name@],
                None => !self@.contains_key(name@),
            },
    {
        proof {
            use_type_invariant(&*self);
            lemma_entries_map_contains(self.entries@, name@);
        }
        match Self::position(&self.entries, name) {
            Some(i) => {
                proof {
                    lemma_entries_map_value(self.entries@, i as int);
                }
                Some(&self.entries[i].1)
            },
            None => None,
        }
    }

    /// Whether a name has a value.
    pub fn contains_key(&self, name: &str) -> (b: bool)
        ensures
            b == self@.contains_key(name@),
    {
        self.get(name).is_some()
    }

    /// Number of names.
    pub fn len(&self) -> (n: usize)
        ensures
            n == self@.dom().len(),
    {
        proof {
            use_type_invariant(&*self);
            lemma_entries_map_len(self.entries@);
        }
        self.entries.len()
    }

    /// Whether there is no name.
    pub fn is_empty(&self) -> (b: bool)
        ensures
            b == (self@ == Map::<Seq<char>, V>::empty()),
    {
        proof {
            use_type_invariant(&*self);
            lemma_entries_map_len(self.entries@);
            if self.entries@.len() > 0 {
                lemma_entries_map_value(self.entries@, 0);
            }
        }
        self.entries.len() == 0
    }

    /// The entries, each name once.
    pub fn entries(&self) -> (e: &Vec<(String, V)>)
        ensures
            names_distinct(e@),
            entries_map(e@) == self@,
    {
        proof {
            use_type_invariant(&*self);
        }
        &self.entries
    }
}

impl<V> Default for NameMap<V> {
    fn default() -> (m: Self)
        ensures
            m@ == Map::<Seq<char>, V>::empty(),
    {
        NameMap::new()
    }
}

impl<V: Clone> Clone for NameMap<V> {
    fn clone(&self) -> (res: Self)
        ensures
            res@.dom() == self@.dom(),
            forall|k: Seq<char>|
                self@.contains_key(k) ==> cloned::<V>(self@[k], #[trigger] res@[k]),
    {
        proof {
            use_type_invariant(&*self);
        }
        let mut entries: Vec<(String, V)> = Vec::new();
        let mut i: usize = 0;
        while i < self.entries.len()
            invariant
                i <= self.entries@.len(),
                entries@.len() == i,
                forall|j: int|
                    0 <= j < i ==> (#[trigger] entries@[j]).0@ == self.entries@[j].0@ && cloned::<V>(
                        self.entries@[j].1,
                        entries@[j].1,
                    ),
            decreases self.entries@.len() - i,
        {
            entries.push((self.entries[i].0.clone(), self.entries[i].1.clone()));
            i = i + 1;
        }
        proof {
            let a = self.entries@;
            let b = entries@;
            assert forall|x: int, y: int| 0 <= x < y < b.len() implies #[trigger] b[x].0@
                != #[trigger] b[y].0@ by {
                assert(a[x].0@ != a[y].0@);
            }
            assert forall|k: Seq<char>| entries_map(a).contains_key(k) == entries_map(
                b,
            ).contains_key(k) && (entries_map(a).contains_key(k) ==> cloned::<V>(
                entries_map(a)[k],
                #[trigger] entries_map(b)[k],
            )) by {
                lemma_entries_map_contains(a, k);
                lemma_entries_map_contains(b, k);
                if entries_map(a).contains_key(k) {
                    let j = choose|j: int| 0 <= j < a.len() && #[trigger] a[j].0@ == k;
                    assert(b[j].0@ == k);
                    lemma_entries_map_value(a, j);
                    lemma_entries_map_value(b, j);
                }
                if entries_map(b).contains_key(k) {
                    let j = choose|j: int| 0 <= j < b.len() && #[trigger] b[j].0@ == k;
                    assert(a[j].0@ == k);
                }
            }
            assert forall|k: Seq<char>| #[trigger] entries_map(a).dom().contains(k)
                == entries_map(b).dom().contains(k) by {
                let v = entries_map(b)[k];
            }
            assert(entries_map(a).dom() =~= entries_map(b).dom());
        }
        NameMap { entries }
    }
}

proof fn lemma_same_views<V>(a: Seq<(String, V)>, b: Seq<(String, V)>)
    requires
        a.len() == b.len(),
        forall|i: int|
            0 <= i < a.len() ==> (#[trigger] a[i]).0@ == b[i].0@ && a[i].1 == b[i].1,
    ensures
        entries_map(a) == entries_map(b),
    decreases a.len(),
{
    if a.len() > 0 {
        let x = a.drop_last();
        let y = b.drop_last();
        assert forall|i: int| 0 <= i < x.len() implies (#[trigger] x[i]).0@ == y[i].0@ && x[i].1
            == y[i].1 by {
            assert(a[i].0@ == b[i].0@);
        }
        lemma_same_views(x, y);
        assert(a[a.len() - 1].0@ == b[b.len() - 1].0@);
    }
}

} // verus!

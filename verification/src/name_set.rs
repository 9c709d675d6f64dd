//! Sets of names, kept in order.
use crate::text;
use vstd::prelude::*;

verus! {

/// Whether `a` comes before `b` when bytes are compared from the front.
pub open spec fn bytes_before(a: Seq<u8>, b: Seq<u8>) -> bool
    decreases b.len(),
{
    if b.len() == 0 {
        false
    } else if a.len() == 0 {
        true
    } else if a[0] != b[0] {
        a[0] < b[0]
    } else {
        bytes_before(a.skip(1), b.skip(1))
    }
}

/// Whether the name `a` comes before the name `b`, by their UTF-8 bytes.
pub open spec fn comes_before(a: Seq<char>, b: Seq<char>) -> bool {
    bytes_before(vstd::utf8::encode_utf8(a), vstd::utf8::encode_utf8(b))
}

/// Whether names are in order, none twice.
pub open spec fn in_order(names: Seq<String>) -> bool {
    forall|i: int, j: int|
        0 <= i < j < names.len() ==> comes_before(#[trigger] names[i]@, #[trigger] names[j]@)
}

/// The names in a list.
pub open spec fn names_in(names: Seq<String>) -> Set<Seq<char>> {
    names.map_values(|s: String| s@).to_set()
}

/// A name is in a list exactly when it stands somewhere in it.
pub proof fn lemma_names_in(names: Seq<String>, name: Seq<char>)
    ensures
        names_in(names).contains(name) <==> exists|i: int|
            0 <= i < names.len() && #[trigger] names[i]@ == name,
{
    let views = names.map_values(|s: String| s@);
    if exists|i: int| 0 <= i < names.len() && #[trigger] names[i]@ == name {
        let i = choose|i: int| 0 <= i < names.len() && #[trigger] names[i]@ == name;
        assert(views[i] == name);
        assert(views.contains(name));
    }
    if views.contains(name) {
        let i = choose|i: int| 0 <= i < views.len() && views[i] == name;
        assert(names[i]@ == name);
    }
}

proof fn lemma_bytes_irreflexive(a: Seq<u8>)
    ensures
        !bytes_before(a, a),
    decreases a.len(),
{
    if a.len() > 0 {
        lemma_bytes_irreflexive(a.skip(1));
    }
}

proof fn lemma_bytes_transitive(a: Seq<u8>, b: Seq<u8>, c: Seq<u8>)
    requires
        bytes_before(a, b),
        bytes_before(b, c),
    ensures
        bytes_before(a, c),
    decreases c.len(),
{
    if a.len() > 0 && a[0] == b[0] && b[0] == c[0] {
        lemma_bytes_transitive(a.skip(1), b.skip(1), c.skip(1));
    }
}

proof fn lemma_bytes_total(a: Seq<u8>, b: Seq<u8>)
    ensures
        a == b || bytes_before(a, b) || bytes_before(b, a),
    decreases a.len(),
{
    if a.len() > 0 && b.len() > 0 && a[0] == b[0] {
        lemma_bytes_total(a.skip(1), b.skip(1));
        if a.skip(1) == b.skip(1) {
            assert(a =~= seq![a[0]] + a.skip(1));
            assert(b =~= seq![b[0]] + b.skip(1));
        }
    } else if a.len() == 0 && b.len() == 0 {
        assert(a =~= b);
    }
}

/// Of two different names one comes before the other, and never both.
pub proof fn law_names_are_ordered(a: Seq<char>, b: Seq<char>)
    ensures
        a == b || comes_before(a, b) || comes_before(b, a),
        !(comes_before(a, b) && comes_before(b, a)),
        !comes_before(a, a),
{
    let x = vstd::utf8::encode_utf8(a);
    let y = vstd::utf8::encode_utf8(b);
    vstd::utf8::encode_utf8_decode_utf8(a);
    vstd::utf8::encode_utf8_decode_utf8(b);
    lemma_bytes_total(x, y);
    lemma_bytes_irreflexive(x);
    if bytes_before(x, y) && bytes_before(y, x) {
        lemma_bytes_transitive(x, y, x);
    }
}

/// Whether the name `a` comes before the name `b`.
fn is_before(a: &str, b: &str) -> (r: bool)
    ensures
        r == comes_before(a@, b@),
{
    let x: &[u8] = a.as_bytes();
    let y: &[u8] = b.as_bytes();
    let mut i: usize = 0;
    assert(x@.skip(0) =~= x@);
    assert(y@.skip(0) =~= y@);
    while i < x.len() && i < y.len()
        invariant
            i <= x@.len(),
            i <= y@.len(),
            bytes_before(x@, y@) == bytes_before(x@.skip(i as int), y@.skip(i as int)),
            x@ == vstd::utf8::encode_utf8(a@),
            y@ == vstd::utf8::encode_utf8(b@),
        decreases x@.len() - i,
    {
        if x[i] != y[i] {
            return x[i] < y[i];
        }
        proof {
            assert(x@.skip(i as int).skip(1) =~= x@.skip(i + 1));
            assert(y@.skip(i as int).skip(1) =~= y@.skip(i + 1));
        }
        i = i + 1;
    }
    i < y.len()
}

/// A set of names.
#[derive(Debug)]
pub struct NameSet {
    names: Vec<String>,
}

impl View for NameSet {
    type V = Set<Seq<char>>;

    closed spec fn view(&self) -> Set<Seq<char>> {
        names_in(self.names@)
    }
}

impl NameSet {
    #[verifier::type_invariant]
    spec fn ordered(self) -> bool {
        in_order(self.names@)
    }

    /// The set without names.
    pub fn new() -> (s: Self)
        ensures
            s@ == Set::<Seq<char>>::empty(),
    {
        let s = NameSet { names: Vec::new() };
        proof {
            assert forall|n: Seq<char>| !s@.contains(n) by {
                lemma_names_in(s.names@, n);
            }
            assert(s@ =~= Set::empty());
        }
        s
    }

    /// Number of names that come before `name`.
    fn place(&self, name: &str) -> (p: usize)
        ensures
            p <= self.names@.len(),
            forall|i: int| 0 <= i < p ==> comes_before(#[trigger] self.names@[i]@, name@),
            forall|i: int| p <= i < self.names@.len() ==> !comes_before(
                #[trigger] self.names@[i]@,
                name@,
            ),
            self@.contains(name@) <==> p < self.names@.len() && self.names@[p as int]@ == name@,
    {
        proof {
            use_type_invariant(self);
        }
        let mut p: usize = 0;
        while p < self.names.len() && is_before(self.names[p].as_str(), name)
            invariant
                p <= self.names@.len(),
                forall|i: int| 0 <= i < p ==> comes_before(#[trigger] self.names@[i]@, name@),
            decreases self.names@.len() - p,
        {
            p = p + 1;
        }
        proof {
            let names = self.names@;
            assert forall|i: int| p <= i < names.len() implies !comes_before(
                #[trigger] names[i]@,
                name@,
            ) by {
                if comes_before(names[i]@, name@) {
                    assert(comes_before(names[p as int]@, names[i]@));
                    lemma_bytes_transitive(
                        vstd::utf8::encode_utf8(names[p as int]@),
                        vstd::utf8::encode_utf8(names[i]@),
                        vstd::utf8::encode_utf8(name@),
                    );
                }
            }
            lemma_names_in(names, name@);
            law_names_are_ordered(name@, name@);
            if self@.contains(name@) {
                let i = choose|i: int| 0 <= i < names.len() && #[trigger] names[i]@ == name@;
                if i > p {
                    assert(comes_before(names[p as int]@, names[i]@));
                }
            }
        }
        p
    }

    /// Whether a name is in the set.
    pub fn contains(&self, name: &str) -> (b: bool)
        ensures
            b == self@.contains(name@),
    {
        let p: usize = self.place(name);
        p < self.names.len() && text::same(self.names[p].as_str(), name)
    }

    /// Puts a name into the set. Returns whether it was not in it before.
    pub fn insert(&mut self, name: &str) -> (added: bool)
        ensures
            final(self)@ == old(self)@.insert(name@),
            added == !old(self)@.contains(name@),
    {
        let p: usize = self.place(name);
        proof {
            use_type_invariant(&*self);
        }
        if p < self.names.len() && text::same(self.names[p].as_str(), name) {
            assert(self@.insert(name@) =~= self@);
            return false;
        }
        let ghost before = self.names@;
        let mut names: Vec<String> = Vec::new();
        std::mem::swap(&mut names, &mut self.names);
        names.insert(p, name.to_owned());
        proof {
            let after = names@;
            assert(after == before.insert(p as int, after[p as int]));
            if p < before.len() {
                law_names_are_ordered(name@, before[p as int]@);
            }
            assert forall|i: int, j: int| 0 <= i < j < after.len() implies comes_before(
                #[trigger] after[i]@,
                #[trigger] after[j]@,
            ) by {
                if j < p {
                    assert(after[i] == before[i] && after[j] == before[j]);
                } else if j == p {
                    assert(after[i] == before[i]);
                } else {
                    assert(after[j] == before[j - 1]);
                    if i < p {
                        assert(after[i] == before[i]);
                    } else if i > p {
                        assert(after[i] == before[i - 1]);
                    } else if j - 1 > p {
                        lemma_bytes_transitive(
                            vstd::utf8::encode_utf8(name@),
                            vstd::utf8::encode_utf8(before[p as int]@),
                            vstd::utf8::encode_utf8(before[j - 1]@),
                        );
                    }
                }
            }
            assert forall|n: Seq<char>|
                names_in(after).contains(n) == (names_in(before).contains(n) || n == name@) by {
                lemma_names_in(after, n);
                lemma_names_in(before, n);
                assert(after[p as int]@ == name@);
                if names_in(before).contains(n) {
                    let i = choose|i: int| 0 <= i < before.len() && #[trigger] before[i]@ == n;
                    if i < p {
                        assert(after[i]@ == n);
                    } else {
                        assert(after[i + 1]@ == n);
                    }
                }
                if names_in(after).contains(n) {
                    let i = choose|i: int| 0 <= i < after.len() && #[trigger] after[i]@ == n;
                    if i < p {
                        assert(before[i]@ == n);
                    } else if i > p {
                        assert(before[i - 1]@ == n);
                    }
                }
            }
            assert(names_in(after) =~= names_in(before).insert(name@));
        }
        self.names = names;
        true
    }

    /// Takes a name out of the set. Returns whether it was in it.
    pub fn remove(&mut self, name: &str) -> (removed: bool)
        ensures
            final(self)@ == old(self)@.remove(name@),
            removed == old(self)@.contains(name@),
    {
        let p: usize = self.place(name);
        proof {
            use_type_invariant(&*self);
        }
        if !(p < self.names.len() && text::same(self.names[p].as_str(), name)) {
            assert(self@.remove(name@) =~= self@);
            return false;
        }
        let ghost before = self.names@;
        let mut names: Vec<String> = Vec::new();
        std::mem::swap(&mut names, &mut self.names);
        names.remove(p);
        proof {
            let after = names@;
            assert(after == before.remove(p as int));
            assert forall|i: int, j: int| 0 <= i < j < after.len() implies comes_before(
                #[trigger] after[i]@,
                #[trigger] after[j]@,
            ) by {
                let a = if i < p {
                    i
                } else {
                    i + 1
                };
                let b = if j < p {
                    j
                } else {
                    j + 1
                };
                assert(after[i] == before[a] && after[j] == before[b]);
            }
            assert forall|n: Seq<char>|
                names_in(after).contains(n) == (names_in(before).contains(n) && n != name@) by {
                lemma_names_in(after, n);
                lemma_names_in(before, n);
                law_names_are_ordered(name@, name@);
                if names_in(before).contains(n) && n != name@ {
                    let i = choose|i: int| 0 <= i < before.len() && #[trigger] before[i]@ == n;
                    if i < p {
                        assert(after[i]@ == n);
                    } else {
                        assert(after[i - 1]@ == n);
                    }
                }
                if names_in(after).contains(n) {
                    let i = choose|i: int| 0 <= i < after.len() && #[trigger] after[i]@ == n;
                    if i < p {
                        assert(before[i]@ == n);
                        assert(comes_before(before[i]@, before[p as int]@));
                    } else {
                        assert(before[i + 1]@ == n);
                        assert(comes_before(before[p as int]@, before[i + 1]@));
                    }
                }
            }
            assert(names_in(after) =~= names_in(before).remove(name@));
        }
        self.names = names;
        true
    }

    /// Takes every name out of the set.
    pub fn clear(&mut self)
        ensures
            final(self)@ == Set::<Seq<char>>::empty(),
    {
        *self = NameSet::new();
    }

    /// The names in order.
    pub fn to_vec(&self) -> (v: Vec<String>)
        ensures
            in_order(v@),
            names_in(v@) == self@,
    {
        proof {
            use_type_invariant(self);
        }
        let mut v: Vec<String> = Vec::new();
        let mut i: usize = 0;
        while i < self.names.len()
            invariant
                i <= self.names@.len(),
                v@.len() == i,
                forall|k: int| 0 <= k < i ==> (#[trigger] v@[k])@ == self.names@[k]@,
            decreases self.names@.len() - i,
        {
            v.push(self.names[i].clone());
            i = i + 1;
        }
        proof {
            assert(v@.map_values(|s: String| s@) =~= self.names@.map_values(|s: String| s@));
        }
        v
    }
}

} // verus!

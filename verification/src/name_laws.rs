//! What texts, names and collections of names mean.
use vstd::prelude::*;

verus! {

/// The number that decimal digits stand for.
pub open spec fn number_of(digits: Seq<char>) -> int {
    digits.fold_left(0int, |n: int, c: char| 10 * n + (c as u32 as int - 48))
}

/// A number is written in decimal digits that stand for it, without a zero in
/// front unless it is zero.
pub proof fn law_numbers_are_written_in_decimal(n: nat)
    ensures
        ({
            let s = crate::text::decimal(n);
            &&& s.len() > 0
            &&& number_of(s) == n
            &&& forall|i: int| 0 <= i < s.len() ==> 48 <= (#[trigger] s[i]) as u32 <= 57
            &&& n > 0 ==> s[0] as u32 != 48
            &&& n == 0 ==> s.len() == 1
        }),
    decreases n,
{
    let s = crate::text::decimal(n);
    if n < 10 {
        assert(s.drop_last() =~= Seq::<char>::empty());
        assert(s.last() == s[0]);
        assert(s.drop_last().fold_left(0int, |n: int, c: char| 10 * n + (c as u32 as int - 48))
            == 0);
    } else {
        law_numbers_are_written_in_decimal(n / 10);
        assert(s.drop_last() =~= crate::text::decimal(n / 10));
        assert(s.last() == crate::text::digit(n % 10));
        assert forall|i: int| 0 <= i < s.len() implies 48 <= (#[trigger] s[i]) as u32 <= 57 by {
            if i < s.len() - 1 {
                assert(s.drop_last()[i] == s[i]);
            }
        }
        assert(s.drop_last()[0] == s[0]);
    }
}

/// A list of entries stands for the last value that each name has in it, and
/// for no other name.
pub proof fn law_later_entries_win<V>(entries: Seq<(String, V)>, name: Seq<char>, k: int)
    ensures
        crate::name_map::entries_map(entries).contains_key(name) <==> exists|i: int|
            0 <= i < entries.len() && (#[trigger] entries[i]).0@ == name,
        0 <= k < entries.len() && entries[k].0@ == name && (forall|i: int|
            k < i < entries.len() ==> (#[trigger] entries[i]).0@ != name)
            ==> crate::name_map::entries_map(entries)[name] == entries[k].1,
    decreases entries.len(),
{
    if entries.len() > 0 {
        let front = entries.drop_last();
        law_later_entries_win(front, name, k);
        let n = entries.len() - 1;
        assert(forall|i: int| 0 <= i < n ==> #[trigger] front[i] == entries[i]);
        if front.len() > 0 && crate::name_map::entries_map(front).contains_key(name) {
            let i = choose|i: int| 0 <= i < front.len() && (#[trigger] front[i]).0@ == name;
            assert(entries[i].0@ == name);
        }
        if entries[n].0@ == name {
            assert(crate::name_map::entries_map(entries).contains_key(name));
        }
        if exists|i: int| 0 <= i < entries.len() && (#[trigger] entries[i]).0@ == name {
            let i = choose|i: int| 0 <= i < entries.len() && (#[trigger] entries[i]).0@ == name;
            if i < n {
                assert(front[i].0@ == name);
            }
        }
        if 0 <= k < n && entries[k].0@ == name && (forall|i: int|
            k < i < entries.len() ==> (#[trigger] entries[i]).0@ != name) {
            assert forall|i: int| k < i < front.len() implies (#[trigger] front[i]).0@ != name by {
                assert(entries[i].0@ != name);
            }
            assert(entries[n].0@ != name);
        }
    }
}

/// The names in a list are those that stand in it.
pub proof fn law_lists_hold_their_names(names: Seq<String>, name: Seq<char>)
    ensures
        crate::name_set::names_in(names).contains(name) <==> exists|i: int|
            0 <= i < names.len() && #[trigger] names[i]@ == name,
{
    let s = names.map_values(|s: String| s@);
    if crate::name_set::names_in(names).contains(name) {
        let i = choose|i: int| 0 <= i < s.len() && s[i] == name;
        assert(names[i]@ == name);
    }
    if exists|i: int| 0 <= i < names.len() && #[trigger] names[i]@ == name {
        let i = choose|i: int| 0 <= i < names.len() && #[trigger] names[i]@ == name;
        assert(s[i] == name);
    }
}

/// Of two byte sequences that differ somewhere, the one with the smaller byte
/// at the first difference comes first; one that the other continues comes
/// before it.
pub proof fn law_the_first_difference_decides(a: Seq<u8>, b: Seq<u8>, k: int)
    requires
        0 <= k <= a.len(),
        k <= b.len(),
        forall|i: int| 0 <= i < k ==> a[i] == b[i],
    ensures
        k < a.len() && k < b.len() && a[k] != b[k] ==> (crate::name_set::bytes_before(a, b)
            <==> a[k] < b[k]),
        k == a.len() && k < b.len() ==> crate::name_set::bytes_before(a, b),
        k == b.len() ==> !crate::name_set::bytes_before(a, b),
    decreases k,
{
    if k > 0 {
        let x = a.skip(1);
        let y = b.skip(1);
        assert forall|i: int| 0 <= i < k - 1 implies x[i] == y[i] by {
            assert(a[i + 1] == b[i + 1]);
        }
        law_the_first_difference_decides(x, y, k - 1);
        assert(a[0] == b[0]);
        assert(k < a.len() ==> x[k - 1] == a[k]);
        assert(k < b.len() ==> y[k - 1] == b[k]);
    }
}

/// Names come in the order of their UTF-8 bytes.
pub proof fn law_names_come_in_byte_order(a: Seq<char>, b: Seq<char>)
    ensures
        crate::name_set::comes_before(a, b) == crate::name_set::bytes_before(
            vstd::utf8::encode_utf8(a),
            vstd::utf8::encode_utf8(b),
        ),
{
}

/// Names in order come each before all that stand behind it.
pub proof fn law_ordered_names_come_one_after_the_other(names: Seq<String>, i: int, j: int)
    requires
        crate::name_set::in_order(names),
        0 <= i < j < names.len(),
    ensures
        crate::name_set::comes_before(names[i]@, names[j]@),
        names[i]@ != names[j]@,
{
    crate::name_set::law_names_are_ordered(names[i]@, names[j]@);
}

} // verus!

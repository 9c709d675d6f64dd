//! How well a fingerprint tells schemas apart.
//!
//! A fingerprint has only so many bits, so two schemas may share one. What is
//! hashed is different for every schema, and a field of another type always
//! shows.
use crate::config::FieldSpec;
use crate::serialization::{FNV_OFFSET, FNV_PRIME};
use vstd::prelude::*;

verus! {

/// No byte of a piece of text is the separator.
proof fn lemma_text_has_no_separator(chars: Seq<char>)
    ensures
        forall|i: int|
            0 <= i < vstd::utf8::encode_utf8(chars).len() ==> #[trigger] vstd::utf8::encode_utf8(
                chars,
            )[i] != 0xffu8,
    decreases chars.len(),
{
    if chars.len() > 0 {
        let c = chars[0] as u32;
        lemma_text_has_no_separator(chars.drop_first());
        assert(vstd::utf8::leading_byte_width_1(c) != 0xffu8
            && vstd::utf8::leading_byte_width_2(c) != 0xffu8
            && vstd::utf8::leading_byte_width_3(c) != 0xffu8
            && vstd::utf8::leading_byte_width_4(c) != 0xffu8
            && vstd::utf8::last_continuation_byte(c) != 0xffu8
            && vstd::utf8::second_last_continuation_byte(c) != 0xffu8
            && vstd::utf8::third_last_continuation_byte(c) != 0xffu8) by (bit_vector);
        let head = vstd::utf8::encode_scalar(c);
        let tail = vstd::utf8::encode_utf8(chars.drop_first());
        assert forall|i: int| 0 <= i < (head + tail).len() implies #[trigger] (head + tail)[i]
            != 0xffu8 by {
            if i >= head.len() {
                assert((head + tail)[i] == tail[i - head.len()]);
            }
        }
    }
}

/// What is hashed ends in a separator, unless there are no fields.
proof fn lemma_ends_in_separator(schema: Seq<FieldSpec>, n: nat)
    ensures
        n == 0 ==> crate::serialization::schema_bytes(schema, n).len() == 0,
        n > 0 ==> crate::serialization::schema_bytes(schema, n).len() >= 3
            && crate::serialization::schema_bytes(schema, n).last() == 0xffu8,
{
}

/// A separator and text without one can be taken apart in one way only.
proof fn lemma_split_at_separator(x: Seq<u8>, a: Seq<u8>, y: Seq<u8>, b: Seq<u8>)
    requires
        x + a == y + b,
        x.len() == 0 || x.last() == 0xffu8,
        y.len() == 0 || y.last() == 0xffu8,
        forall|i: int| 0 <= i < a.len() ==> #[trigger] a[i] != 0xffu8,
        forall|i: int| 0 <= i < b.len() ==> #[trigger] b[i] != 0xffu8,
    ensures
        x == y,
        a == b,
{
    let all = x + a;
    assert((y + b).len() == all.len());
    if x.len() < y.len() {
        assert((y + b)[y.len() - 1] == y.last());
        assert(all[y.len() - 1] == a[y.len() - 1 - x.len()]);
    }
    if y.len() < x.len() {
        assert(all[x.len() - 1] == x.last());
        assert((y + b)[x.len() - 1] == b[x.len() - 1 - y.len()]);
    }
    assert(x =~= all.take(x.len() as int));
    assert(y =~= (y + b).take(y.len() as int));
    assert(a =~= all.skip(x.len() as int));
    assert(b =~= (y + b).skip(y.len() as int));
}

/// Different schemas are never hashed alike: what is hashed tells every name
/// and every type, in order.
pub proof fn law_hashed_bytes_tell_the_schema(a: Seq<FieldSpec>, b: Seq<FieldSpec>)
    requires
        crate::serialization::schema_bytes(a, a.len()) == crate::serialization::schema_bytes(
            b,
            b.len(),
        ),
    ensures
        crate::serialization::same_fields(a, b),
{
    lemma_hashed_prefix(a, a.len(), b, b.len());
}

proof fn lemma_hashed_prefix(a: Seq<FieldSpec>, n: nat, b: Seq<FieldSpec>, m: nat)
    requires
        n <= a.len(),
        m <= b.len(),
        crate::serialization::schema_bytes(a, n) == crate::serialization::schema_bytes(b, m),
    ensures
        n == m,
        forall|i: int|
            0 <= i < n ==> (#[trigger] a[i]).name@ == b[i].name@ && a[i].dtype == b[i].dtype,
    decreases n,
{
    lemma_ends_in_separator(a, n);
    lemma_ends_in_separator(b, m);
    if n > 0 {
        let x = crate::serialization::schema_bytes(a, (n - 1) as nat);
        let y = crate::serialization::schema_bytes(b, (m - 1) as nat);
        let fa = a[n - 1];
        let fb = b[m - 1];
        let ta = vstd::utf8::encode_utf8(fa.name@);
        let tb = vstd::utf8::encode_utf8(fb.name@);
        let ends_a = seq![0xffu8, crate::serialization::tag_of(fa.dtype), 0xffu8];
        let ends_b = seq![0xffu8, crate::serialization::tag_of(fb.dtype), 0xffu8];
        let all = crate::serialization::schema_bytes(a, n);
        assert(all =~= (x + ta) + ends_a);
        assert(all =~= (y + tb) + ends_b);
        let at = all.len() - 3;
        assert(all[at + 1] == ends_a[1]);
        assert(all[at + 1] == ends_b[1]);
        assert(x + ta =~= all.take(at as int));
        assert(y + tb =~= all.take(at as int));
        lemma_text_has_no_separator(fa.name@);
        lemma_text_has_no_separator(fb.name@);
        lemma_ends_in_separator(a, (n - 1) as nat);
        lemma_ends_in_separator(b, (m - 1) as nat);
        lemma_split_at_separator(x, ta, y, tb);
        vstd::utf8::encode_utf8_decode_utf8(fa.name@);
        vstd::utf8::encode_utf8_decode_utf8(fb.name@);
        lemma_hashed_prefix(a, (n - 1) as nat, b, (m - 1) as nat);
    }
}

/// Multiplication by the hash's multiplier loses nothing of 32 bits.
proof fn lemma_multiplier_is_odd(x: u32, y: u32)
    requires
        (x * FNV_PRIME) % 0x1_0000_0000 == (y * FNV_PRIME) % 0x1_0000_0000,
    ensures
        x == y,
{
    let m: int = 0x1_0000_0000;
    let d: int = x - y;
    let qx: int = (x * FNV_PRIME) / m;
    let qy: int = (y * FNV_PRIME) / m;
    vstd::arithmetic::div_mod::lemma_fundamental_div_mod((x * FNV_PRIME) as int, m);
    vstd::arithmetic::div_mod::lemma_fundamental_div_mod((y * FNV_PRIME) as int, m);
    let t: int = qx - qy;
    assert(d * 16777619 == m * t);
    assert(16777619int * 899433627 == 1 + 3513497 * m);
    assert(d == m * (t * 899433627 - 3513497 * d)) by (nonlinear_arith)
        requires
            d * 16777619 == m * t,
            16777619int * 899433627 == 1 + 3513497 * m,
    ;
    let k: int = t * 899433627 - 3513497 * d;
    assert(k == 0) by (nonlinear_arith)
        requires
            d == m * k,
            -m < d < m,
            m == 0x1_0000_0000,
    ;
}

/// A step of the hash loses nothing of the hash so far.
proof fn lemma_step_keeps_difference(g: u32, h: u32, byte: u8)
    requires
        g != h,
    ensures
        crate::serialization::fnv_step(g, byte) != crate::serialization::fnv_step(h, byte),
{
    assert(g != h ==> g ^ byte as u32 != h ^ byte as u32) by (bit_vector);
    if crate::serialization::fnv_step(g, byte) == crate::serialization::fnv_step(h, byte) {
        lemma_multiplier_is_odd(g ^ byte as u32, h ^ byte as u32);
    }
}

/// Different bytes show in a step of the hash.
proof fn lemma_step_tells_bytes_apart(h: u32, p: u8, q: u8)
    requires
        p != q,
    ensures
        crate::serialization::fnv_step(h, p) != crate::serialization::fnv_step(h, q),
{
    assert(p != q ==> h ^ p as u32 != h ^ q as u32) by (bit_vector);
    if crate::serialization::fnv_step(h, p) == crate::serialization::fnv_step(h, q) {
        lemma_multiplier_is_odd(h ^ p as u32, h ^ q as u32);
    }
}

/// A difference in the hash so far never goes away.
proof fn lemma_hash_keeps_difference(g: u32, h: u32, bytes: Seq<u8>)
    requires
        g != h,
    ensures
        crate::serialization::fnv(g, bytes) != crate::serialization::fnv(h, bytes),
    decreases bytes.len(),
{
    if bytes.len() > 0 {
        lemma_hash_keeps_difference(g, h, bytes.drop_last());
        lemma_step_keeps_difference(
            crate::serialization::fnv(g, bytes.drop_last()),
            crate::serialization::fnv(h, bytes.drop_last()),
            bytes.last(),
        );
    }
}

/// A field of another type shows in the hash.
proof fn lemma_field_differs(h: u32, a: FieldSpec, b: FieldSpec)
    requires
        a.name@ == b.name@,
        a.dtype != b.dtype,
    ensures
        crate::serialization::fnv(h, crate::serialization::field_bytes(a))
            != crate::serialization::fnv(h, crate::serialization::field_bytes(b)),
{
    let head = vstd::utf8::encode_utf8(a.name@).push(0xffu8);
    let p = crate::serialization::tag_of(a.dtype);
    let q = crate::serialization::tag_of(b.dtype);
    let g = crate::serialization::fnv(h, head);
    let fa = crate::serialization::field_bytes(a);
    let fb = crate::serialization::field_bytes(b);
    assert(fa =~= head.push(p).push(0xffu8));
    assert(fb =~= head.push(q).push(0xffu8));
    lemma_hash_of_push(h, head, p);
    lemma_hash_of_push(h, head, q);
    lemma_hash_of_push(h, head.push(p), 0xff);
    lemma_hash_of_push(h, head.push(q), 0xff);
    lemma_step_tells_bytes_apart(g, p, q);
    lemma_step_keeps_difference(
        crate::serialization::fnv_step(g, p),
        crate::serialization::fnv_step(g, q),
        0xff,
    );
}

proof fn lemma_hash_of_push(h: u32, bytes: Seq<u8>, byte: u8)
    ensures
        crate::serialization::fnv(h, bytes.push(byte)) == crate::serialization::fnv_step(
            crate::serialization::fnv(h, bytes),
            byte,
        ),
{
    assert(bytes.push(byte).drop_last() =~= bytes);
}

/// Peers that declare one field with different types, and agree on all else,
/// never share a fingerprint.
pub proof fn law_fingerprint_tells_types_apart(a: Seq<FieldSpec>, b: Seq<FieldSpec>, k: int)
    requires
        a.len() == b.len(),
        0 <= k < a.len(),
        a[k].dtype != b[k].dtype,
        forall|i: int| 0 <= i < a.len() ==> (#[trigger] a[i]).name@ == b[i].name@,
        forall|i: int| 0 <= i < a.len() && i != k ==> (#[trigger] a[i]).dtype == b[i].dtype,
    ensures
        crate::serialization::fingerprint_of(a) != crate::serialization::fingerprint_of(b),
{
    lemma_prefix_differs(a, b, k, a.len());
}

proof fn lemma_prefix_differs(a: Seq<FieldSpec>, b: Seq<FieldSpec>, k: int, n: nat)
    requires
        a.len() == b.len(),
        0 <= k < n <= a.len(),
        a[k].dtype != b[k].dtype,
        forall|i: int| 0 <= i < a.len() ==> (#[trigger] a[i]).name@ == b[i].name@,
        forall|i: int| 0 <= i < a.len() && i != k ==> (#[trigger] a[i]).dtype == b[i].dtype,
    ensures
        crate::serialization::fnv(FNV_OFFSET, crate::serialization::schema_bytes(a, n))
            != crate::serialization::fnv(FNV_OFFSET, crate::serialization::schema_bytes(b, n)),
    decreases n,
{
    let x = crate::serialization::schema_bytes(a, (n - 1) as nat);
    let y = crate::serialization::schema_bytes(b, (n - 1) as nat);
    let fa = crate::serialization::field_bytes(a[n - 1]);
    let fb = crate::serialization::field_bytes(b[n - 1]);
    assert(a[n - 1].name@ == b[n - 1].name@);
    crate::serialization::lemma_fnv_concat(FNV_OFFSET, x, fa);
    crate::serialization::lemma_fnv_concat(FNV_OFFSET, y, fb);
    if n - 1 > k {
        lemma_prefix_differs(a, b, k, (n - 1) as nat);
        assert(a[n - 1].dtype == b[n - 1].dtype);
        lemma_hash_keeps_difference(
            crate::serialization::fnv(FNV_OFFSET, x),
            crate::serialization::fnv(FNV_OFFSET, y),
            fa,
        );
    } else {
        crate::serialization::lemma_schema_bytes_same(a, b, k as nat);
        lemma_field_differs(crate::serialization::fnv(FNV_OFFSET, x), a[k], b[k]);
    }
}

} // verus!

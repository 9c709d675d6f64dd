//! What becomes of a value at its declared type, on the wire and in an
//! observation.
use crate::config::FieldSpec;
use crate::dtype::DType;
use crate::types::TypedValue;
use vstd::arithmetic::power2::*;
use vstd::prelude::*;

verus! {

/// Smallest and largest integer of a type of so many bytes.
pub open spec fn range_of(bytes: nat, signed: bool) -> (int, int) {
    if signed {
        (-(pow2((8 * bytes - 1) as nat) as int), pow2((8 * bytes - 1) as nat) - 1)
    } else {
        (0int, pow2(8 * bytes) - 1)
    }
}

/// A value is delivered at its declared type: a binary64 field has its very
/// bits, a binary32 field the nearest number, an integer field the whole part
/// held in the type's range, and a truth value is false for the two zeros and
/// for not-a-number alone.
pub proof fn law_values_take_their_declared_type(v: u64, d: DType)
    ensures
        crate::types::typed_value(v, d).tag() == d,
        crate::types::typed_value(v, DType::F64) == TypedValue::F64(v),
        crate::types::typed_value(v, DType::F32) matches TypedValue::F32(x) && x
            == crate::ieee::f32_of_f64(v),
        crate::types::typed_value(v, DType::I32) matches TypedValue::I32(x) && x
            == crate::ieee::f64_to_int(v, -0x8000_0000, 0x7fff_ffff),
        crate::types::typed_value(v, DType::I16) matches TypedValue::I16(x) && x
            == crate::ieee::f64_to_int(v, -0x8000, 0x7fff),
        crate::types::typed_value(v, DType::I8) matches TypedValue::I8(x) && x
            == crate::ieee::f64_to_int(v, -0x80, 0x7f),
        crate::types::typed_value(v, DType::U32) matches TypedValue::U32(x) && x
            == crate::ieee::f64_to_int(v, 0, 0xffff_ffff),
        crate::types::typed_value(v, DType::U16) matches TypedValue::U16(x) && x
            == crate::ieee::f64_to_int(v, 0, 0xffff),
        crate::types::typed_value(v, DType::U8) matches TypedValue::U8(x) && x
            == crate::ieee::f64_to_int(v, 0, 0xff),
        crate::types::typed_value(v, DType::Bool) matches TypedValue::Bool(x) && (x <==> v
            != 0 && v != 0x8000_0000_0000_0000 && !(0x7ff0_0000_0000_0000 < v
            < 0x8000_0000_0000_0000) && !(v > 0xfff0_0000_0000_0000)),
{
    crate::ieee::lemma_f32_of_f64_range(v);
}

/// A value widens to the binary64 pattern that stands for it: an integer to
/// that integer's pattern, true to one and false to zero.
pub proof fn law_values_widen_to_themselves(t: TypedValue)
    ensures
        t matches TypedValue::F64(x) ==> t.widened() == x,
        t matches TypedValue::F32(x) ==> t.widened() == crate::ieee::f64_of_f32(x) as u64,
        t matches TypedValue::I32(x) ==> t.widened() == crate::ieee::f64_of_int(x as int),
        t matches TypedValue::I16(x) ==> t.widened() == crate::ieee::f64_of_int(x as int),
        t matches TypedValue::I8(x) ==> t.widened() == crate::ieee::f64_of_int(x as int),
        t matches TypedValue::U32(x) ==> t.widened() == crate::ieee::f64_of_int(x as int),
        t matches TypedValue::U16(x) ==> t.widened() == crate::ieee::f64_of_int(x as int),
        t matches TypedValue::U8(x) ==> t.widened() == crate::ieee::f64_of_int(x as int),
        t matches TypedValue::Bool(x) ==> (x ==> t.widened() == crate::ieee::f64_of_int(1)) && (!x
            ==> t.widened() == 0),
        t matches TypedValue::I32(_) ==> t.tag() == DType::I32,
        t matches TypedValue::U32(_) ==> t.tag() == DType::U32,
{
    match t {
        TypedValue::I32(x) => crate::ieee::law_int_widening_is_lossless(
            x as int,
            -0x8000_0000,
            0x7fff_ffff,
        ),
        TypedValue::I16(x) => crate::ieee::law_int_widening_is_lossless(
            x as int,
            -0x8000,
            0x7fff,
        ),
        TypedValue::I8(x) => crate::ieee::law_int_widening_is_lossless(x as int, -0x80, 0x7f),
        TypedValue::U32(x) => crate::ieee::law_int_widening_is_lossless(x as int, 0, 0xffff_ffff),
        TypedValue::U16(x) => crate::ieee::law_int_widening_is_lossless(x as int, 0, 0xffff),
        TypedValue::U8(x) => crate::ieee::law_int_widening_is_lossless(x as int, 0, 0xff),
        _ => {},
    }
    lemma2_to64();
    lemma2_to64_rest();
    crate::ieee::lemma_bit_length_unique(1, 1);
    crate::ieee::lemma_pack_f64(1, 0);
    assert(crate::ieee::pack(1, 0, 53, -1074) == 0x3ff0_0000_0000_0000);
}

/// An integer type has as many values as its bytes can tell apart, from zero
/// on or around zero; a binary number of 64 or 32 bits takes eight or four
/// bytes and a truth value one.
pub proof fn law_types_fill_their_bytes(d: DType)
    ensures
        d == DType::F64 ==> d.width() == 8,
        d == DType::F32 ==> d.width() == 4,
        d == DType::Bool ==> d.width() == 1,
        d == DType::I32 || d == DType::U32 ==> d.width() == 4,
        d == DType::I16 || d == DType::U16 ==> d.width() == 2,
        d == DType::I8 || d == DType::U8 ==> d.width() == 1,
        d == DType::I32 || d == DType::I16 || d == DType::I8 ==> (
            crate::dtype::int_min(d),
            crate::dtype::int_max(d),
        ) == range_of(d.width(), true),
        d == DType::U32 || d == DType::U16 || d == DType::U8 ==> (
            crate::dtype::int_min(d),
            crate::dtype::int_max(d),
        ) == range_of(d.width(), false),
        crate::dtype::is_integer(d) <==> d == DType::I32 || d == DType::I16 || d == DType::I8 || d
            == DType::U32 || d == DType::U16 || d == DType::U8,
{
    lemma2_to64();
}

/// On the wire an integer is the whole part of the value held in the type's
/// range, and a negative one is told by adding `256` to the power of the
/// width; a truth value is a one or a zero, and a binary number its pattern.
pub proof fn law_values_on_the_wire(v: u64, d: DType)
    ensures
        d == DType::F64 ==> d.wire_number(v) == v,
        d == DType::F32 ==> d.wire_number(v) == crate::ieee::f32_of_f64(v),
        d == DType::Bool ==> d.wire_number(v) == (if v != 0 && v != 0x8000_0000_0000_0000 && !(
        0x7ff0_0000_0000_0000 < v < 0x8000_0000_0000_0000) && !(v > 0xfff0_0000_0000_0000) {
            1int
        } else {
            0
        }),
        d == DType::I32 || d == DType::I16 || d == DType::I8 || d == DType::U32 || d
            == DType::U16 || d == DType::U8 ==> {
            let n = crate::ieee::f64_to_int(
                v,
                crate::dtype::int_min(d),
                crate::dtype::int_max(d),
            );
            &&& crate::dtype::int_min(d) <= n <= crate::dtype::int_max(d)
            &&& n >= 0 ==> d.wire_number(v) == n
            &&& n < 0 ==> d.wire_number(v) == n + pow2(8 * d.width())
        },
        d.wire_bytes(v) == crate::wire::le_bytes(d.wire_number(v), d.width()),
{
    lemma2_to64();
    crate::ieee::lemma_f32_of_f64_range(v);
}

/// What stands on the wire is read at its type: an unsigned integer as it
/// is, a signed one with the upper half of the numbers below zero, a truth
/// value as true for anything but zero, and a binary number as its pattern.
pub proof fn law_the_wire_is_read_by_type(d: DType, u: nat)
    requires
        u < pow2(8 * d.width()),
    ensures
        d == DType::F64 ==> d.wire_value(u) == u,
        d == DType::F32 ==> d.wire_value(u) == crate::ieee::f64_of_f32(u as u32) as u64,
        d == DType::Bool ==> d.wire_value(u) == (if u == 0 {
            0int
        } else {
            0x3ff0_0000_0000_0000
        }),
        d == DType::U32 || d == DType::U16 || d == DType::U8 ==> d.wire_value(u)
            == crate::ieee::f64_of_int(u as int),
        d == DType::I32 || d == DType::I16 || d == DType::I8 ==> d.wire_value(u)
            == crate::ieee::f64_of_int(
            if 2 * u < pow2(8 * d.width()) {
                u as int
            } else {
                u - pow2(8 * d.width())
            },
        ),
{
    lemma2_to64();
    lemma2_to64_rest();
    if d == DType::U32 || d == DType::U16 || d == DType::U8 {
        crate::ieee::law_int_widening_is_lossless(u as int, 0, 0xffff_ffff);
    }
    if d == DType::I32 || d == DType::I16 || d == DType::I8 {
        let n = if 2 * u < pow2(8 * d.width()) {
            u as int
        } else {
            u - pow2(8 * d.width())
        };
        crate::ieee::law_int_widening_is_lossless(n, -0x8000_0000, 0x7fff_ffff);
    }
}

/// A value is reported as lost exactly where an integer type is left by the
/// number, where a truth value is not a number, or where a finite number
/// turns infinite in binary32; a binary64 field loses nothing.
pub proof fn law_losses_are_reported(v: u64, d: DType)
    ensures
        d == DType::F64 ==> !d.lossy(v),
        d == DType::Bool ==> (d.lossy(v) <==> 0x7ff0_0000_0000_0000 < v < 0x8000_0000_0000_0000
            || v > 0xfff0_0000_0000_0000),
        d == DType::F32 ==> {
            let f = crate::ieee::f32_of_f64(v);
            let finite = v < 0x7ff0_0000_0000_0000 || 0x8000_0000_0000_0000 <= v
                < 0xfff0_0000_0000_0000;
            d.lossy(v) <==> finite && (f == 0x7f80_0000 || f == 0xff80_0000)
        },
        d == DType::I32 || d == DType::I16 || d == DType::I8 || d == DType::U32 || d
            == DType::U16 || d == DType::U8 ==> (d.lossy(v) <==> crate::ieee::f64_outside(
            v,
            crate::dtype::int_min(d),
            crate::dtype::int_max(d),
        )),
{
    crate::ieee::lemma_f32_of_f64_range(v);
}

proof fn lemma_no_other_name(schema: Seq<FieldSpec>, values: Seq<u64>, n: nat, name: Seq<char>)
    requires
        n <= schema.len(),
        forall|l: int| 0 <= l < n ==> (#[trigger] schema[l]).name@ != name,
    ensures
        !crate::types::typed_map(schema, values, n).contains_key(name),
        !crate::types::raw_map(schema, values, n).contains_key(name),
    decreases n,
{
    if n > 0 {
        assert(schema[n - 1].name@ != name);
        lemma_no_other_name(schema, values, (n - 1) as nat, name);
    }
}

proof fn lemma_value_of(schema: Seq<FieldSpec>, values: Seq<u64>, n: nat, k: int)
    requires
        n <= schema.len(),
        n <= values.len(),
        0 <= k < n,
        forall|l: int| k < l < n ==> (#[trigger] schema[l]).name@ != schema[k].name@,
    ensures
        ({
            let name = schema[k].name@;
            let typed = crate::types::typed_map(schema, values, n);
            let raw = crate::types::raw_map(schema, values, n);
            &&& typed.contains_key(name) && raw.contains_key(name)
            &&& typed[name] == crate::types::typed_value(values[k], schema[k].dtype)
            &&& raw[name] == values[k]
        }),
    decreases n,
{
    if k < n - 1 {
        assert(schema[n - 1].name@ != schema[k].name@);
        lemma_value_of(schema, values, (n - 1) as nat, k);
    }
}

/// The value at position `k` is told under the name of the field at position
/// `k`, as it came and at the field's type; where a name is declared again the
/// last one stays. No other name is told, and a value without a field or a
/// field without a value is left out.
pub proof fn law_values_are_told_by_name(
    schema: Seq<FieldSpec>,
    values: Seq<u64>,
    k: int,
    name: Seq<char>,
)
    requires
        0 <= k < schema.len(),
        k < values.len(),
        forall|l: int|
            k < l < schema.len() && l < values.len() ==> (#[trigger] schema[l]).name@
                != schema[k].name@,
    ensures
        ({
            let n = crate::types::paired(schema, values);
            let typed = crate::types::typed_map(schema, values, n);
            let raw = crate::types::raw_map(schema, values, n);
            &&& typed.contains_key(schema[k].name@) && raw.contains_key(schema[k].name@)
            &&& typed[schema[k].name@] == crate::types::typed_value(values[k], schema[k].dtype)
            &&& raw[schema[k].name@] == values[k]
            &&& (forall|l: int|
                0 <= l < schema.len() && l < values.len() ==> (#[trigger] schema[l]).name@
                    != name) ==> !typed.contains_key(name) && !raw.contains_key(name)
        }),
{
    let n = crate::types::paired(schema, values);
    lemma_value_of(schema, values, n, k);
    if forall|l: int|
        0 <= l < schema.len() && l < values.len() ==> (#[trigger] schema[l]).name@ != name {
        lemma_no_other_name(schema, values, n, name);
    }
}

/// A value of a type of the language is the value of the same type here.
pub proof fn law_values_are_taken_at_their_own_type(
    a: i32,
    b: i16,
    c: i8,
    d: u32,
    e: u16,
    f: u8,
    g: bool,
)
    ensures
        <TypedValue as vstd::std_specs::convert::FromSpec<i32>>::from_spec(a) == TypedValue::I32(
            a,
        ),
        <TypedValue as vstd::std_specs::convert::FromSpec<i16>>::from_spec(b) == TypedValue::I16(
            b,
        ),
        <TypedValue as vstd::std_specs::convert::FromSpec<i8>>::from_spec(c) == TypedValue::I8(c),
        <TypedValue as vstd::std_specs::convert::FromSpec<u32>>::from_spec(d) == TypedValue::U32(
            d,
        ),
        <TypedValue as vstd::std_specs::convert::FromSpec<u16>>::from_spec(e) == TypedValue::U16(
            e,
        ),
        <TypedValue as vstd::std_specs::convert::FromSpec<u8>>::from_spec(f) == TypedValue::U8(f),
        <TypedValue as vstd::std_specs::convert::FromSpec<bool>>::from_spec(g)
            == TypedValue::Bool(g),
{
}

/// A pair of a name and a type is a field of that name and type, and bare
/// values are a column that claims no type.
pub proof fn law_pairs_are_fields(pair: (String, DType), values: Vec<u64>)
    ensures
        ({
            let f = <FieldSpec as vstd::std_specs::convert::FromSpec<(String, DType)>>::from_spec(
                pair,
            );
            f.name == pair.0 && f.dtype == pair.1
        }),
        ({
            let c = <crate::types::ChunkColumn as vstd::std_specs::convert::FromSpec<
                Vec<u64>,
            >>::from_spec(values);
            c.values == values && c.dtype is None
        }),
{
}

} // verus!

//! Declared types of state and action fields, and their wire encoding.
use crate::error::{PortalError, PortalResult};
use crate::ieee;
use crate::text;
use crate::wire;
use vstd::arithmetic::power2::*;
use vstd::prelude::*;

verus! {

/// Declared type for a single state or action field.
///
/// The declared type drives the wire width and the value that a receiver
/// reconstructs. Values are carried as binary64 patterns through the library
/// and cast to the declared type only at the wire.
#[derive(Debug, Clone, Copy, PartialEq, Eq, Structural)]
pub enum DType {
    F64,
    F32,
    I32,
    I16,
    I8,
    U32,
    U16,
    U8,
    Bool,
}

/// Smallest value of an integer type.
pub open spec fn int_min(d: DType) -> int {
    match d {
        DType::I32 => -0x8000_0000,
        DType::I16 => -0x8000,
        DType::I8 => -0x80,
        _ => 0,
    }
}

/// Largest value of an integer type.
pub open spec fn int_max(d: DType) -> int {
    match d {
        DType::I32 => 0x7fff_ffff,
        DType::I16 => 0x7fff,
        DType::I8 => 0x7f,
        DType::U32 => 0xffff_ffff,
        DType::U16 => 0xffff,
        DType::U8 => 0xff,
        _ => 0,
    }
}

/// Whether a type holds integers.
pub open spec fn is_integer(d: DType) -> bool {
    d != DType::F64 && d != DType::F32 && d != DType::Bool
}

/// The unsigned number whose bytes stand for the integer `n` in `width`
/// bytes: two's complement.
pub open spec fn twos_complement(n: int, width: nat) -> nat {
    if n < 0 {
        (n + pow2(8 * width)) as nat
    } else {
        n as nat
    }
}

/// The integer that `width` two's-complement bytes stand for.
pub open spec fn from_twos_complement(u: nat, width: nat) -> int {
    if 2 * u >= pow2(8 * width) {
        u - pow2(8 * width)
    } else {
        u as int
    }
}

impl DType {
    /// Stable name of the type, for error messages.
    pub open spec fn name(self) -> Seq<char> {
        match self {
            DType::F64 => "F64"@,
            DType::F32 => "F32"@,
            DType::I32 => "I32"@,
            DType::I16 => "I16"@,
            DType::I8 => "I8"@,
            DType::U32 => "U32"@,
            DType::U16 => "U16"@,
            DType::U8 => "U8"@,
            DType::Bool => "Bool"@,
        }
    }

    /// Stable name of the type, for error messages. The same as the name of
    /// the typed value that carries it.
    pub fn variant_name(self) -> (s: &'static str)
        ensures
            s@ == self.name(),
    {
        match self {
            DType::F64 => "F64",
            DType::F32 => "F32",
            DType::I32 => "I32",
            DType::I16 => "I16",
            DType::I8 => "I8",
            DType::U32 => "U32",
            DType::U16 => "U16",
            DType::U8 => "U8",
            DType::Bool => "Bool",
        }
    }

    /// Byte width on the wire.
    pub open spec fn width(self) -> nat {
        match self {
            DType::F64 => 8,
            DType::F32 | DType::I32 | DType::U32 => 4,
            DType::I16 | DType::U16 => 2,
            DType::I8 | DType::U8 | DType::Bool => 1,
        }
    }

    /// Byte width on the wire.
    pub fn size_bytes(self) -> (size: usize)
        ensures
            size == self.width(),
    {
        match self {
            DType::F64 => 8,
            DType::F32 | DType::I32 | DType::U32 => 4,
            DType::I16 | DType::U16 => 2,
            DType::I8 | DType::U8 | DType::Bool => 1,
        }
    }

    /// The number whose little-endian bytes carry the value `v`.
    pub open spec fn wire_number(self, v: u64) -> nat {
        match self {
            DType::F64 => v as nat,
            DType::F32 => ieee::f32_of_f64(v) as nat,
            DType::Bool => if !ieee::f64_is_zero(v) && !ieee::f64_is_nan(v) {
                1
            } else {
                0
            },
            _ => twos_complement(
                ieee::f64_to_int(v, int_min(self), int_max(self)),
                self.width(),
            ),
        }
    }

    /// The bytes that carry the value `v`.
    pub open spec fn wire_bytes(self, v: u64) -> Seq<u8> {
        wire::le_bytes(self.wire_number(v), self.width())
    }

    /// Whether the type cannot carry `v` beyond ordinary rounding: an integer
    /// type is left by it, a truth value is not a number, or a finite number
    /// turns infinite in binary32.
    pub open spec fn lossy(self, v: u64) -> bool {
        match self {
            DType::F64 => false,
            DType::F32 => ieee::f64_is_finite(v) && !ieee::f32_is_finite(
                ieee::f32_of_f64(v) as u32,
            ),
            DType::Bool => ieee::f64_is_nan(v),
            _ => ieee::f64_outside(v, int_min(self), int_max(self)),
        }
    }

    /// The value that the wire number `u` stands for.
    pub open spec fn wire_value(self, u: nat) -> u64 {
        match self {
            DType::F64 => u as u64,
            DType::F32 => ieee::f64_of_f32(u as u32) as u64,
            DType::I32 | DType::I16 | DType::I8 => ieee::f64_of_int(
                from_twos_complement(u, self.width()),
            ) as u64,
            DType::U32 | DType::U16 | DType::U8 => ieee::f64_of_int(u as int) as u64,
            DType::Bool => if u == 0 {
                0
            } else {
                ieee::F64_ONE
            },
        }
    }

    /// What a receiver reads when the value `v` was sent as this type.
    pub open spec fn delivered(self, v: u64) -> u64 {
        self.wire_value(self.wire_number(v))
    }

    /// Lower and upper end of an integer type.
    fn int_range(self) -> (r: (i64, i64))
        ensures
            r.0 == int_min(self),
            r.1 == int_max(self),
    {
        match self {
            DType::I32 => (-0x8000_0000, 0x7fff_ffff),
            DType::I16 => (-0x8000, 0x7fff),
            DType::I8 => (-0x80, 0x7f),
            DType::U32 => (0, 0xffff_ffff),
            DType::U16 => (0, 0xffff),
            DType::U8 => (0, 0xff),
            _ => (0, 0),
        }
    }

    /// Appends the value `v` at the declared width. Returns `true` when the
    /// value was lossy beyond ordinary rounding, so that the caller can warn.
    pub fn encode(self, v: u64, out: &mut Vec<u8>) -> (saturated: bool)
        ensures
            final(out)@ == old(out)@ + self.wire_bytes(v),
            saturated == self.lossy(v),
    {
        proof {
            lemma2_to64();
        }
        match self {
            DType::F64 => {
                wire::put_le(out, v, 8);
                false
            },
            DType::F32 => {
                let f: u32 = ieee::f32_from_f64(v);
                wire::put_le(out, f as u64, 4);
                let finite: bool = v % ieee::F64_SIGN < ieee::F64_INF;
                let still_finite: bool = f % ieee::F32_SIGN < ieee::F32_INF;
                finite && !still_finite
            },
            DType::Bool => {
                let mag: u64 = v % ieee::F64_SIGN;
                let nan: bool = mag > ieee::F64_INF;
                wire::put_le(
                    out,
                    if mag != 0 && !nan {
                        1
                    } else {
                        0
                    },
                    1,
                );
                nan
            },
            _ => {
                let width: usize = self.size_bytes();
                let (lo, hi): (i64, i64) = self.int_range();
                let n: i64 = ieee::f64_clamp_to_int(v, lo, hi);
                let u: u64 = if n >= 0 {
                    n as u64
                } else if width == 4 {
                    (n + 0x1_0000_0000) as u64
                } else if width == 2 {
                    (n + 0x1_0000) as u64
                } else {
                    (n + 0x100) as u64
                };
                wire::put_le(out, u, width);
                ieee::f64_out_of_range(v, lo, hi)
            },
        }
    }

    /// Text of the error for a buffer of `got` bytes.
    pub open spec fn too_short_text(self, got: nat) -> Seq<char> {
        "dtype "@ + self.name() + " needs "@ + text::decimal(self.width()) + " bytes, got "@
            + text::decimal(got)
    }

    /// Reads a value of this type from the front of `buf`.
    pub fn decode(self, buf: &[u8]) -> (r: PortalResult<u64>)
        ensures
            match r {
                Ok(v) => buf@.len() >= self.width() && v == self.wire_value(
                    wire::le_value(buf@.take(self.width() as int)),
                ),
                Err(e) => {
                    &&& buf@.len() < self.width()
                    &&& e matches PortalError::Deserialization(m)
                    &&& m@ == self.too_short_text(buf@.len())
                },
            },
    {
        let need: usize = self.size_bytes();
        if buf.len() < need {
            let mut m: String = "dtype ".to_owned();
            m.append(self.variant_name());
            m.append(" needs ");
            text::append_decimal(&mut m, need as u128);
            m.append(" bytes, got ");
            text::append_decimal(&mut m, buf.len() as u128);
            return Err(PortalError::Deserialization(m));
        }
        let u: u64 = wire::get_le(buf, 0, need);
        proof {
            lemma2_to64();
            assert(buf@.subrange(0, need as int) =~= buf@.take(need as int));
        }
        Ok(
            match self {
                DType::F64 => u,
                DType::F32 => ieee::f64_from_f32(u as u32),
                DType::Bool => if u == 0 {
                    0
                } else {
                    ieee::F64_ONE
                },
                DType::U32 | DType::U16 | DType::U8 => ieee::f64_from_int(u as i64),
                DType::I32 => if u >= 0x8000_0000 {
                    ieee::f64_from_int(u as i64 - 0x1_0000_0000)
                } else {
                    ieee::f64_from_int(u as i64)
                },
                DType::I16 => if u >= 0x8000 {
                    ieee::f64_from_int(u as i64 - 0x1_0000)
                } else {
                    ieee::f64_from_int(u as i64)
                },
                DType::I8 => if u >= 0x80 {
                    ieee::f64_from_int(u as i64 - 0x100)
                } else {
                    ieee::f64_from_int(u as i64)
                },
            },
        )
    }
}

proof fn lemma_wire_number_fits(d: DType, v: u64)
    ensures
        d.wire_number(v) < pow2(8 * d.width()),
{
    lemma2_to64();
    lemma2_to64_rest();
    if d == DType::F32 {
        ieee::lemma_f32_of_f64_range(v);
    }
}

/// Reading back what was written gives the value that the declared type can
/// carry, and uses exactly the declared number of bytes.
pub proof fn law_decode_undoes_encode(d: DType, v: u64)
    ensures
        d.wire_bytes(v).len() == d.width(),
        d.wire_value(wire::le_value(d.wire_bytes(v))) == d.delivered(v),
{
    lemma_wire_number_fits(d, v);
    wire::law_le_round_trip(d.wire_number(v), d.width());
}

/// A binary64 field arrives bit for bit as it was sent.
pub proof fn law_f64_is_exact(v: u64)
    ensures
        DType::F64.delivered(v) == v,
        !DType::F64.lossy(v),
{
}

/// An integer inside the range of an integer type arrives unchanged and is
/// not reported as saturated.
pub proof fn law_integers_are_exact(d: DType, n: int)
    requires
        is_integer(d),
        int_min(d) <= n <= int_max(d),
    ensures
        d.delivered(ieee::f64_of_int(n) as u64) == ieee::f64_of_int(n),
        !d.lossy(ieee::f64_of_int(n) as u64),
{
    lemma2_to64();
    ieee::law_int_widening_is_lossless(n, int_min(d), int_max(d));
    assert(from_twos_complement(twos_complement(n, d.width()), d.width()) == n || int_min(d)
        == 0);
}

/// A number in binary32 arrives unchanged through a binary32 field and is
/// not reported as lossy.
pub proof fn law_f32_values_are_exact(f: u32)
    requires
        !ieee::f32_is_nan(f),
    ensures
        DType::F32.delivered(ieee::f64_of_f32(f) as u64) == ieee::f64_of_f32(f),
        !DType::F32.lossy(ieee::f64_of_f32(f) as u64),
{
    ieee::law_f32_widening_is_lossless(f);
}

/// Saturation is reported exactly for the values that leave the range of an
/// integer type, and those arrive as the nearer end of the range.
pub proof fn law_saturation(d: DType, v: u64)
    requires
        is_integer(d),
    ensures
        d.lossy(v) && !ieee::f64_is_nan(v) ==> d.delivered(v) == ieee::f64_of_int(
            if ieee::f64_negative(v) {
                int_min(d)
            } else {
                int_max(d)
            },
        ),
        ieee::f64_is_nan(v) ==> d.lossy(v) && d.delivered(v) == 0,
{
    lemma2_to64();
    if d.lossy(v) && !ieee::f64_is_nan(v) {
        let n = if ieee::f64_negative(v) {
            int_min(d)
        } else {
            int_max(d)
        };
        if ieee::f64_is_finite(v) {
            ieee::lemma_exceeding_reaches(
                v,
                if ieee::f64_negative(v) {
                    (-n) as nat
                } else {
                    n as nat
                },
            );
        }
        assert(ieee::f64_to_int(v, int_min(d), int_max(d)) == n);
        ieee::law_int_widening_is_lossless(n, int_min(d), int_max(d));
    }
}

} // verus!

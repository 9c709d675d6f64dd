//! Little-endian integers in byte buffers.
use vstd::arithmetic::power2::*;
use vstd::prelude::*;

verus! {

/// The `width` low bytes of `x`, least significant first.
pub open spec fn le_bytes(x: nat, width: nat) -> Seq<u8>
    decreases width,
{
    if width == 0 {
        Seq::empty()
    } else {
        seq![(x % 256) as u8] + le_bytes(x / 256, (width - 1) as nat)
    }
}

/// The number that a little-endian byte sequence stands for.
pub open spec fn le_value(s: Seq<u8>) -> nat
    decreases s.len(),
{
    if s.len() == 0 {
        0
    } else {
        s[0] as nat + 256 * le_value(s.drop_first())
    }
}

/// Encoding to `width` bytes and reading them back returns the number,
/// whenever it fits.
pub proof fn law_le_round_trip(x: nat, width: nat)
    requires
        x < pow2(8 * width),
    ensures
        le_bytes(x, width).len() == width,
        le_value(le_bytes(x, width)) == x,
    decreases width,
{
    lemma2_to64();
    if width > 0 {
        lemma_pow2_adds(8, (8 * (width - 1)) as nat);
        law_le_round_trip(x / 256, (width - 1) as nat);
        let tail = le_bytes(x / 256, (width - 1) as nat);
        assert(le_bytes(x, width).drop_first() =~= tail);
    }
}

/// Byte `i` of a number is its digit of weight `256^i`: the smallest comes
/// first.
pub proof fn law_le_bytes_are_digits(x: nat, width: nat, i: nat)
    ensures
        le_bytes(x, width).len() == width,
        i < width ==> le_bytes(x, width)[i as int] == (x / pow2(8 * i)) % 256,
    decreases width,
{
    lemma2_to64();
    if width > 0 {
        let tail = le_bytes(x / 256, (width - 1) as nat);
        if i == 0 {
            law_le_bytes_are_digits(x / 256, (width - 1) as nat, 0);
            assert(x / pow2(0) == x);
        } else {
            let j = (i - 1) as nat;
            law_le_bytes_are_digits(x / 256, (width - 1) as nat, j);
            lemma_pow2_adds(8, 8 * j);
            lemma_pow2_pos(8 * j);
            vstd::arithmetic::div_mod::lemma_div_denominator(x as int, 256, pow2(8 * j) as int);
            assert(8 * i == 8 + 8 * j);
            if i < width {
                assert(le_bytes(x, width)[i as int] == tail[j as int]);
            }
        }
    }
}

/// Reading bytes and encoding the number at the same width returns the
/// bytes.
pub proof fn law_le_bytes_of_value(s: Seq<u8>)
    ensures
        le_bytes(le_value(s), s.len()) == s,
        le_value(s) < pow2(8 * s.len()),
    decreases s.len(),
{
    lemma2_to64();
    if s.len() > 0 {
        let tail = s.drop_first();
        law_le_bytes_of_value(tail);
        lemma_pow2_adds(8, 8 * tail.len());
        let v = le_value(tail);
        assert((s[0] as nat + 256 * v) / 256 == v);
        assert((s[0] as nat + 256 * v) % 256 == s[0] as nat);
        assert(seq![s[0]] + tail =~= s);
    }
}

/// Appends the `width` low bytes of `x`.
pub fn put_le(out: &mut Vec<u8>, x: u64, width: usize)
    ensures
        final(out)@ == old(out)@ + le_bytes(x as nat, width as nat),
{
    let mut rest: u64 = x;
    let mut left: usize = width;
    proof {
        assert(out@ + le_bytes(x as nat, width as nat) =~= old(out)@ + le_bytes(
            x as nat,
            width as nat,
        ));
    }
    while left > 0
        invariant
            out@ + le_bytes(rest as nat, left as nat) == old(out)@ + le_bytes(
                x as nat,
                width as nat,
            ),
        decreases left,
    {
        let ghost before = out@;
        out.push((rest % 256) as u8);
        proof {
            let tail = le_bytes(rest as nat / 256, (left - 1) as nat);
            assert(out@ + tail =~= before + le_bytes(rest as nat, left as nat));
        }
        rest = rest / 256;
        left = left - 1;
    }
    assert(out@ + le_bytes(rest as nat, 0) =~= out@);
}

/// Reads `width` bytes at `at` as a little-endian number.
pub fn get_le(data: &[u8], at: usize, width: usize) -> (x: u64)
    requires
        width <= 8,
        at + width <= data@.len(),
    ensures
        x == le_value(data@.subrange(at as int, at + width)),
        x < pow2(8 * width as nat),
{
    let mut x: u64 = 0;
    let mut i: usize = width;
    proof {
        lemma2_to64();
        assert(data@.subrange(at + width, at + width).len() == 0);
    }
    while i > 0
        invariant
            i <= width <= 8,
            at + width <= data@.len(),
            x == le_value(data@.subrange(at + i, at + width)),
            x < pow2(8 * (width - i) as nat),
        decreases i,
    {
        proof {
            assert(data.len() == data@.len());
            let k = (width - i) as nat;
            lemma_pow2_adds(8, 8 * k);
            lemma2_to64();
            lemma2_to64_rest();
            if k < 7 {
                lemma_pow2_strictly_increases(8 * k, 56);
            }
            let s = data@.subrange(at + i - 1, at + width);
            assert(s.drop_first() =~= data@.subrange(at + i, at + width));
            assert(8 * (k + 1) == 8 + 8 * k);
        }
        x = data[at + (i - 1)] as u64 + 256 * x;
        i = i - 1;
    }
    x
}

} // verus!

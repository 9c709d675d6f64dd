//! Wire packets of the state and action streams.
use crate::config::FieldSpec;
use crate::dtype::DType;
use crate::error::PortalError;
use crate::text;
use crate::wire;
use vstd::arithmetic::power2::*;
use vstd::prelude::*;

verus! {

/// Prefix of a state packet: 4 bytes of schema fingerprint, 8 bytes of
/// timestamp.
pub const HEADER_LEN: usize = 12;

/// Prefix of an action packet: that of a state packet, and 8 bytes for the
/// timestamp of the observation that the action answers to. Zero there means
/// that it answers to none.
pub const CORRELATED_HEADER_LEN: usize = 20;

/// Mixed into the fingerprint of the action stream, so that a packet of the
/// other layout is rejected instead of being misread.
pub const ACTION_STREAM_TAG: u32 = 0xa1c0_b001;

/// Start value of the FNV-1a hash.
pub const FNV_OFFSET: u32 = 0x811c_9dc5;

/// Multiplier of the FNV-1a hash.
pub const FNV_PRIME: u32 = 0x0100_0193;

// ---------------------------------------------------------------------------
// Fingerprints
// ---------------------------------------------------------------------------

/// One step of the FNV-1a hash.
pub open spec fn fnv_step(h: u32, byte: u8) -> u32 {
    (((h ^ byte as u32) * FNV_PRIME) % 0x1_0000_0000) as u32
}

/// FNV-1a hash of a byte sequence, starting from `h`.
pub open spec fn fnv(h: u32, bytes: Seq<u8>) -> u32
    decreases bytes.len(),
{
    if bytes.len() == 0 {
        h
    } else {
        fnv_step(fnv(h, bytes.drop_last()), bytes.last())
    }
}

/// Stable tag of a type in the hash.
pub open spec fn tag_of(d: DType) -> u8 {
    match d {
        DType::F64 => 1,
        DType::F32 => 2,
        DType::I32 => 3,
        DType::I16 => 4,
        DType::I8 => 5,
        DType::U32 => 6,
        DType::U16 => 7,
        DType::U8 => 8,
        DType::Bool => 9,
    }
}

/// What is hashed of one field: its name, a separator, its type, a separator.
pub open spec fn field_bytes(f: FieldSpec) -> Seq<u8> {
    vstd::utf8::encode_utf8(f.name@) + seq![0xffu8, tag_of(f.dtype), 0xffu8]
}

/// What is hashed of the first `n` fields.
pub open spec fn schema_bytes(schema: Seq<FieldSpec>, n: nat) -> Seq<u8>
    decreases n,
{
    if n == 0 {
        Seq::empty()
    } else {
        schema_bytes(schema, (n - 1) as nat) + field_bytes(schema[n - 1])
    }
}

/// Fingerprint of a schema: names and types of its fields in order.
pub open spec fn fingerprint_of(schema: Seq<FieldSpec>) -> u32 {
    fnv(FNV_OFFSET, schema_bytes(schema, schema.len()))
}

pub(crate) proof fn lemma_fnv_concat(h: u32, a: Seq<u8>, b: Seq<u8>)
    ensures
        fnv(h, a + b) == fnv(fnv(h, a), b),
    decreases b.len(),
{
    if b.len() == 0 {
        assert(a + b =~= a);
    } else {
        lemma_fnv_concat(h, a, b.drop_last());
        assert((a + b).drop_last() =~= a + b.drop_last());
    }
}

/// Stable tag of a type in the hash. A change here breaks agreement between
/// peers.
pub fn dtype_tag(d: DType) -> (tag: u8)
    ensures
        tag == tag_of(d),
{
    match d {
        DType::F64 => 1,
        DType::F32 => 2,
        DType::I32 => 3,
        DType::I16 => 4,
        DType::I8 => 5,
        DType::U32 => 6,
        DType::U16 => 7,
        DType::U8 => 8,
        DType::Bool => 9,
    }
}

fn hash_byte(h: u32, byte: u8) -> (r: u32)
    ensures
        r == fnv_step(h, byte),
{
    let x: u32 = h ^ (byte as u32);
    (x as u64 * FNV_PRIME as u64 % 0x1_0000_0000) as u32
}

fn hash_bytes(h: u32, bytes: &[u8]) -> (r: u32)
    ensures
        r == fnv(h, bytes@),
{
    let mut r: u32 = h;
    let mut i: usize = 0;
    assert(bytes@.take(0) =~= Seq::<u8>::empty());
    while i < bytes.len()
        invariant
            i <= bytes@.len(),
            r == fnv(h, bytes@.take(i as int)),
        decreases bytes@.len() - i,
    {
        proof {
            let next = bytes@.take(i + 1);
            assert(next.drop_last() =~= bytes@.take(i as int));
            assert(next.last() == bytes@[i as int]);
        }
        r = hash_byte(r, bytes[i]);
        i = i + 1;
    }
    assert(bytes@.take(i as int) =~= bytes@);
    r
}

/// Stable 32-bit fingerprint of a schema, by which peers notice that their
/// schemas disagree. FNV-1a over name, 0xff, type tag, 0xff of every field;
/// not cryptographic.
pub fn schema_fingerprint(schema: &[FieldSpec]) -> (fp: u32)
    ensures
        fp == fingerprint_of(schema@),
{
    let mut h: u32 = FNV_OFFSET;
    let mut i: usize = 0;
    while i < schema.len()
        invariant
            i <= schema@.len(),
            h == fnv(FNV_OFFSET, schema_bytes(schema@, i as nat)),
        decreases schema@.len() - i,
    {
        let ghost name = vstd::utf8::encode_utf8(schema@[i as int].name@);
        let ghost before = schema_bytes(schema@, i as nat);
        let tag: u8 = dtype_tag(schema[i].dtype);
        proof {
            let field = field_bytes(schema@[i as int]);
            let tail = seq![0xffu8, tag, 0xffu8];
            lemma_fnv_concat(FNV_OFFSET, before, field);
            lemma_fnv_concat(h, name, tail);
            let h1 = fnv(h, name);
            assert(tail.drop_last().drop_last().drop_last() =~= Seq::<u8>::empty());
            assert(fnv(h1, tail.drop_last().drop_last().drop_last()) == h1);
            assert(fnv(h1, tail.drop_last().drop_last()) == fnv_step(h1, 0xff));
            assert(fnv(h1, tail.drop_last()) == fnv_step(fnv_step(h1, 0xff), tag));
            assert(fnv(h1, tail) == fnv_step(fnv_step(fnv_step(h1, 0xff), tag), 0xff));
        }
        h = hash_bytes(h, schema[i].name.as_str().as_bytes());
        h = hash_byte(h, 0xff);
        h = hash_byte(h, tag);
        h = hash_byte(h, 0xff);
        i = i + 1;
    }
    h
}

/// Fingerprint of the action stream. It differs from that of the state
/// stream, whose packets have another prefix.
pub fn action_fingerprint(schema: &[FieldSpec]) -> (fp: u32)
    ensures
        fp == fingerprint_of(schema@) ^ ACTION_STREAM_TAG,
{
    schema_fingerprint(schema) ^ ACTION_STREAM_TAG
}

/// The state and action streams of one schema never share a fingerprint.
pub proof fn law_streams_are_told_apart(schema: Seq<FieldSpec>)
    ensures
        fingerprint_of(schema) ^ ACTION_STREAM_TAG != fingerprint_of(schema),
{
    let fp = fingerprint_of(schema);
    assert(fp ^ 0xa1c0_b001u32 != fp) by (bit_vector);
}

/// Whether two schemas declare the same fields in the same order.
pub open spec fn same_fields(a: Seq<FieldSpec>, b: Seq<FieldSpec>) -> bool {
    &&& a.len() == b.len()
    &&& forall|i: int|
        0 <= i < a.len() ==> (#[trigger] a[i]).name@ == b[i].name@ && a[i].dtype == b[i].dtype
}

/// Peers that declare the same fields in the same order agree on the
/// fingerprint, however each built its schema.
pub proof fn law_fingerprint_depends_on_the_fields(a: Seq<FieldSpec>, b: Seq<FieldSpec>)
    requires
        same_fields(a, b),
    ensures
        fingerprint_of(a) == fingerprint_of(b),
{
    lemma_schema_bytes_same(a, b, a.len());
}

pub(crate) proof fn lemma_schema_bytes_same(a: Seq<FieldSpec>, b: Seq<FieldSpec>, n: nat)
    requires
        n <= a.len() == b.len(),
        forall|i: int|
            0 <= i < n ==> (#[trigger] a[i]).name@ == b[i].name@ && a[i].dtype == b[i].dtype,
    ensures
        schema_bytes(a, n) == schema_bytes(b, n),
    decreases n,
{
    if n > 0 {
        lemma_schema_bytes_same(a, b, (n - 1) as nat);
        assert(a[n - 1].name@ == b[n - 1].name@);
    }
}

// ---------------------------------------------------------------------------
// Packet bodies
// ---------------------------------------------------------------------------

/// Bytes taken by the first `n` fields.
pub open spec fn body_len(schema: Seq<FieldSpec>, n: nat) -> nat
    decreases n,
{
    if n == 0 {
        0
    } else {
        body_len(schema, (n - 1) as nat) + schema[n - 1].dtype.width()
    }
}

/// Encoding of the first `n` fields.
pub open spec fn body_bytes(schema: Seq<FieldSpec>, values: Seq<u64>, n: nat) -> Seq<u8>
    decreases n,
{
    if n == 0 {
        Seq::empty()
    } else {
        body_bytes(schema, values, (n - 1) as nat) + schema[n - 1].dtype.wire_bytes(values[n - 1])
    }
}

/// Positions among the first `n` fields whose type cannot carry their value.
pub open spec fn saturated(schema: Seq<FieldSpec>, values: Seq<u64>, n: nat) -> Seq<usize>
    decreases n,
{
    if n == 0 {
        Seq::empty()
    } else {
        let rest = saturated(schema, values, (n - 1) as nat);
        if schema[n - 1].dtype.lossy(values[n - 1]) {
            rest.push((n - 1) as usize)
        } else {
            rest
        }
    }
}

/// Values of the first `n` fields in a packet body.
pub open spec fn body_values(schema: Seq<FieldSpec>, body: Seq<u8>, n: nat) -> Seq<u64>
    decreases n,
{
    if n == 0 {
        Seq::empty()
    } else {
        let at = body_len(schema, (n - 1) as nat) as int;
        body_values(schema, body, (n - 1) as nat).push(
            schema[n - 1].dtype.wire_value(
                wire::le_value(body.subrange(at, at + schema[n - 1].dtype.width())),
            ),
        )
    }
}

/// What a receiver reads of the first `n` values.
pub open spec fn delivered_values(schema: Seq<FieldSpec>, values: Seq<u64>, n: nat) -> Seq<u64> {
    Seq::new(n, |i: int| schema[i].dtype.delivered(values[i]))
}

/// Prefix of a state packet.
pub open spec fn state_header(fingerprint: u32, timestamp_us: u64) -> Seq<u8> {
    wire::le_bytes(fingerprint as nat, 4) + wire::le_bytes(timestamp_us as nat, 8)
}

/// A state packet.
pub open spec fn state_packet(
    fingerprint: u32,
    timestamp_us: u64,
    values: Seq<u64>,
    schema: Seq<FieldSpec>,
) -> Seq<u8> {
    state_header(fingerprint, timestamp_us) + body_bytes(schema, values, schema.len())
}

/// An action packet.
pub open spec fn action_packet(
    fingerprint: u32,
    timestamp_us: u64,
    in_reply_to_ts_us: Option<u64>,
    values: Seq<u64>,
    schema: Seq<FieldSpec>,
) -> Seq<u8> {
    state_header(fingerprint, timestamp_us) + wire::le_bytes(
        match in_reply_to_ts_us {
            Some(ts) => ts as nat,
            None => 0,
        },
        8,
    ) + body_bytes(schema, values, schema.len())
}

/// A packet, and the positions of the fields that saturated at the bounds of
/// their type.
#[derive(Debug)]
pub struct EncodeResult {
    pub payload: Vec<u8>,
    pub saturated_indices: Vec<usize>,
}

/// Appends the encoding of every field.
fn put_body(out: &mut Vec<u8>, values: &[u64], schema: &[FieldSpec]) -> (over: Vec<usize>)
    requires
        values@.len() == schema@.len(),
    ensures
        final(out)@ == old(out)@ + body_bytes(schema@, values@, schema@.len()),
        over@ == saturated(schema@, values@, schema@.len()),
{
    let mut over: Vec<usize> = Vec::new();
    let mut i: usize = 0;
    assert(out@ =~= old(out)@ + body_bytes(schema@, values@, 0));
    while i < schema.len()
        invariant
            values@.len() == schema@.len(),
            i <= schema@.len(),
            out@ == old(out)@ + body_bytes(schema@, values@, i as nat),
            over@ == saturated(schema@, values@, i as nat),
        decreases schema@.len() - i,
    {
        let ghost before = out@;
        let lossy: bool = schema[i].dtype.encode(values[i], out);
        if lossy {
            over.push(i);
        }
        i = i + 1;
        proof {
            let field = schema@[i - 1].dtype.wire_bytes(values@[i - 1]);
            assert(old(out)@ + (body_bytes(schema@, values@, (i - 1) as nat) + field) =~= (old(
                out,
            )@ + body_bytes(schema@, values@, (i - 1) as nat)) + field);
        }
    }
    over
}

/// Encodes a state: fingerprint, timestamp, then every field at the width of
/// its type, all little-endian.
pub fn serialize_values(
    fingerprint: u32,
    timestamp_us: u64,
    values: &[u64],
    schema: &[FieldSpec],
) -> (r: EncodeResult)
    requires
        values@.len() == schema@.len(),
    ensures
        r.payload@ == state_packet(fingerprint, timestamp_us, values@, schema@),
        r.saturated_indices@ == saturated(schema@, values@, schema@.len()),
{
    let mut payload: Vec<u8> = Vec::new();
    wire::put_le(&mut payload, fingerprint as u64, 4);
    wire::put_le(&mut payload, timestamp_us, 8);
    assert(payload@ =~= state_header(fingerprint, timestamp_us));
    let saturated_indices: Vec<usize> = put_body(&mut payload, values, schema);
    EncodeResult { payload, saturated_indices }
}

/// Encodes an action: as a state, with the timestamp of the observation that
/// it answers to, or zero, after its own timestamp.
pub fn serialize_action(
    fingerprint: u32,
    timestamp_us: u64,
    in_reply_to_ts_us: Option<u64>,
    values: &[u64],
    schema: &[FieldSpec],
) -> (r: EncodeResult)
    requires
        values@.len() == schema@.len(),
    ensures
        r.payload@ == action_packet(
            fingerprint,
            timestamp_us,
            in_reply_to_ts_us,
            values@,
            schema@,
        ),
        r.saturated_indices@ == saturated(schema@, values@, schema@.len()),
{
    let mut payload: Vec<u8> = Vec::new();
    wire::put_le(&mut payload, fingerprint as u64, 4);
    wire::put_le(&mut payload, timestamp_us, 8);
    assert(payload@ =~= state_header(fingerprint, timestamp_us));
    wire::put_le(&mut payload, in_reply_to_ts_us.unwrap_or(0), 8);
    let saturated_indices: Vec<usize> = put_body(&mut payload, values, schema);
    EncodeResult { payload, saturated_indices }
}

// ---------------------------------------------------------------------------
// Reading packets
// ---------------------------------------------------------------------------

/// Why a packet was not read. A disagreement on the schema is told apart from
/// a damaged packet.
#[derive(Debug)]
pub enum DecodeError {
    /// The fingerprint in the packet is not that of the local schema.
    SchemaMismatch { expected: u32, got: u32 },
    /// The packet is shorter than its prefix, or not as long as the schema
    /// says.
    Malformed(PortalError),
}

/// The fingerprint at the front of a packet.
pub open spec fn packet_fingerprint(data: Seq<u8>) -> nat {
    wire::le_value(data.subrange(0, 4))
}

/// Length of a packet with a prefix of `header` bytes.
pub open spec fn packet_len(header: nat, schema: Seq<FieldSpec>) -> nat {
    header + body_len(schema, schema.len())
}

/// Whether an error says that a packet of `got` bytes is not `expected` long.
pub open spec fn wrong_length(e: DecodeError, expected: nat, got: nat) -> bool {
    e matches DecodeError::Malformed(PortalError::Deserialization(m)) && m@ == "expected "@
        + text::decimal(expected) + " bytes, got "@ + text::decimal(got)
}

/// Whether an error says that a packet of `got` bytes is too short for the
/// prefix of a state packet.
pub open spec fn short_state(e: DecodeError, got: nat) -> bool {
    e matches DecodeError::Malformed(PortalError::Deserialization(m)) && m@
        == "packet shorter than "@ + text::decimal(12) + "-byte header: got "@ + text::decimal(
        got,
    )
}

/// Whether an error says that a packet of `got` bytes is too short for the
/// prefix of an action packet.
pub open spec fn short_action(e: DecodeError, got: nat) -> bool {
    e matches DecodeError::Malformed(PortalError::Deserialization(m)) && m@
        == "action packet shorter than "@ + text::decimal(20) + "-byte header: got "@
        + text::decimal(got)
}

fn body_size(schema: &[FieldSpec]) -> (n: u128)
    ensures
        n == body_len(schema@, schema@.len()),
        n <= 8 * usize::MAX,
{
    let mut n: u128 = 0;
    let mut i: usize = 0;
    while i < schema.len()
        invariant
            i <= schema@.len(),
            n == body_len(schema@, i as nat),
            n <= 8 * i,
        decreases schema@.len() - i,
    {
        n = n + schema[i].dtype.size_bytes() as u128;
        i = i + 1;
    }
    assert(schema.len() == schema@.len());
    n
}

proof fn lemma_body_len_monotone(schema: Seq<FieldSpec>, a: nat, b: nat)
    requires
        a <= b,
    ensures
        body_len(schema, a) <= body_len(schema, b),
    decreases b,
{
    if a < b {
        lemma_body_len_monotone(schema, a, (b - 1) as nat);
    }
}

/// Reads every field of a packet body that starts at `at`.
fn get_body(data: &[u8], at: usize, schema: &[FieldSpec]) -> (values: Vec<u64>)
    requires
        at <= data@.len(),
        data@.len() == at + body_len(schema@, schema@.len()),
    ensures
        values@ == body_values(schema@, data@.skip(at as int), schema@.len()),
{
    let ghost body = data@.skip(at as int);
    let mut values: Vec<u64> = Vec::new();
    let mut offset: usize = at;
    let mut i: usize = 0;
    while i < schema.len()
        invariant
            at <= data@.len(),
            data@.len() == at + body_len(schema@, schema@.len()),
            body == data@.skip(at as int),
            i <= schema@.len(),
            offset == at + body_len(schema@, i as nat),
            values@ == body_values(schema@, body, i as nat),
        decreases schema@.len() - i,
    {
        let width: usize = schema[i].dtype.size_bytes();
        proof {
            lemma_body_len_monotone(schema@, (i + 1) as nat, schema@.len());
            assert(data@.len() == data.len());
        }
        let field: &[u8] = vstd::slice::slice_subrange(data, offset, offset + width);
        proof {
            let from = offset - at;
            assert(field@.take(width as int) =~= body.subrange(from, from + width));
        }
        match schema[i].dtype.decode(field) {
            Ok(v) => {
                values.push(v);
            },
            Err(_) => {},
        }
        offset = offset + width;
        i = i + 1;
    }
    values
}

/// Reads a state packet: its timestamp and values.
pub fn deserialize_values(data: &[u8], fingerprint: u32, schema: &[FieldSpec]) -> (r: Result<
    (u64, Vec<u64>),
    DecodeError,
>)
    ensures
        ({
            let expected = packet_len(HEADER_LEN as nat, schema@);
            if data@.len() < HEADER_LEN {
                r matches Err(e) && short_state(e, data@.len())
            } else if packet_fingerprint(data@) != fingerprint {
                r matches Err(DecodeError::SchemaMismatch { expected: want, got }) && want
                    == fingerprint && got == packet_fingerprint(data@)
            } else if data@.len() != expected {
                r matches Err(e) && wrong_length(e, expected, data@.len())
            } else {
                r matches Ok(read) && read.0 == wire::le_value(data@.subrange(4, 12)) && read.1@
                    == body_values(schema@, data@.skip(12), schema@.len())
            }
        }),
{
    if data.len() < HEADER_LEN {
        let mut m: String = "packet shorter than ".to_owned();
        text::append_decimal(&mut m, HEADER_LEN as u128);
        m.append("-byte header: got ");
        text::append_decimal(&mut m, data.len() as u128);
        return Err(DecodeError::Malformed(PortalError::Deserialization(m)));
    }
    proof {
        lemma2_to64();
    }
    let got: u32 = wire::get_le(data, 0, 4) as u32;
    if got != fingerprint {
        return Err(DecodeError::SchemaMismatch { expected: fingerprint, got });
    }
    let expected: u128 = HEADER_LEN as u128 + body_size(schema);
    if data.len() as u128 != expected {
        let mut m: String = "expected ".to_owned();
        text::append_decimal(&mut m, expected);
        m.append(" bytes, got ");
        text::append_decimal(&mut m, data.len() as u128);
        return Err(DecodeError::Malformed(PortalError::Deserialization(m)));
    }
    let timestamp_us: u64 = wire::get_le(data, 4, 8);
    Ok((timestamp_us, get_body(data, HEADER_LEN, schema)))
}

/// The timestamp that an action answers to, as it stands in a packet.
pub open spec fn packet_reply(data: Seq<u8>) -> Option<u64> {
    let raw = wire::le_value(data.subrange(12, 20));
    if raw == 0 {
        None
    } else {
        Some(raw as u64)
    }
}

/// Reads an action packet: its timestamp, the timestamp that it answers to,
/// and its values.
pub fn deserialize_action(data: &[u8], fingerprint: u32, schema: &[FieldSpec]) -> (r: Result<
    (u64, Option<u64>, Vec<u64>),
    DecodeError,
>)
    ensures
        ({
            let expected = packet_len(CORRELATED_HEADER_LEN as nat, schema@);
            if data@.len() < CORRELATED_HEADER_LEN {
                r matches Err(e) && short_action(e, data@.len())
            } else if packet_fingerprint(data@) != fingerprint {
                r matches Err(DecodeError::SchemaMismatch { expected: want, got }) && want
                    == fingerprint && got == packet_fingerprint(data@)
            } else if data@.len() != expected {
                r matches Err(e) && wrong_length(e, expected, data@.len())
            } else {
                r matches Ok(read) && read.0 == wire::le_value(data@.subrange(4, 12)) && read.1
                    == packet_reply(data@) && read.2@ == body_values(
                    schema@,
                    data@.skip(20),
                    schema@.len(),
                )
            }
        }),
{
    if data.len() < CORRELATED_HEADER_LEN {
        let mut m: String = "action packet shorter than ".to_owned();
        text::append_decimal(&mut m, CORRELATED_HEADER_LEN as u128);
        m.append("-byte header: got ");
        text::append_decimal(&mut m, data.len() as u128);
        return Err(DecodeError::Malformed(PortalError::Deserialization(m)));
    }
    proof {
        lemma2_to64();
    }
    let got: u32 = wire::get_le(data, 0, 4) as u32;
    if got != fingerprint {
        return Err(DecodeError::SchemaMismatch { expected: fingerprint, got });
    }
    let expected: u128 = CORRELATED_HEADER_LEN as u128 + body_size(schema);
    if data.len() as u128 != expected {
        let mut m: String = "expected ".to_owned();
        text::append_decimal(&mut m, expected);
        m.append(" bytes, got ");
        text::append_decimal(&mut m, data.len() as u128);
        return Err(DecodeError::Malformed(PortalError::Deserialization(m)));
    }
    let timestamp_us: u64 = wire::get_le(data, 4, 8);
    let reply_raw: u64 = wire::get_le(data, 12, 8);
    let in_reply_to_ts_us: Option<u64> = if reply_raw == 0 {
        None
    } else {
        Some(reply_raw)
    };
    Ok((timestamp_us, in_reply_to_ts_us, get_body(data, CORRELATED_HEADER_LEN, schema)))
}

// ---------------------------------------------------------------------------
// Laws
// ---------------------------------------------------------------------------

proof fn lemma_body_bytes_len(schema: Seq<FieldSpec>, values: Seq<u64>, n: nat)
    ensures
        body_bytes(schema, values, n).len() == body_len(schema, n),
    decreases n,
{
    if n > 0 {
        lemma_body_bytes_len(schema, values, (n - 1) as nat);
        crate::dtype::law_decode_undoes_encode(schema[n - 1].dtype, values[n - 1]);
    }
}

/// The encoding of the first `k` fields is a prefix of that of the first `n`.
proof fn lemma_body_prefix(schema: Seq<FieldSpec>, values: Seq<u64>, k: nat, n: nat)
    requires
        k <= n,
    ensures
        body_len(schema, k) <= body_len(schema, n),
        body_bytes(schema, values, n).len() == body_len(schema, n),
        body_bytes(schema, values, n).take(body_len(schema, k) as int) == body_bytes(
            schema,
            values,
            k,
        ),
    decreases n,
{
    lemma_body_bytes_len(schema, values, n);
    lemma_body_bytes_len(schema, values, k);
    if k < n {
        lemma_body_prefix(schema, values, k, (n - 1) as nat);
        let front = body_bytes(schema, values, (n - 1) as nat);
        assert(body_bytes(schema, values, n).take(body_len(schema, k) as int) =~= front.take(
            body_len(schema, k) as int,
        ));
    } else {
        assert(body_bytes(schema, values, n).take(body_len(schema, k) as int) =~= body_bytes(
            schema,
            values,
            k,
        ));
    }
}

proof fn lemma_body_round_trip(schema: Seq<FieldSpec>, values: Seq<u64>, k: nat, n: nat)
    requires
        k <= n,
    ensures
        body_values(schema, body_bytes(schema, values, n), k) == delivered_values(
            schema,
            values,
            k,
        ),
    decreases k,
{
    let body = body_bytes(schema, values, n);
    if k == 0 {
        assert(body_values(schema, body, 0) =~= delivered_values(schema, values, 0));
    } else {
        lemma_body_round_trip(schema, values, (k - 1) as nat, n);
        lemma_body_prefix(schema, values, k, n);
        lemma_body_prefix(schema, values, (k - 1) as nat, k);
        let at = body_len(schema, (k - 1) as nat) as int;
        let field = schema[k - 1].dtype.wire_bytes(values[k - 1]);
        crate::dtype::law_decode_undoes_encode(schema[k - 1].dtype, values[k - 1]);
        let to = body_len(schema, k) as int;
        assert(body.subrange(at, to) =~= body.take(to).subrange(at, to));
        lemma_body_bytes_len(schema, values, (k - 1) as nat);
        assert(body_bytes(schema, values, k).subrange(at, to) =~= field);
        assert(body_values(schema, body, k) =~= delivered_values(schema, values, k));
    }
}

/// A state packet reads back as it was sent: the fingerprint and timestamp
/// unchanged, and every value as its declared type carries it.
pub proof fn law_state_round_trip(
    fingerprint: u32,
    timestamp_us: u64,
    values: Seq<u64>,
    schema: Seq<FieldSpec>,
)
    ensures
        ({
            let p = state_packet(fingerprint, timestamp_us, values, schema);
            &&& p.len() == packet_len(HEADER_LEN as nat, schema)
            &&& packet_fingerprint(p) == fingerprint
            &&& wire::le_value(p.subrange(4, 12)) == timestamp_us
            &&& body_values(schema, p.skip(12), schema.len()) == delivered_values(
                schema,
                values,
                schema.len(),
            )
        }),
{
    let p = state_packet(fingerprint, timestamp_us, values, schema);
    let n = schema.len();
    lemma2_to64();
    wire::law_le_round_trip(fingerprint as nat, 4);
    wire::law_le_round_trip(timestamp_us as nat, 8);
    lemma_body_bytes_len(schema, values, n);
    assert(p.subrange(0, 4) =~= wire::le_bytes(fingerprint as nat, 4));
    assert(p.subrange(4, 12) =~= wire::le_bytes(timestamp_us as nat, 8));
    assert(p.skip(12) =~= body_bytes(schema, values, n));
    lemma_body_round_trip(schema, values, n, n);
}

/// An action packet reads back as it was sent, with the timestamp that it
/// answers to. An action that answers to the timestamp zero reads back as
/// answering to none.
pub proof fn law_action_round_trip(
    fingerprint: u32,
    timestamp_us: u64,
    in_reply_to_ts_us: Option<u64>,
    values: Seq<u64>,
    schema: Seq<FieldSpec>,
)
    ensures
        ({
            let p = action_packet(fingerprint, timestamp_us, in_reply_to_ts_us, values, schema);
            &&& p.len() == packet_len(CORRELATED_HEADER_LEN as nat, schema)
            &&& packet_fingerprint(p) == fingerprint
            &&& wire::le_value(p.subrange(4, 12)) == timestamp_us
            &&& packet_reply(p) == (if in_reply_to_ts_us == Some(0u64) {
                None
            } else {
                in_reply_to_ts_us
            })
            &&& body_values(schema, p.skip(20), schema.len()) == delivered_values(
                schema,
                values,
                schema.len(),
            )
        }),
{
    let p = action_packet(fingerprint, timestamp_us, in_reply_to_ts_us, values, schema);
    let n = schema.len();
    let reply: nat = match in_reply_to_ts_us {
        Some(ts) => ts as nat,
        None => 0,
    };
    lemma2_to64();
    wire::law_le_round_trip(fingerprint as nat, 4);
    wire::law_le_round_trip(timestamp_us as nat, 8);
    wire::law_le_round_trip(reply, 8);
    lemma_body_bytes_len(schema, values, n);
    assert(p.subrange(0, 4) =~= wire::le_bytes(fingerprint as nat, 4));
    assert(p.subrange(4, 12) =~= wire::le_bytes(timestamp_us as nat, 8));
    assert(p.subrange(12, 20) =~= wire::le_bytes(reply, 8));
    assert(p.skip(20) =~= body_bytes(schema, values, n));
    lemma_body_round_trip(schema, values, n, n);
}

/// Peers that declare the same fields read a packet alike.
pub(crate) proof fn lemma_body_same(a: Seq<FieldSpec>, b: Seq<FieldSpec>, body: Seq<u8>, n: nat)
    requires
        same_fields(a, b),
        n <= a.len(),
    ensures
        body_len(a, n) == body_len(b, n),
        body_values(a, body, n) == body_values(b, body, n),
    decreases n,
{
    if n > 0 {
        lemma_body_same(a, b, body, (n - 1) as nat);
        assert(a[n - 1].dtype == b[n - 1].dtype);
    }
}

} // verus!

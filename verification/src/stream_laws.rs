//! What packets hold and what becomes of them, stated over their bytes.
use crate::config::FieldSpec;
use crate::data::{DataOutcome, DataSlot, Outgoing, PublisherView};
use crate::dtype::DType;
use crate::error::PortalError;
use crate::metrics::{DataStream, MetricsView};
use crate::metrics_laws::went_up;
use crate::sync_buffer::SyncBuffer;
use crate::types::{Action, Role, State, TypedValue};
use vstd::prelude::*;

verus! {

// ---------------------------------------------------------------------------
// Fingerprints
// ---------------------------------------------------------------------------

/// A hash takes one byte more by mixing it into the low bits, multiplying by
/// a prime and keeping 32 bits.
pub proof fn law_hashes_go_byte_by_byte(h: u32, bytes: Seq<u8>, b: u8, mixed: u32)
    requires
        mixed == crate::serialization::fnv(h, bytes) ^ b as u32,
    ensures
        crate::serialization::fnv(h, Seq::empty()) == h,
        (mixed * 16_777_619) % 0x1_0000_0000 == crate::serialization::fnv(h, bytes.push(b)),
{
    assert(bytes.push(b).drop_last() =~= bytes);
}

/// A schema is hashed field after field: the name, a separator, the number of
/// the type, a separator. Without fields the fingerprint is where the hash
/// starts.
pub proof fn law_schemas_are_hashed_in_order(schema: Seq<FieldSpec>, f: FieldSpec)
    ensures
        crate::serialization::fingerprint_of(Seq::empty()) == 0x811c_9dc5,
        crate::serialization::schema_bytes(schema.push(f), schema.len() + 1)
            == crate::serialization::schema_bytes(schema, schema.len())
            + crate::serialization::field_bytes(f),
        crate::serialization::field_bytes(f).len() == vstd::utf8::encode_utf8(f.name@).len() + 3,
        crate::serialization::field_bytes(f).take(vstd::utf8::encode_utf8(f.name@).len() as int)
            == vstd::utf8::encode_utf8(f.name@),
        ({
            let b = crate::serialization::field_bytes(f);
            &&& b[b.len() - 3] == 0xff && b[b.len() - 1] == 0xff
            &&& b[b.len() - 2] == 1 <==> f.dtype == DType::F64
            &&& b[b.len() - 2] == 2 <==> f.dtype == DType::F32
            &&& b[b.len() - 2] == 3 <==> f.dtype == DType::I32
            &&& b[b.len() - 2] == 4 <==> f.dtype == DType::I16
            &&& b[b.len() - 2] == 5 <==> f.dtype == DType::I8
            &&& b[b.len() - 2] == 6 <==> f.dtype == DType::U32
            &&& b[b.len() - 2] == 7 <==> f.dtype == DType::U16
            &&& b[b.len() - 2] == 8 <==> f.dtype == DType::U8
            &&& b[b.len() - 2] == 9 <==> f.dtype == DType::Bool
        }),
{
    lemma_schema_prefix(schema, f, schema.len());
    let b = crate::serialization::field_bytes(f);
    assert(b.take(vstd::utf8::encode_utf8(f.name@).len() as int) =~= vstd::utf8::encode_utf8(
        f.name@,
    ));
}

proof fn lemma_schema_prefix(schema: Seq<FieldSpec>, f: FieldSpec, n: nat)
    requires
        n <= schema.len(),
    ensures
        crate::serialization::schema_bytes(schema.push(f), n)
            == crate::serialization::schema_bytes(schema, n),
    decreases n,
{
    if n > 0 {
        lemma_schema_prefix(schema, f, (n - 1) as nat);
        assert(schema.push(f)[n - 1] == schema[n - 1]);
    }
}

/// States go by the fingerprint of their schema, and actions by it with a tag
/// mixed in.
pub proof fn law_streams_have_fingerprints(schema: Seq<FieldSpec>)
    ensures
        crate::data::stream_fingerprint(schema, DataStream::State)
            == crate::serialization::fingerprint_of(schema),
        crate::data::stream_fingerprint(schema, DataStream::Action)
            == crate::serialization::fingerprint_of(schema) ^ 0xa1c0_b001u32,
        crate::data::stream_fingerprint(schema, DataStream::State)
            != crate::data::stream_fingerprint(schema, DataStream::Action),
{
    crate::serialization::law_streams_are_told_apart(schema);
}

// ---------------------------------------------------------------------------
// Packets
// ---------------------------------------------------------------------------

/// Number of bytes before the value of field `k`: those of the fields before
/// it.
pub open spec fn bytes_before(schema: Seq<FieldSpec>, k: int) -> int {
    schema.take(k).fold_left(0int, |sum: int, f: FieldSpec| sum + f.dtype.width())
}

proof fn lemma_bytes_before(schema: Seq<FieldSpec>, k: nat)
    requires
        k <= schema.len(),
    ensures
        crate::serialization::body_len(schema, k) == bytes_before(schema, k as int),
    decreases k,
{
    if k > 0 {
        lemma_bytes_before(schema, (k - 1) as nat);
        let front = schema.take(k as int);
        assert(front.drop_last() =~= schema.take(k - 1));
        assert(front.last() == schema[k - 1]);
    } else {
        assert(schema.take(0).len() == 0);
    }
}

proof fn lemma_body(schema: Seq<FieldSpec>, values: Seq<u64>, n: nat)
    ensures
        crate::serialization::body_bytes(schema, values, n).len()
            == crate::serialization::body_len(schema, n),
    decreases n,
{
    if n > 0 {
        lemma_body(schema, values, (n - 1) as nat);
        crate::dtype::law_decode_undoes_encode(schema[n - 1].dtype, values[n - 1]);
    }
}

proof fn lemma_field_in_body(schema: Seq<FieldSpec>, values: Seq<u64>, n: nat, k: int)
    requires
        0 <= k < n,
    ensures
        ({
            let at = crate::serialization::body_len(schema, k as nat) as int;
            let b = crate::serialization::body_bytes(schema, values, n);
            &&& at + schema[k].dtype.width() <= b.len()
            &&& b.subrange(at, at + schema[k].dtype.width()) == schema[k].dtype.wire_bytes(
                values[k],
            )
        }),
    decreases n,
{
    let at = crate::serialization::body_len(schema, k as nat) as int;
    let b = crate::serialization::body_bytes(schema, values, n);
    let front = crate::serialization::body_bytes(schema, values, (n - 1) as nat);
    lemma_body(schema, values, (n - 1) as nat);
    crate::dtype::law_decode_undoes_encode(schema[n - 1].dtype, values[n - 1]);
    if k < n - 1 {
        lemma_field_in_body(schema, values, (n - 1) as nat, k);
        assert(b.subrange(at, at + schema[k].dtype.width()) =~= front.subrange(
            at,
            at + schema[k].dtype.width(),
        ));
    } else {
        assert(b.subrange(at, at + schema[k].dtype.width()) =~= schema[k].dtype.wire_bytes(
            values[k],
        ));
    }
}

/// The value of each field stands in a packet behind the values of the fields
/// before it, as the bytes of its type, and is read from there.
pub proof fn law_fields_stand_in_order(
    schema: Seq<FieldSpec>,
    values: Seq<u64>,
    body: Seq<u8>,
    k: int,
)
    requires
        0 <= k < schema.len(),
    ensures
        ({
            let at = bytes_before(schema, k);
            let w = schema[k].dtype.width() as int;
            let written = crate::serialization::body_bytes(schema, values, schema.len());
            let read = crate::serialization::body_values(schema, body, schema.len());
            &&& written.len() == bytes_before(schema, schema.len() as int)
            &&& 0 <= at && at + w <= written.len()
            &&& written.subrange(at, at + w) == schema[k].dtype.wire_bytes(values[k])
            &&& read.len() == schema.len()
            &&& read[k] == schema[k].dtype.wire_value(
                crate::wire::le_value(body.subrange(at, at + w)),
            )
        }),
{
    lemma_bytes_before(schema, k as nat);
    lemma_bytes_before(schema, schema.len());
    lemma_body(schema, values, schema.len());
    lemma_field_in_body(schema, values, schema.len(), k);
    lemma_read_field(schema, body, schema.len(), k);
}

proof fn lemma_read_field(schema: Seq<FieldSpec>, body: Seq<u8>, n: nat, k: int)
    requires
        0 <= k < n,
    ensures
        ({
            let at = crate::serialization::body_len(schema, k as nat) as int;
            let read = crate::serialization::body_values(schema, body, n);
            &&& read.len() == n
            &&& read[k] == schema[k].dtype.wire_value(
                crate::wire::le_value(body.subrange(at, at + schema[k].dtype.width())),
            )
        }),
    decreases n,
{
    if k < n - 1 {
        lemma_read_field(schema, body, (n - 1) as nat, k);
    } else {
        lemma_read_len(schema, body, (n - 1) as nat);
    }
}

proof fn lemma_read_len(schema: Seq<FieldSpec>, body: Seq<u8>, n: nat)
    ensures
        crate::serialization::body_values(schema, body, n).len() == n,
    decreases n,
{
    if n > 0 {
        lemma_read_len(schema, body, (n - 1) as nat);
    }
}

/// A state packet is the fingerprint in four bytes, the timestamp in eight
/// and the values; an action packet has the timestamp that it answers to, or
/// zero, in eight bytes before the values.
pub proof fn law_packets_are_laid_out(
    fp: u32,
    ts: u64,
    reply: Option<u64>,
    values: Seq<u64>,
    schema: Seq<FieldSpec>,
)
    ensures
        ({
            let s = crate::serialization::state_packet(fp, ts, values, schema);
            let a = crate::serialization::action_packet(fp, ts, reply, values, schema);
            let body = crate::serialization::body_bytes(schema, values, schema.len());
            &&& s.len() == 12 + body.len() && a.len() == 20 + body.len()
            &&& s.subrange(0, 4) == crate::wire::le_bytes(fp as nat, 4)
            &&& s.subrange(4, 12) == crate::wire::le_bytes(ts as nat, 8)
            &&& s.skip(12) == body
            &&& a.subrange(0, 4) == crate::wire::le_bytes(fp as nat, 4)
            &&& a.subrange(4, 12) == crate::wire::le_bytes(ts as nat, 8)
            &&& reply is Some ==> a.subrange(12, 20) == crate::wire::le_bytes(
                reply->0 as nat,
                8,
            )
            &&& reply is None ==> a.subrange(12, 20) == crate::wire::le_bytes(0, 8)
            &&& a.skip(20) == body
        }),
{
    let s = crate::serialization::state_packet(fp, ts, values, schema);
    let a = crate::serialization::action_packet(fp, ts, reply, values, schema);
    let body = crate::serialization::body_bytes(schema, values, schema.len());
    let r: nat = match reply {
        Some(t) => t as nat,
        None => 0,
    };
    crate::wire::law_le_bytes_are_digits(fp as nat, 4, 0);
    crate::wire::law_le_bytes_are_digits(ts as nat, 8, 0);
    crate::wire::law_le_bytes_are_digits(r, 8, 0);
    assert(s.subrange(0, 4) =~= crate::wire::le_bytes(fp as nat, 4));
    assert(s.subrange(4, 12) =~= crate::wire::le_bytes(ts as nat, 8));
    assert(s.skip(12) =~= body);
    assert(a.subrange(0, 4) =~= crate::wire::le_bytes(fp as nat, 4));
    assert(a.subrange(4, 12) =~= crate::wire::le_bytes(ts as nat, 8));
    assert(a.subrange(12, 20) =~= crate::wire::le_bytes(r, 8));
    assert(a.skip(20) =~= body);
}

/// The fields whose value is lost are told by their positions, from the first
/// to the last; no other position is told.
pub proof fn law_lost_values_are_told_by_position(
    schema: Seq<FieldSpec>,
    values: Seq<u64>,
    n: nat,
    k: usize,
)
    requires
        n <= usize::MAX,
    ensures
        ({
            let lost = crate::serialization::saturated(schema, values, n);
            &&& lost.contains(k) <==> k < n && schema[k as int].dtype.lossy(values[k as int])
            &&& forall|i: int, j: int|
                0 <= i < j < lost.len() ==> #[trigger] lost[i] < #[trigger] lost[j]
            &&& forall|i: int| 0 <= i < lost.len() ==> #[trigger] lost[i] < n
        }),
    decreases n,
{
    if n > 0 {
        law_lost_values_are_told_by_position(schema, values, (n - 1) as nat, k);
        let before = crate::serialization::saturated(schema, values, (n - 1) as nat);
        let lost = crate::serialization::saturated(schema, values, n);
        if before.contains(k) {
            let i = choose|i: int| 0 <= i < before.len() && before[i] == k;
            assert(lost[i] == k);
        }
        if lost.contains(k) {
            let i = choose|i: int| 0 <= i < lost.len() && lost[i] == k;
            if i < before.len() {
                assert(before[i] == k);
            }
        }
        if k == n - 1 && schema[k as int].dtype.lossy(values[k as int]) {
            assert(lost[lost.len() - 1] == k);
        }
    }
}

/// What a receiver reads of each value is what its type carries of it.
pub proof fn law_receivers_read_what_types_carry(
    schema: Seq<FieldSpec>,
    values: Seq<u64>,
    n: nat,
    k: int,
)
    requires
        0 <= k < n,
    ensures
        crate::serialization::delivered_values(schema, values, n).len() == n,
        crate::serialization::delivered_values(schema, values, n)[k]
            == schema[k].dtype.wire_value(schema[k].dtype.wire_number(values[k])),
{
}

/// A packet is too short below its prefix; else it is of another schema where
/// its first four bytes are another number, little end first; else it is
/// sound exactly where its values take up the rest.
pub proof fn law_packets_are_checked(
    data: Seq<u8>,
    header: nat,
    fp: u32,
    schema: Seq<FieldSpec>,
)
    requires
        header >= 4,
    ensures
        ({
            let c = crate::data::packet_check(data, header, fp, schema);
            let got = data[0] + 0x100 * data[1] + 0x1_0000 * data[2] + 0x100_0000 * data[3];
            &&& c is Short <==> data.len() < header
            &&& c is Foreign <==> data.len() >= header && got != fp
            &&& c is WrongLength <==> data.len() >= header && got == fp && data.len() != header
                + bytes_before(schema, schema.len() as int)
            &&& c is Sound <==> data.len() >= header && got == fp && data.len() == header
                + bytes_before(schema, schema.len() as int)
            &&& data.len() >= 4 ==> crate::serialization::packet_fingerprint(data) == got
            &&& crate::serialization::packet_len(header, schema) == header + bytes_before(
                schema,
                schema.len() as int,
            )
        }),
{
    lemma_bytes_before(schema, schema.len());
    if data.len() >= 4 {
        let b = data.subrange(0, 4);
        reveal_with_fuel(crate::wire::le_value, 5);
        assert(crate::wire::le_value(b) == b[0] + 0x100 * b[1] + 0x1_0000 * b[2] + 0x100_0000
            * b[3]);
    }
}

// ---------------------------------------------------------------------------
// Sending
// ---------------------------------------------------------------------------

/// A field takes the value that is given for it and keeps the last one where
/// none is.
pub proof fn law_fields_keep_their_last_value(
    schema: Seq<FieldSpec>,
    last: Seq<u64>,
    map: Map<Seq<char>, TypedValue>,
    k: int,
)
    requires
        0 <= k < last.len(),
        last.len() == schema.len(),
    ensures
        ({
            let next = crate::data::carried_forward(schema, last, map);
            &&& next.len() == last.len()
            &&& map.contains_key(schema[k].name@) ==> next[k] == map[schema[k].name@].widened()
            &&& !map.contains_key(schema[k].name@) ==> next[k] == last[k]
        }),
{
}

/// Before the first update every field stands at zero and nothing was
/// reported.
pub proof fn law_publishers_start_at_zero(schema: Seq<FieldSpec>, stream: DataStream, k: int)
    requires
        0 <= k < schema.len(),
    ensures
        ({
            let p = crate::data::fresh_publisher(schema, stream);
            &&& p.schema == schema && p.stream == stream
            &&& p.last_values.len() == schema.len() && p.last_values[k] == 0
            &&& p.warned_saturated == Set::<usize>::empty()
            &&& p.warned_unknown_keys == Set::<Seq<char>>::empty()
        }),
{
}

/// An update is refused exactly where it gives a declared field a value of
/// another type; the error names the first such field, the type that it
/// declares and the one that was given.
pub proof fn law_wrong_types_are_named(
    schema: Seq<FieldSpec>,
    map: Map<Seq<char>, TypedValue>,
    e: PortalError,
)
    ensures
        crate::data::types_agree(schema, map) <==> forall|i: int|
            0 <= i < schema.len() && map.contains_key((#[trigger] schema[i]).name@)
                ==> map[schema[i].name@].tag() == schema[i].dtype,
        crate::data::names_first_mismatch(e, schema, map) ==> exists|i: int|
            {
                &&& 0 <= i < schema.len()
                &&& map.contains_key((#[trigger] schema[i]).name@)
                &&& map[schema[i].name@].tag() != schema[i].dtype
                &&& e matches PortalError::DtypeMismatch { field, expected, got }
                &&& field@ == schema[i].name@
                &&& expected == schema[i].dtype
                &&& got@ == map[schema[i].name@].tag().name()
                &&& forall|j: int|
                    0 <= j < i && map.contains_key((#[trigger] schema[j]).name@)
                        ==> map[schema[j].name@].tag() == schema[j].dtype
            },
{
    assert forall|i: int| 0 <= i < schema.len() implies crate::data::field_agrees(
        #[trigger] schema[i],
        map,
    ) == (map.contains_key(schema[i].name@) ==> map[schema[i].name@].tag()
        == schema[i].dtype) by {}
    if crate::data::names_first_mismatch(e, schema, map) {
        let i = choose|i: int|
            {
                &&& 0 <= i < schema.len()
                &&& !crate::data::field_agrees(#[trigger] schema[i], map)
                &&& forall|j: int|
                    0 <= j < i ==> crate::data::field_agrees(#[trigger] schema[j], map)
                &&& e matches PortalError::DtypeMismatch { field, expected, got }
                &&& field@ == schema[i].name@
                &&& expected == schema[i].dtype
                &&& got@ == map[schema[i].name@].tag().name()
            };
        assert(map.contains_key(schema[i].name@));
        assert forall|j: int|
            0 <= j < i && map.contains_key((#[trigger] schema[j]).name@) implies map[
            schema[j].name@].tag() == schema[j].dtype by {
            assert(crate::data::field_agrees(schema[j], map));
        }
    }
}

/// Of what is to be reported, each item that was not reported before is told
/// once, and is remembered with all the others.
pub proof fn law_each_item_is_told_once(items: Seq<usize>, reported: Set<usize>, x: usize)
    ensures
        crate::data::reported_after(items, reported).contains(x) <==> reported.contains(x)
            || items.contains(x),
        crate::data::newly_reported(items, reported).contains(x) <==> items.contains(x)
            && !reported.contains(x),
        crate::data::newly_reported(items, reported).no_duplicates(),
    decreases items.len(),
{
    if items.len() > 0 {
        let front = items.drop_last();
        law_each_item_is_told_once(front, reported, x);
        law_each_item_is_told_once(front, reported, items.last());
        assert(items.contains(x) <==> front.contains(x) || items.last() == x) by {
            if items.contains(x) {
                let i = choose|i: int| 0 <= i < items.len() && items[i] == x;
                if i < front.len() {
                    assert(front[i] == x);
                }
            }
            if front.contains(x) {
                let i = choose|i: int| 0 <= i < front.len() && front[i] == x;
                assert(items[i] == x);
            }
            if items.last() == x {
                assert(items[items.len() - 1] == x);
            }
        }
        assert(items[items.len() - 1] == items.last());
        let told = crate::data::newly_reported(front, reported);
        let now = crate::data::newly_reported(items, reported);
        if now != told {
            assert(now == told.push(items.last()));
            assert(now.contains(x) <==> told.contains(x) || items.last() == x) by {
                if told.contains(x) {
                    let i = choose|i: int| 0 <= i < told.len() && told[i] == x;
                    assert(now[i] == x);
                }
                if items.last() == x {
                    assert(now[now.len() - 1] == x);
                }
                if now.contains(x) {
                    let i = choose|i: int| 0 <= i < now.len() && now[i] == x;
                    if i < told.len() {
                        assert(told[i] == x);
                    }
                }
            }
        }
    }
}

/// Items are told in the order in which they come: one more is told behind
/// the others, where it is new.
pub proof fn law_items_are_told_in_order(items: Seq<usize>, reported: Set<usize>, x: usize)
    ensures
        crate::data::newly_reported(Seq::empty(), reported).len() == 0,
        reported.contains(x) || items.contains(x) ==> crate::data::newly_reported(
            items.push(x),
            reported,
        ) == crate::data::newly_reported(items, reported),
        !reported.contains(x) && !items.contains(x) ==> crate::data::newly_reported(
            items.push(x),
            reported,
        ) == crate::data::newly_reported(items, reported).push(x),
{
    assert(items.push(x).drop_last() =~= items);
    law_each_item_is_told_once(items, reported, x);
}

/// A name is told as unknown where it is given, no field has it and it was
/// not told before.
pub proof fn law_unknown_names_are_told_once(
    schema: Seq<FieldSpec>,
    map: Map<Seq<char>, TypedValue>,
    reported: Set<Seq<char>>,
    name: Seq<char>,
)
    ensures
        crate::data::newly_unknown(schema, map, reported, name) <==> map.contains_key(name)
            && !reported.contains(name) && forall|i: int|
            0 <= i < schema.len() ==> (#[trigger] schema[i]).name@ != name,
{
}

/// What a publisher sends are the values of all fields, those given and those
/// kept, at their types; it keeps what it sent for the next update.
pub proof fn law_updates_send_every_field(
    before: PublisherView,
    after: PublisherView,
    map: Map<Seq<char>, TypedValue>,
    reply: Option<u64>,
    out: Outgoing,
    k: int,
)
    requires
        crate::data::sent_from(before, after, map, reply, out),
        before.last_values.len() == before.schema.len(),
        before.schema.len() <= usize::MAX,
        0 <= k < before.schema.len(),
        before.stream == DataStream::State || before.stream == DataStream::Action,
    ensures
        ({
            let given = map.contains_key(before.schema[k].name@);
            let v = if given {
                map[before.schema[k].name@].widened()
            } else {
                before.last_values[k]
            };
            let d = before.schema[k].dtype;
            let header = if before.stream == DataStream::State {
                12int
            } else {
                20
            };
            let at = header + bytes_before(before.schema, k);
            &&& after.last_values.len() == before.last_values.len()
            &&& after.last_values[k] == v
            &&& after.schema == before.schema && after.stream == before.stream
            &&& out.wire_values@.len() == before.schema.len()
            &&& out.wire_values@[k] == d.wire_value(d.wire_number(v))
            &&& at + d.width() <= out.payload@.len()
            &&& out.payload@.subrange(at, at + d.width()) == d.wire_bytes(v)
            &&& out.payload@.subrange(0, 4) == crate::wire::le_bytes(
                crate::data::stream_fingerprint(before.schema, before.stream) as nat,
                4,
            )
            &&& out.payload@.subrange(4, 12) == crate::wire::le_bytes(out.timestamp_us as nat, 8)
            &&& before.stream == DataStream::Action ==> out.payload@.subrange(12, 20)
                == crate::wire::le_bytes(
                if reply is Some {
                    reply->0 as nat
                } else {
                    0
                },
                8,
            )
            &&& out.saturated_fields@.contains(k as usize) <==> d.lossy(v)
                && !before.warned_saturated.contains(k as usize)
            &&& after.warned_saturated.contains(k as usize) <==> d.lossy(v)
                || before.warned_saturated.contains(k as usize)
        }),
{
    let schema = before.schema;
    let last = crate::data::carried_forward(schema, before.last_values, map);
    let fp = crate::data::stream_fingerprint(schema, before.stream);
    law_fields_stand_in_order(schema, last, Seq::empty(), k);
    law_packets_are_laid_out(fp, out.timestamp_us, reply, last, schema);
    let body = crate::serialization::body_bytes(schema, last, schema.len());
    let header = if before.stream == DataStream::State {
        12int
    } else {
        20
    };
    let at = bytes_before(schema, k);
    let w = schema[k].dtype.width() as int;
    assert(out.payload@.skip(header) == body);
    assert(out.payload@.subrange(header + at, header + at + w) =~= body.subrange(at, at + w));
    let over = crate::serialization::saturated(schema, last, schema.len());
    law_lost_values_are_told_by_position(schema, last, schema.len(), k as usize);
    law_each_item_is_told_once(over, before.warned_saturated, k as usize);
}

// ---------------------------------------------------------------------------
// Receiving
// ---------------------------------------------------------------------------

/// Whether no field behind field `k` has its name.
pub open spec fn last_of_its_name(schema: Seq<FieldSpec>, k: int) -> bool {
    &&& 0 <= k < schema.len()
    &&& forall|l: int| k < l < schema.len() ==> (#[trigger] schema[l]).name@ != schema[k].name@
}

/// Whether field `k` is told under its name with what a packet holds in its
/// place: as it stands, and at the field's type.
pub open spec fn told_from(
    typed: Map<Seq<char>, TypedValue>,
    raw: Map<Seq<char>, u64>,
    schema: Seq<FieldSpec>,
    packet: Seq<u8>,
    header: int,
    k: int,
) -> bool {
    let at = header + bytes_before(schema, k);
    let d = schema[k].dtype;
    let v = d.wire_value(crate::wire::le_value(packet.subrange(at, at + d.width())));
    &&& typed.contains_key(schema[k].name@) && raw.contains_key(schema[k].name@)
    &&& raw[schema[k].name@] == v
    &&& typed[schema[k].name@] == crate::types::typed_value(v, d)
}

proof fn lemma_told_from(schema: Seq<FieldSpec>, packet: Seq<u8>, header: nat, k: int)
    requires
        last_of_its_name(schema, k),
        packet.len() == header + bytes_before(schema, schema.len() as int),
    ensures
        ({
            let values = crate::serialization::body_values(
                schema,
                packet.skip(header as int),
                schema.len(),
            );
            let n = crate::types::paired(schema, values);
            told_from(
                crate::types::typed_map(schema, values, n),
                crate::types::raw_map(schema, values, n),
                schema,
                packet,
                header as int,
                k,
            )
        }),
{
    let body = packet.skip(header as int);
    let values = crate::serialization::body_values(schema, body, schema.len());
    let zeros = Seq::new(schema.len(), |i: int| 0u64);
    law_fields_stand_in_order(schema, zeros, body, k);
    crate::value_laws::law_values_are_told_by_name(schema, values, k, schema[k].name@);
    let at = bytes_before(schema, k);
    let w = schema[k].dtype.width() as int;
    assert(body.subrange(at, at + w) =~= packet.subrange(header + at, header + at + w));
}

/// An action packet that is sound becomes the latest action, as of its own
/// time, and counts: one more action received, its jitter, and its latency
/// where it came after the time that it answers to. Any other packet leaves
/// the latest action and every counter alone; a foreign one is told the first
/// time.
pub proof fn law_only_sound_actions_count(
    payload: Seq<u8>,
    schema: Seq<FieldSpec>,
    fp: u32,
    before: DataSlot<Action>,
    after: DataSlot<Action>,
    m: MetricsView,
    n: MetricsView,
    now_us: u64,
    sender: Seq<char>,
    active: bool,
    outcome: DataOutcome,
    got: u32,
    k: int,
)
    requires
        crate::data::action_taken(
            payload,
            schema,
            fp,
            before,
            after,
            m,
            n,
            now_us,
            sender,
            active,
            outcome,
        ),
        payload.len() >= 4 ==> got == payload[0] + 0x100 * payload[1] + 0x1_0000 * payload[2]
            + 0x100_0000 * payload[3],
    ensures
        outcome is Action <==> payload.len() >= 20 && got == fp && payload.len() == 20
            + bytes_before(schema, schema.len() as int),
        outcome is Mismatch <==> payload.len() >= 20 && got != fp,
        outcome is Malformed <==> payload.len() < 20 || (got == fp && payload.len() != 20
            + bytes_before(schema, schema.len() as int)),
        !(outcome is Action) ==> n == m && after.latest == before.latest,
        outcome is Malformed ==> after == before,
        outcome matches DataOutcome::Malformed(e) ==> (payload.len() < 20
            ==> crate::serialization::short_action(
            crate::serialization::DecodeError::Malformed(e),
            payload.len(),
        )) && (payload.len() >= 20 ==> crate::serialization::wrong_length(
            crate::serialization::DecodeError::Malformed(e),
            (20 + bytes_before(schema, schema.len() as int)) as nat,
            payload.len(),
        )),
        outcome matches DataOutcome::Mismatch { expected, got: g, first } ==> {
            &&& expected == fp && g == got
            &&& first <==> !before.warned_mismatches@.contains(got)
            &&& after.warned_mismatches@ == before.warned_mismatches@.insert(got)
        },
        outcome is Action ==> after.latest is Some && {
            let a = after.latest->0;
            let reply = crate::wire::le_value(payload.subrange(12, 20));
            &&& a.timestamp_us == crate::wire::le_value(payload.subrange(4, 12))
            &&& reply == 0 ==> a.in_reply_to_ts_us is None
            &&& reply > 0 ==> (a.in_reply_to_ts_us matches Some(r) && r == reply)
            &&& a.sender@ == sender && a.active == active
            &&& went_up(m.actions_received, n.actions_received, 1)
            &&& n.action_jitter == crate::metrics::jitter_after(
                m.action_jitter,
                a.timestamp_us,
                now_us,
            )
            &&& n.state_jitter == m.state_jitter && n.chunk_jitter == m.chunk_jitter
            &&& n.states_received == m.states_received && n.action_chunks_received
                == m.action_chunks_received
            &&& reply > 0 && now_us > reply ==> n.e2e_samples.len() > 0 && n.e2e_samples.last()
                == now_us - reply
            &&& reply == 0 || now_us <= reply ==> n.e2e_samples == m.e2e_samples
            &&& went_up(
                m.correlated_received,
                n.correlated_received,
                if reply > 0 && now_us > reply {
                    1
                } else {
                    0
                },
            )
            &&& n == (MetricsView {
                actions_received: n.actions_received,
                action_jitter: n.action_jitter,
                e2e_samples: n.e2e_samples,
                correlated_received: n.correlated_received,
                ..m
            })
            &&& last_of_its_name(schema, k) ==> told_from(
                a.values@,
                a.raw_values@,
                schema,
                payload,
                20,
                k,
            )
        },
{
    law_packets_are_checked(payload, 20, fp, schema);
    if last_of_its_name(schema, k) && outcome is Action {
        lemma_told_from(schema, payload, 20, k);
    }
    if payload.len() >= 20 {
        crate::wire::law_le_bytes_of_value(payload.subrange(4, 12));
        crate::wire::law_le_bytes_of_value(payload.subrange(12, 20));
        vstd::arithmetic::power2::lemma2_to64();
    }
}

/// A state packet that is sound becomes the latest state, as of its own time,
/// counts as one more state received, and is handed to the sync buffer where
/// there is one. Any other packet changes nothing but what was told.
pub proof fn law_only_sound_states_count(
    payload: Seq<u8>,
    schema: Seq<FieldSpec>,
    fp: u32,
    before: DataSlot<State>,
    after: DataSlot<State>,
    buffer_before: Option<SyncBuffer>,
    buffer_after: Option<SyncBuffer>,
    m: MetricsView,
    n: MetricsView,
    now_us: u64,
    outcome: DataOutcome,
    got: u32,
    k: int,
)
    requires
        crate::data::state_taken(
            payload,
            schema,
            fp,
            before,
            after,
            buffer_before,
            buffer_after,
            m,
            n,
            now_us,
            outcome,
        ),
        payload.len() >= 4 ==> got == payload[0] + 0x100 * payload[1] + 0x1_0000 * payload[2]
            + 0x100_0000 * payload[3],
    ensures
        outcome is State <==> payload.len() >= 12 && got == fp && payload.len() == 12
            + bytes_before(schema, schema.len() as int),
        outcome is Mismatch <==> payload.len() >= 12 && got != fp,
        outcome is Malformed <==> payload.len() < 12 || (got == fp && payload.len() != 12
            + bytes_before(schema, schema.len() as int)),
        !(outcome is State) ==> n == m && after.latest == before.latest && buffer_after
            == buffer_before,
        outcome is Malformed ==> after == before,
        outcome matches DataOutcome::Malformed(e) ==> (payload.len() < 12
            ==> crate::serialization::short_state(
            crate::serialization::DecodeError::Malformed(e),
            payload.len(),
        )) && (payload.len() >= 12 ==> crate::serialization::wrong_length(
            crate::serialization::DecodeError::Malformed(e),
            (12 + bytes_before(schema, schema.len() as int)) as nat,
            payload.len(),
        )),
        outcome matches DataOutcome::Mismatch { expected, got: g, first } ==> {
            &&& expected == fp && g == got
            &&& first <==> !before.warned_mismatches@.contains(got)
            &&& after.warned_mismatches@ == before.warned_mismatches@.insert(got)
        },
        outcome is State ==> after.latest is Some && after.latest->0.timestamp_us
            == crate::wire::le_value(payload.subrange(4, 12)),
        outcome is State && last_of_its_name(schema, k) ==> told_from(
            after.latest->0.values@,
            after.latest->0.raw_values@,
            schema,
            payload,
            12,
            k,
        ),
        outcome is State && buffer_before is None ==> buffer_after is None && {
            &&& went_up(m.states_received, n.states_received, 1)
            &&& n.state_jitter == crate::metrics::jitter_after(
                m.state_jitter,
                after.latest->0.timestamp_us,
                now_us,
            )
            &&& n.action_jitter == m.action_jitter && n.chunk_jitter == m.chunk_jitter
            &&& n == (MetricsView {
                states_received: n.states_received,
                state_jitter: n.state_jitter,
                ..m
            })
        },
        outcome is State && buffer_before is Some ==> buffer_after is Some && {
            let counted = MetricsView {
                states_received: crate::metrics::bumped(m.states_received, 1),
                state_jitter: crate::metrics::jitter_after(
                    m.state_jitter,
                    after.latest->0.timestamp_us,
                    now_us,
                ),
                ..m
            };
            exists|sample: Vec<u64>|
                {
                    let end = #[trigger] crate::sync_buffer::after_state(
                        buffer_before->0.setup(),
                        buffer_before->0@,
                        counted,
                        (after.latest->0.timestamp_us, sample),
                    );
                    &&& sample@ == crate::serialization::body_values(
                        schema,
                        payload.skip(12),
                        schema.len(),
                    )
                    &&& buffer_after->0@ == end.state
                    &&& n == end.metrics
                    &&& outcome->State_0.observed() == end.observations
                    &&& outcome->State_0.dropped() == end.drops
                    &&& outcome->State_0.ahead_us@ == end.ahead
                }
        },
{
    law_packets_are_checked(payload, 12, fp, schema);
    if last_of_its_name(schema, k) && outcome is State {
        lemma_told_from(schema, payload, 12, k);
    }
    if payload.len() >= 12 {
        crate::wire::law_le_bytes_of_value(payload.subrange(4, 12));
        vstd::arithmetic::power2::lemma2_to64();
    }
}

/// An action holds its times, its sender and whether it came from the one in
/// control, and the value at each position under the name of the field there,
/// as it came and at the field's type; so does a state.
pub proof fn law_records_hold_their_values(
    a: Action,
    s: State,
    ts: u64,
    reply: Option<u64>,
    schema: Seq<FieldSpec>,
    values: Seq<u64>,
    sender: Seq<char>,
    active: bool,
    k: int,
)
    requires
        last_of_its_name(schema, k),
        k < values.len(),
    ensures
        crate::data::is_action(a, ts, reply, schema, values, sender, active) ==> {
            &&& a.timestamp_us == ts && a.in_reply_to_ts_us == reply
            &&& a.sender@ == sender && a.active == active
            &&& a.values@.contains_key(schema[k].name@) && a.raw_values@.contains_key(
                schema[k].name@,
            )
            &&& a.values@[schema[k].name@] == crate::types::typed_value(
                values[k],
                schema[k].dtype,
            )
            &&& a.raw_values@[schema[k].name@] == values[k]
        },
        crate::data::is_state(s, ts, schema, values) ==> {
            &&& s.timestamp_us == ts
            &&& s.values@.contains_key(schema[k].name@) && s.raw_values@.contains_key(
                schema[k].name@,
            )
            &&& s.values@[schema[k].name@] == crate::types::typed_value(
                values[k],
                schema[k].dtype,
            )
            &&& s.raw_values@[schema[k].name@] == values[k]
        },
{
    crate::value_laws::law_values_are_told_by_name(schema, values, k, schema[k].name@);
}

/// An action that answers to a time arrives as answering to it, but that the
/// time zero reads as none.
pub proof fn law_replies_arrive(reply: Option<u64>)
    ensures
        reply is None ==> crate::data::reply_received(reply) is None,
        reply is Some && reply->0 == 0 ==> crate::data::reply_received(reply) is None,
        reply is Some && reply->0 > 0 ==> crate::data::reply_received(reply) == reply,
{
}

/// A packet goes by its topic: round trips and actions for every side, states
/// for every side but the robot, and nothing else for anyone.
pub proof fn law_packets_go_by_topic(
    payload: Seq<u8>,
    topic: Seq<char>,
    role: Role,
    action_schema: Seq<FieldSpec>,
    action_fp: u32,
    state_schema: Seq<FieldSpec>,
    state_fp: u32,
    action: (DataSlot<Action>, DataSlot<Action>),
    state: (DataSlot<State>, DataSlot<State>),
    sync_buffer: (Option<SyncBuffer>, Option<SyncBuffer>),
    metrics: (MetricsView, MetricsView),
    now_us: u64,
    sender: Seq<char>,
    active: bool,
    outcome: DataOutcome,
)
    requires
        crate::data::data_handled(
            payload,
            topic,
            role,
            action_schema,
            action_fp,
            state_schema,
            state_fp,
            action,
            state,
            sync_buffer,
            metrics,
            now_us,
            sender,
            active,
            outcome,
        ),
    ensures
        topic != "portal_action"@ ==> action.1 == action.0,
        topic != "portal_state"@ || role == Role::Robot ==> state.1 == state.0 && sync_buffer.1
            == sync_buffer.0,
        outcome is Rtt <==> topic == "portal_rtt"@,
        topic == "portal_action"@ ==> outcome is Action || outcome is Mismatch || outcome
            is Malformed,
        topic == "portal_state"@ && role != Role::Robot ==> outcome is State || outcome is Mismatch
            || outcome is Malformed,
        topic == "portal_state"@ && role == Role::Robot ==> outcome is Ignored,
        topic != "portal_action"@ && topic != "portal_state"@ && topic != "portal_rtt"@
            ==> outcome is Ignored,
        outcome is Ignored ==> metrics.1 == metrics.0,
        outcome matches DataOutcome::Rtt(echo) ==> {
            &&& echo is Some <==> payload.len() == 9 && payload[0] == 0
            &&& echo matches Some(e) ==> e@.len() == 9 && e@[0] == 1 && e@.skip(1)
                == payload.skip(1)
            &&& !(payload.len() == 9 && payload[0] == 1) ==> metrics.1 == metrics.0
            &&& payload.len() == 9 && payload[0] == 1 ==> {
                let then = crate::wire::le_value(payload.skip(1));
                let rtt = if then <= now_us {
                    now_us - then
                } else {
                    0
                };
                &&& went_up(metrics.0.pongs_received, metrics.1.pongs_received, 1)
                &&& metrics.1.rtt_samples.len() > 0 && metrics.1.rtt_samples.last() == rtt
                &&& metrics.1 == (MetricsView {
                    pongs_received: metrics.1.pongs_received,
                    rtt_samples: metrics.1.rtt_samples,
                    rtt_last: metrics.1.rtt_last,
                    ..metrics.0
                })
            }
        },
{
    law_round_trips_are_nine_bytes(payload, 0, 0, now_us);
    reveal_strlit("portal_action");
    reveal_strlit("portal_state");
    reveal_strlit("portal_rtt");
    assert("portal_action"@.len() == 13 && "portal_state"@.len() == 12 && "portal_rtt"@.len()
        == 10);
}

// ---------------------------------------------------------------------------
// Round trips
// ---------------------------------------------------------------------------

/// A ping and its echo are nine bytes: the kind, and the time of the ping. A
/// ping is echoed with that time, an echo tells the time since then, none
/// where local time went back; nothing else is either.
pub proof fn law_round_trips_are_nine_bytes(payload: Seq<u8>, kind: u8, sent: u64, now_us: u64)
    ensures
        crate::rtt::rtt_packet(kind, sent).len() == 9,
        crate::rtt::rtt_packet(kind, sent)[0] == kind,
        crate::rtt::rtt_packet(kind, sent).skip(1) == crate::wire::le_bytes(sent as nat, 8),
        crate::rtt::echo_of(payload) is Some <==> payload.len() == 9 && payload[0] == 0,
        crate::rtt::rtt_of(payload, now_us) is Some <==> payload.len() == 9 && payload[0] == 1,
        crate::rtt::echo_of(payload) matches Some(echo) ==> echo.len() == 9 && echo[0] == 1
            && echo.skip(1) == payload.skip(1),
        crate::rtt::rtt_of(payload, now_us) matches Some(rtt) ==> {
            let then = crate::wire::le_value(payload.skip(1));
            &&& then <= now_us ==> rtt + then == now_us
            &&& then > now_us ==> rtt == 0
        },
{
    crate::wire::law_le_bytes_are_digits(sent as nat, 8, 0);
    assert(crate::rtt::rtt_packet(kind, sent).skip(1) =~= crate::wire::le_bytes(sent as nat, 8));
    if payload.len() == 9 && payload[0] == 0 {
        let echo = crate::rtt::echo_of(payload)->0;
        assert(echo.skip(1) =~= payload.skip(1));
    }
}

} // verus!

//! The state and action streams: what is sent, and what is done with what
//! arrives.
use crate::config::FieldSpec;
use crate::error::{PortalError, PortalResult};
use crate::metrics::{DataStream, MetricsRegistry};
use crate::name_map::NameMap;
use crate::name_set::NameSet;
use crate::rtt;
use crate::serialization::{
    action_fingerprint, deserialize_action, deserialize_values, schema_fingerprint,
    serialize_action, serialize_values, DecodeError, EncodeResult, CORRELATED_HEADER_LEN,
    HEADER_LEN,
};
use crate::sync_buffer::{SyncBuffer, SyncOutput};
use crate::text;
use crate::types::{to_value_maps, Action, Role, State, TypedValue};
use std::collections::HashSet;
use vstd::arithmetic::power2::*;
use vstd::prelude::*;

verus! {

/// Topic of the state packets.
pub const STATE_TOPIC: &'static str = "portal_state";

/// Topic of the action packets.
pub const ACTION_TOPIC: &'static str = "portal_action";

/// Topic of the byte streams that carry action chunks.
pub const ACTION_CHUNK_TOPIC: &'static str = "portal_action_chunk";

/// Capacity of a send queue. A packet that does not fit is dropped.
pub const PUBLISH_QUEUE_CAP: usize = 1024;

/// What became of a payload that was handed to a send queue.
#[derive(Debug, Clone, Copy, PartialEq, Eq, Structural)]
pub enum SendOutcome {
    /// It waits for sending.
    Queued,
    /// The queue was full: the payload is dropped.
    Full,
    /// The queue is gone: the sender is being torn down.
    Closed,
}

// ---------------------------------------------------------------------------
// Sending
// ---------------------------------------------------------------------------

/// Whether a schema declares a field.
pub open spec fn declares(schema: Seq<FieldSpec>, name: Seq<char>) -> bool {
    exists|i: int| 0 <= i < schema.len() && (#[trigger] schema[i]).name@ == name
}

/// Whether the value given for a field, if any, has the declared type.
pub open spec fn field_agrees(field: FieldSpec, map: Map<Seq<char>, TypedValue>) -> bool {
    map.contains_key(field.name@) ==> map[field.name@].tag() == field.dtype
}

/// Whether every value given for a declared field has the declared type.
pub open spec fn types_agree(schema: Seq<FieldSpec>, map: Map<Seq<char>, TypedValue>) -> bool {
    forall|i: int| 0 <= i < schema.len() ==> field_agrees(#[trigger] schema[i], map)
}

/// Whether an error names the first field whose value has another type than
/// declared.
pub open spec fn names_first_mismatch(
    e: PortalError,
    schema: Seq<FieldSpec>,
    map: Map<Seq<char>, TypedValue>,
) -> bool {
    exists|i: int|
        {
            &&& 0 <= i < schema.len()
            &&& !field_agrees(#[trigger] schema[i], map)
            &&& forall|j: int| 0 <= j < i ==> field_agrees(#[trigger] schema[j], map)
            &&& e matches PortalError::DtypeMismatch { field, expected, got }
            &&& field@ == schema[i].name@
            &&& expected == schema[i].dtype
            &&& got@ == map[schema[i].name@].tag().name()
        }
}

/// Checks that every value given for a declared field has the declared type.
/// Names that the schema does not declare are of no account here.
pub fn check_dtypes(schema: &[FieldSpec], map: &NameMap<TypedValue>) -> (r: PortalResult<()>)
    ensures
        match r {
            Ok(_) => types_agree(schema@, map@),
            Err(e) => names_first_mismatch(e, schema@, map@),
        },
{
    let mut i: usize = 0;
    while i < schema.len()
        invariant
            i <= schema@.len(),
            forall|j: int| 0 <= j < i ==> field_agrees(#[trigger] schema@[j], map@),
        decreases schema@.len() - i,
    {
        match map.get(schema[i].name.as_str()) {
            Some(v) => {
                if v.dtype() != schema[i].dtype {
                    let e = PortalError::DtypeMismatch {
                        field: schema[i].name.clone(),
                        expected: schema[i].dtype,
                        got: v.variant_name(),
                    };
                    assert(!field_agrees(schema@[i as int], map@));
                    return Err(e);
                }
            },
            None => {},
        }
        i = i + 1;
    }
    Ok(())
}

/// The last values once an update came in: a declared field takes the value
/// that was given, every other one keeps what it had.
pub open spec fn carried_forward(
    schema: Seq<FieldSpec>,
    last: Seq<u64>,
    map: Map<Seq<char>, TypedValue>,
) -> Seq<u64> {
    Seq::new(
        last.len(),
        |i: int|
            if i < schema.len() && map.contains_key(schema[i].name@) {
                map[schema[i].name@].widened()
            } else {
                last[i]
            },
    )
}

/// Updates the last values with those that were given. Fields without a value
/// keep the one they had.
pub fn apply_carry_forward(
    schema: &[FieldSpec],
    last: &mut Vec<u64>,
    map: &NameMap<TypedValue>,
)
    requires
        schema@.len() <= old(last)@.len(),
    ensures
        final(last)@ == carried_forward(schema@, old(last)@, map@),
{
    let mut i: usize = 0;
    while i < schema.len()
        invariant
            i <= schema@.len() <= last@.len(),
            last@.len() == old(last)@.len(),
            forall|j: int|
                0 <= j < i ==> #[trigger] last@[j] == carried_forward(
                    schema@,
                    old(last)@,
                    map@,
                )[j],
            forall|j: int| i <= j < last@.len() ==> #[trigger] last@[j] == old(last)@[j],
        decreases schema@.len() - i,
    {
        match map.get(schema[i].name.as_str()) {
            Some(v) => {
                last.set(i, v.as_f64());
            },
            None => {},
        }
        i = i + 1;
    }
    assert(last@ =~= carried_forward(schema@, old(last)@, map@));
}

/// A field keeps its last value until a new one is given: of two updates the
/// later one counts for the fields that it holds, the earlier one for the
/// others.
pub proof fn law_updates_accumulate(
    schema: Seq<FieldSpec>,
    last: Seq<u64>,
    first: Map<Seq<char>, TypedValue>,
    second: Map<Seq<char>, TypedValue>,
)
    ensures
        carried_forward(schema, carried_forward(schema, last, first), second) == carried_forward(
            schema,
            last,
            first.union_prefer_right(second),
        ),
        carried_forward(schema, last, Map::empty()) == last,
{
    assert(carried_forward(schema, carried_forward(schema, last, first), second)
        =~= carried_forward(schema, last, first.union_prefer_right(second)));
    assert(carried_forward(schema, last, Map::empty()) =~= last);
}

/// What has been reported once the items were: each of them.
pub open spec fn reported_after(items: Seq<usize>, reported: Set<usize>) -> Set<usize>
    decreases items.len(),
{
    if items.len() == 0 {
        reported
    } else {
        reported_after(items.drop_last(), reported).insert(items.last())
    }
}

/// The items that are to be reported: those that were not before.
pub open spec fn newly_reported(items: Seq<usize>, reported: Set<usize>) -> Seq<usize>
    decreases items.len(),
{
    if items.len() == 0 {
        Seq::empty()
    } else {
        let front = items.drop_last();
        if reported_after(front, reported).contains(items.last()) {
            newly_reported(front, reported)
        } else {
            newly_reported(front, reported).push(items.last())
        }
    }
}

/// Picks the items that have not been reported yet, and marks all of them.
pub(crate) fn report_once(reported: &mut HashSet<usize>, items: &[usize]) -> (fresh: Vec<usize>)
    ensures
        final(reported)@ == reported_after(items@, old(reported)@),
        fresh@ == newly_reported(items@, old(reported)@),
{
    broadcast use vstd::std_specs::hash::group_hash_axioms;

    let mut fresh: Vec<usize> = Vec::new();
    let mut i: usize = 0;
    assert(items@.take(0).len() == 0);
    while i < items.len()
        invariant
            i <= items@.len(),
            reported@ == reported_after(items@.take(i as int), old(reported)@),
            fresh@ == newly_reported(items@.take(i as int), old(reported)@),
        decreases items@.len() - i,
    {
        let item: usize = items[i];
        if reported.insert(item) {
            fresh.push(item);
        }
        i = i + 1;
        proof {
            assert(items@.take(i as int).drop_last() =~= items@.take(i - 1));
            assert(items@.take(i as int).last() == item);
        }
    }
    assert(items@.take(i as int) =~= items@);
    fresh
}

/// An item that was reported is not reported again.
pub proof fn law_reports_come_once(items: Seq<usize>, reported: Set<usize>)
    ensures
        newly_reported(items, reported_after(items, reported)) == Seq::<usize>::empty(),
        forall|x: usize| #[trigger]
            newly_reported(items, reported).contains(x) ==> !reported.contains(x),
    decreases items.len(),
{
    lemma_reported_grows(items, reported);
    lemma_nothing_new(items, reported_after(items, reported));
    lemma_new_is_new(items, reported);
    assert(newly_reported(items, reported_after(items, reported)) =~= Seq::empty());
}

proof fn lemma_reported_grows(items: Seq<usize>, reported: Set<usize>)
    ensures
        forall|x: usize| #[trigger]
            reported_after(items, reported).contains(x) <==> reported.contains(x)
                || items.contains(x),
    decreases items.len(),
{
    if items.len() > 0 {
        let front = items.drop_last();
        lemma_reported_grows(front, reported);
        assert(items =~= front.push(items.last()));
        assert forall|x: usize| #[trigger]
            reported_after(items, reported).contains(x) <==> reported.contains(x)
                || items.contains(x) by {
            let earlier = reported_after(front, reported);
            assert(earlier.contains(x) <==> reported.contains(x) || front.contains(x));
            if front.contains(x) {
                let i = choose|i: int| 0 <= i < front.len() && front[i] == x;
                assert(items[i] == x);
            }
            if items.contains(x) && x != items.last() {
                let i = choose|i: int| 0 <= i < items.len() && items[i] == x;
                assert(front[i] == x);
            }
            assert(items[items.len() - 1] == items.last());
        }
    }
}

proof fn lemma_nothing_new(items: Seq<usize>, reported: Set<usize>)
    requires
        forall|x: usize| items.contains(x) ==> reported.contains(x),
    ensures
        newly_reported(items, reported).len() == 0,
    decreases items.len(),
{
    if items.len() > 0 {
        let front = items.drop_last();
        assert forall|x: usize| front.contains(x) implies reported.contains(x) by {
            let i = choose|i: int| 0 <= i < front.len() && front[i] == x;
            assert(items[i] == x);
        }
        lemma_nothing_new(front, reported);
        lemma_reported_grows(front, reported);
        assert(items[items.len() - 1] == items.last());
        assert(items.contains(items.last()));
    }
}

proof fn lemma_new_is_new(items: Seq<usize>, reported: Set<usize>)
    ensures
        forall|x: usize| #[trigger]
            newly_reported(items, reported).contains(x) ==> !reported.contains(x),
    decreases items.len(),
{
    if items.len() > 0 {
        let front = items.drop_last();
        lemma_new_is_new(front, reported);
        lemma_reported_grows(front, reported);
        let rest = newly_reported(front, reported);
        assert forall|x: usize| #[trigger]
            newly_reported(items, reported).contains(x) implies !reported.contains(x) by {
            let all = newly_reported(items, reported);
            let i = choose|i: int| 0 <= i < all.len() && all[i] == x;
            if i < rest.len() {
                assert(rest[i] == x);
                assert(rest.contains(x));
            }
        }
    }
}

/// Whether a schema declares a field.
pub(crate) fn is_declared(schema: &[FieldSpec], name: &str) -> (b: bool)
    ensures
        b == declares(schema@, name@),
{
    let mut i: usize = 0;
    while i < schema.len()
        invariant
            i <= schema@.len(),
            forall|j: int| 0 <= j < i ==> (#[trigger] schema@[j]).name@ != name@,
        decreases schema@.len() - i,
    {
        if text::same(schema[i].name.as_str(), name) {
            assert(schema@[i as int].name@ == name@);
            return true;
        }
        i = i + 1;
    }
    false
}

/// Whether a name was given that the schema does not declare and that was not
/// reported yet.
pub open spec fn newly_unknown<V>(
    schema: Seq<FieldSpec>,
    map: Map<Seq<char>, V>,
    reported: Set<Seq<char>>,
    name: Seq<char>,
) -> bool {
    map.contains_key(name) && !declares(schema, name) && !reported.contains(name)
}

/// Picks the given names that the schema does not declare and that have not
/// been reported yet, and marks them.
pub(crate) fn report_unknown<V>(
    schema: &[FieldSpec],
    map: &NameMap<V>,
    reported: &mut NameSet,
) -> (fresh: Vec<String>)
    ensures
        forall|n: Seq<char>| #[trigger]
            crate::name_set::names_in(fresh@).contains(n) <==> newly_unknown(
                schema@,
                map@,
                old(reported)@,
                n,
            ),
        forall|i: int, j: int|
            0 <= i < j < fresh@.len() ==> #[trigger] fresh@[i]@ != #[trigger] fresh@[j]@,
        final(reported)@ == old(reported)@.union(crate::name_set::names_in(fresh@)),
{
    let entries: &Vec<(String, V)> = map.entries();
    let ghost known = reported@;
    let mut fresh: Vec<String> = Vec::new();
    let mut i: usize = 0;
    proof {
        assert(fresh@.map_values(|s: String| s@) =~= Seq::empty());
        assert(reported@ =~= known.union(crate::name_set::names_in(fresh@)));
    }
    while i < entries.len()
        invariant
            i <= entries@.len(),
            crate::name_map::names_distinct(entries@),
            known == old(reported)@,
            reported@ == known.union(crate::name_set::names_in(fresh@)),
            forall|k: int|
                0 <= k < fresh@.len() ==> exists|e: int|
                    0 <= e < i && (#[trigger] entries@[e]).0@ == (#[trigger] fresh@[k])@,
            forall|k: int|
                0 <= k < fresh@.len() ==> !declares(schema@, (#[trigger] fresh@[k])@)
                    && !known.contains(fresh@[k]@),
            forall|k: int, l: int|
                0 <= k < l < fresh@.len() ==> #[trigger] fresh@[k]@ != #[trigger] fresh@[l]@,
            forall|e: int|
                0 <= e < i ==> declares(schema@, (#[trigger] entries@[e]).0@) || known.contains(
                    entries@[e].0@,
                ) || exists|k: int| 0 <= k < fresh@.len() && fresh@[k]@ == entries@[e].0@,
        decreases entries@.len() - i,
    {
        let name: &str = entries[i].0.as_str();
        if !is_declared(schema, name) {
            let ghost before = fresh@;
            if reported.insert(name) {
                fresh.push(name.to_owned());
                proof {
                    let after = fresh@;
                    assert(after.map_values(|s: String| s@) =~= before.map_values(
                        |s: String| s@,
                    ).push(name@));
                    before.map_values(|s: String| s@).lemma_push_to_set_commute(name@);
                    assert(reported@ =~= known.union(crate::name_set::names_in(after)));
                    crate::name_set::lemma_names_in(before, name@);
                    assert(!known.contains(name@));
                    assert forall|k: int| 0 <= k < after.len() implies exists|e: int|
                        0 <= e < i + 1 && (#[trigger] entries@[e]).0@ == (#[trigger] after[k])@ by {
                        if k < before.len() {
                            assert(after[k] == before[k]);
                        } else {
                            assert(entries@[i as int].0@ == after[k]@);
                        }
                    }
                    assert forall|e: int| 0 <= e < i + 1 implies declares(
                        schema@,
                        (#[trigger] entries@[e]).0@,
                    ) || known.contains(entries@[e].0@) || exists|k: int|
                        0 <= k < after.len() && after[k]@ == entries@[e].0@ by {
                        if e < i {
                            if exists|k: int| 0 <= k < before.len() && before[k]@
                                == entries@[e].0@ {
                                let k = choose|k: int|
                                    0 <= k < before.len() && before[k]@ == entries@[e].0@;
                                assert(after[k]@ == entries@[e].0@);
                            }
                        } else {
                            assert(after[before.len() as int]@ == entries@[e].0@);
                        }
                    }
                }
            } else {
                proof {
                    crate::name_set::lemma_names_in(before, name@);
                    assert(reported@ =~= known.union(crate::name_set::names_in(before)));
                }
            }
        }
        i = i + 1;
    }
    proof {
        assert forall|n: Seq<char>| #[trigger]
            crate::name_set::names_in(fresh@).contains(n) <==> newly_unknown(
                schema@,
                map@,
                known,
                n,
            ) by {
            crate::name_set::lemma_names_in(fresh@, n);
            crate::name_map::lemma_entries_map_contains(entries@, n);
        }
    }
    fresh
}

/// Prepares the packets of one stream.
#[derive(Debug)]
pub struct DataPublisher {
    schema: Vec<FieldSpec>,
    fingerprint: u32,
    stream: DataStream,
    /// The value that each field was last sent with, widened; zero for a
    /// field that never was.
    last_values: Vec<u64>,
    warned_saturated: HashSet<usize>,
    warned_unknown_keys: NameSet,
}

/// What a publisher knows.
#[verifier::ext_equal]
pub struct PublisherView {
    pub schema: Seq<FieldSpec>,
    pub stream: DataStream,
    pub last_values: Seq<u64>,
    pub warned_saturated: Set<usize>,
    pub warned_unknown_keys: Set<Seq<char>>,
}

/// A packet that is ready to be sent.
#[derive(Debug)]
pub struct Outgoing {
    pub payload: Vec<u8>,
    /// The timestamp in the packet.
    pub timestamp_us: u64,
    /// The value of every field as a receiver will read it.
    pub wire_values: Vec<u64>,
    /// Given names that the schema does not declare, each told once.
    pub unknown_fields: Vec<String>,
    /// Positions of fields whose type could not carry their value, each told
    /// once.
    pub saturated_fields: Vec<usize>,
}

/// A publisher that has sent nothing: every field stands at zero.
pub open spec fn fresh_publisher(schema: Seq<FieldSpec>, stream: DataStream) -> PublisherView {
    PublisherView {
        schema,
        stream,
        last_values: Seq::new(schema.len(), |i: int| 0u64),
        warned_saturated: Set::empty(),
        warned_unknown_keys: Set::empty(),
    }
}

/// The fingerprint of a schema on a stream.
pub open spec fn stream_fingerprint(schema: Seq<FieldSpec>, stream: DataStream) -> u32 {
    if stream == DataStream::State {
        crate::serialization::fingerprint_of(schema)
    } else {
        crate::serialization::fingerprint_of(schema) ^ crate::serialization::ACTION_STREAM_TAG
    }
}

/// The packet of a stream.
pub open spec fn stream_packet(
    schema: Seq<FieldSpec>,
    stream: DataStream,
    timestamp_us: u64,
    in_reply_to_ts_us: Option<u64>,
    values: Seq<u64>,
) -> Seq<u8> {
    if stream == DataStream::State {
        crate::serialization::state_packet(
            stream_fingerprint(schema, stream),
            timestamp_us,
            values,
            schema,
        )
    } else {
        crate::serialization::action_packet(
            stream_fingerprint(schema, stream),
            timestamp_us,
            in_reply_to_ts_us,
            values,
            schema,
        )
    }
}

impl View for DataPublisher {
    type V = PublisherView;

    closed spec fn view(&self) -> PublisherView {
        PublisherView {
            schema: self.schema@,
            stream: self.stream,
            last_values: self.last_values@,
            warned_saturated: self.warned_saturated@,
            warned_unknown_keys: self.warned_unknown_keys@,
        }
    }
}

impl DataPublisher {
    pub closed spec fn wf(&self) -> bool {
        &&& self.stream != DataStream::Chunk
        &&& self.last_values@.len() == self.schema@.len()
        &&& self.fingerprint == stream_fingerprint(self.schema@, self.stream)
    }

    /// A publisher of states or actions that has sent nothing yet.
    pub fn new(schema: &[FieldSpec], stream: DataStream) -> (p: Self)
        requires
            stream != DataStream::Chunk,
        ensures
            p.wf(),
            p@ == fresh_publisher(schema@, stream),
    {
        broadcast use vstd::std_specs::hash::group_hash_axioms;

        let mut fields: Vec<FieldSpec> = Vec::new();
        let mut last_values: Vec<u64> = Vec::new();
        let mut i: usize = 0;
        while i < schema.len()
            invariant
                i <= schema@.len(),
                fields@ == schema@.take(i as int),
                last_values@ == Seq::new(i as nat, |k: int| 0u64),
            decreases schema@.len() - i,
        {
            fields.push(schema[i].clone());
            last_values.push(0);
            i = i + 1;
            assert(fields@ =~= schema@.take(i as int));
            assert(last_values@ =~= Seq::new(i as nat, |k: int| 0u64));
        }
        assert(schema@.take(i as int) =~= schema@);
        let fingerprint: u32 = if stream == DataStream::State {
            schema_fingerprint(schema)
        } else {
            action_fingerprint(schema)
        };
        DataPublisher {
            schema: fields,
            fingerprint,
            stream,
            last_values,
            warned_saturated: HashSet::new(),
            warned_unknown_keys: NameSet::new(),
        }
    }

    /// The packet for an update, and what it did. Fields without a value are
    /// sent with the one that they were last sent with. Nothing is sent or
    /// kept of an update that gives a field a value of another type.
    pub fn send_map(
        &mut self,
        map: &NameMap<TypedValue>,
        timestamp_us: Option<u64>,
        now_us: u64,
        in_reply_to_ts_us: Option<u64>,
    ) -> (r: PortalResult<Outgoing>)
        requires
            old(self).wf(),
        ensures
            final(self).wf(),
            match r {
                Err(e) => final(self)@ == old(self)@ && names_first_mismatch(
                    e,
                    old(self)@.schema,
                    map@,
                ),
                Ok(out) => types_agree(old(self)@.schema, map@) && sent_from(
                    old(self)@,
                    final(self)@,
                    map@,
                    in_reply_to_ts_us,
                    out,
                ) && out.timestamp_us == (match timestamp_us {
                    Some(ts) => ts,
                    None => now_us,
                }),
            },
    {
        match check_dtypes(self.schema.as_slice(), map) {
            Ok(_) => {},
            Err(e) => {
                return Err(e);
            },
        }
        let unknown_fields: Vec<String> = report_unknown(
            self.schema.as_slice(),
            map,
            &mut self.warned_unknown_keys,
        );
        let ts: u64 = timestamp_us.unwrap_or(now_us);
        apply_carry_forward(self.schema.as_slice(), &mut self.last_values, map);
        let encoded: EncodeResult = if self.stream == DataStream::State {
            serialize_values(
                self.fingerprint,
                ts,
                self.last_values.as_slice(),
                self.schema.as_slice(),
            )
        } else {
            serialize_action(
                self.fingerprint,
                ts,
                in_reply_to_ts_us,
                self.last_values.as_slice(),
                self.schema.as_slice(),
            )
        };
        let wire_values: Vec<u64> = values_on_the_wire(
            self.schema.as_slice(),
            self.last_values.as_slice(),
        );
        let saturated_fields: Vec<usize> = report_once(
            &mut self.warned_saturated,
            encoded.saturated_indices.as_slice(),
        );
        Ok(
            Outgoing {
                payload: encoded.payload,
                timestamp_us: ts,
                wire_values,
                unknown_fields,
                saturated_fields,
            },
        )
    }
}

/// What comes of an update that is sent.
pub open spec fn sent_from(
    before: PublisherView,
    after: PublisherView,
    map: Map<Seq<char>, TypedValue>,
    in_reply_to_ts_us: Option<u64>,
    out: Outgoing,
) -> bool {
    let schema = before.schema;
    let last = carried_forward(schema, before.last_values, map);
    let over = crate::serialization::saturated(schema, last, schema.len());
    let unknown = crate::name_set::names_in(out.unknown_fields@);
    &&& out.payload@ == stream_packet(
        schema,
        before.stream,
        out.timestamp_us,
        in_reply_to_ts_us,
        last,
    )
    &&& out.wire_values@ == crate::serialization::delivered_values(schema, last, schema.len())
    &&& out.saturated_fields@ == newly_reported(over, before.warned_saturated)
    &&& forall|n: Seq<char>| #[trigger]
        unknown.contains(n) <==> newly_unknown(schema, map, before.warned_unknown_keys, n)
    &&& forall|i: int, j: int|
        0 <= i < j < out.unknown_fields@.len() ==> #[trigger] out.unknown_fields@[i]@
            != #[trigger] out.unknown_fields@[j]@
    &&& after == (PublisherView {
        schema,
        stream: before.stream,
        last_values: last,
        warned_saturated: reported_after(over, before.warned_saturated),
        warned_unknown_keys: before.warned_unknown_keys.union(unknown),
    })
}

/// Every value as a receiver will read it.
fn values_on_the_wire(schema: &[FieldSpec], values: &[u64]) -> (out: Vec<u64>)
    requires
        values@.len() == schema@.len(),
    ensures
        out@ == crate::serialization::delivered_values(schema@, values@, schema@.len()),
{
    let mut out: Vec<u64> = Vec::new();
    let mut i: usize = 0;
    while i < schema.len()
        invariant
            i <= schema@.len() == values@.len(),
            out@ == crate::serialization::delivered_values(schema@, values@, i as nat),
        decreases schema@.len() - i,
    {
        proof {
            crate::types::law_typed_value_is_what_arrives(
                values@[i as int],
                schema@[i as int].dtype,
            );
        }
        out.push(TypedValue::from_f64(values[i], schema[i].dtype).as_f64());
        i = i + 1;
        assert(out@ =~= crate::serialization::delivered_values(schema@, values@, i as nat));
    }
    out
}

/// Counts a packet that was handed to a send queue.
pub fn record_send(stream: DataStream, outcome: SendOutcome, metrics: &mut MetricsRegistry)
    requires
        old(metrics).wf(),
    ensures
        final(metrics).wf(),
        final(metrics)@ == (if outcome == SendOutcome::Queued {
            crate::metrics::sent(old(metrics)@, stream)
        } else {
            old(metrics)@
        }),
{
    if outcome == SendOutcome::Queued {
        metrics.bump_sent(stream);
    }
}

// ---------------------------------------------------------------------------
// Receiving
// ---------------------------------------------------------------------------

/// The latest record of a stream, and the foreign fingerprints that were
/// reported.
#[derive(Debug)]
pub struct DataSlot<R> {
    pub latest: Option<R>,
    /// Fingerprints of other schemas that packets came with; each is reported
    /// once.
    pub warned_mismatches: HashSet<u32>,
}

impl<R> DataSlot<R> {
    /// A slot that has seen nothing.
    pub fn new() -> (s: Self)
        ensures
            s.latest is None,
            s.warned_mismatches@ == Set::<u32>::empty(),
    {
        broadcast use vstd::std_specs::hash::group_hash_axioms;

        DataSlot { latest: None, warned_mismatches: HashSet::new() }
    }

    /// Keeps a record as the latest.
    pub fn deliver(&mut self, record: R)
        ensures
            final(self).latest == Some(record),
            final(self).warned_mismatches == old(self).warned_mismatches,
    {
        self.latest = Some(record);
    }

    /// The latest record.
    pub fn get(&self) -> (r: Option<&R>)
        ensures
            match r {
                Some(x) => self.latest == Some(*x),
                None => self.latest is None,
            },
    {
        match &self.latest {
            Some(x) => Some(x),
            None => None,
        }
    }

    /// Forgets the latest record.
    pub fn clear(&mut self)
        ensures
            final(self).latest is None,
            final(self).warned_mismatches == old(self).warned_mismatches,
    {
        self.latest = None;
    }

    /// Notes a foreign fingerprint. Returns whether it is to be reported: the
    /// first time it is.
    pub fn warn_mismatch(&mut self, got: u32) -> (first: bool)
        ensures
            first == !old(self).warned_mismatches@.contains(got),
            final(self).warned_mismatches@ == old(self).warned_mismatches@.insert(got),
            final(self).latest == old(self).latest,
    {
        broadcast use vstd::std_specs::hash::group_hash_axioms;

        self.warned_mismatches.insert(got)
    }
}

/// Whether an action holds the values of a packet.
pub open spec fn is_action(
    a: Action,
    timestamp_us: u64,
    in_reply_to_ts_us: Option<u64>,
    schema: Seq<FieldSpec>,
    values: Seq<u64>,
    sender: Seq<char>,
    active: bool,
) -> bool {
    &&& a.values@ == crate::types::typed_map(schema, values, crate::types::paired(schema, values))
    &&& a.raw_values@ == crate::types::raw_map(schema, values, crate::types::paired(schema, values))
    &&& a.timestamp_us == timestamp_us
    &&& a.in_reply_to_ts_us == in_reply_to_ts_us
    &&& a.sender@ == sender
    &&& a.active == active
}

/// The action of an operator, from the values in declared order. `active` says
/// whether it is the one in control.
pub fn build_action(
    timestamp_us: u64,
    in_reply_to_ts_us: Option<u64>,
    schema: &[FieldSpec],
    values: &[u64],
    sender: String,
    active: bool,
) -> (a: Action)
    ensures
        is_action(a, timestamp_us, in_reply_to_ts_us, schema@, values@, sender@, active),
{
    let (values, raw_values) = to_value_maps(schema, values);
    Action { values, raw_values, timestamp_us, in_reply_to_ts_us, sender, active }
}

/// Whether a state holds the values of a packet.
pub open spec fn is_state(
    s: State,
    timestamp_us: u64,
    schema: Seq<FieldSpec>,
    values: Seq<u64>,
) -> bool {
    &&& s.values@ == crate::types::typed_map(schema, values, crate::types::paired(schema, values))
    &&& s.raw_values@ == crate::types::raw_map(schema, values, crate::types::paired(schema, values))
    &&& s.timestamp_us == timestamp_us
}

/// The state of the robot, from the values in declared order.
pub fn build_state(timestamp_us: u64, schema: &[FieldSpec], values: &[u64]) -> (s: State)
    ensures
        is_state(s, timestamp_us, schema@, values@),
{
    let (values, raw_values) = to_value_maps(schema, values);
    State { values, raw_values, timestamp_us }
}

/// What a packet is worth, before its values are read.
pub enum PacketCheck {
    /// Too short for its prefix.
    Short,
    /// Of another schema.
    Foreign,
    /// Not as long as the schema says.
    WrongLength,
    Sound,
}

/// What a packet with a prefix of `header` bytes is worth.
pub open spec fn packet_check(
    data: Seq<u8>,
    header: nat,
    fingerprint: u32,
    schema: Seq<FieldSpec>,
) -> PacketCheck {
    if data.len() < header {
        PacketCheck::Short
    } else if crate::serialization::packet_fingerprint(data) != fingerprint {
        PacketCheck::Foreign
    } else if data.len() != crate::serialization::packet_len(header, schema) {
        PacketCheck::WrongLength
    } else {
        PacketCheck::Sound
    }
}

/// Timestamp in a packet.
pub open spec fn packet_timestamp(data: Seq<u8>) -> u64 {
    crate::wire::le_value(data.subrange(4, 12)) as u64
}

/// Values in a packet with a prefix of `header` bytes.
pub open spec fn packet_values(data: Seq<u8>, header: nat, schema: Seq<FieldSpec>) -> Seq<u64> {
    crate::serialization::body_values(schema, data.skip(header as int), schema.len())
}

/// What came of a packet that arrived.
#[derive(Debug)]
pub enum DataOutcome {
    /// A ping or its echo, and the echo that is to be sent back.
    Rtt(Option<Vec<u8>>),
    /// An action, which is now the latest.
    Action,
    /// A state, which is now the latest, and what it made possible.
    State(SyncOutput),
    /// A packet of another schema was dropped. `first` says whether it is to
    /// be reported.
    Mismatch { expected: u32, got: u32, first: bool },
    /// A damaged packet was dropped.
    Malformed(PortalError),
    /// The packet is not for this side.
    Ignored,
}

/// Whether a packet of another schema was noted.
pub open spec fn mismatch_noted(
    outcome: DataOutcome,
    expected: u32,
    got: nat,
    before: Set<u32>,
    after: Set<u32>,
) -> bool {
    &&& outcome == (DataOutcome::Mismatch {
        expected,
        got: got as u32,
        first: !before.contains(got as u32),
    })
    &&& after == before.insert(got as u32)
}

/// Takes in an action packet.
fn take_action(
    payload: &[u8],
    schema: &[FieldSpec],
    fingerprint: u32,
    slot: &mut DataSlot<Action>,
    metrics: &mut MetricsRegistry,
    now_us: u64,
    sender: String,
    active: bool,
) -> (outcome: DataOutcome)
    requires
        old(metrics).wf(),
    ensures
        final(metrics).wf(),
        action_taken(
            payload@,
            schema@,
            fingerprint,
            *old(slot),
            *final(slot),
            old(metrics)@,
            final(metrics)@,
            now_us,
            sender@,
            active,
            outcome,
        ),
{
    proof {
        lemma_packet_numbers(payload@);
    }
    match deserialize_action(payload, fingerprint, schema) {
        Ok((send_ts, in_reply_to_ts_us, values)) => {
            metrics.record_received(DataStream::Action, send_ts, now_us);
            metrics.record_e2e(in_reply_to_ts_us, now_us);
            slot.deliver(
                build_action(
                    send_ts,
                    in_reply_to_ts_us,
                    schema,
                    values.as_slice(),
                    sender,
                    active,
                ),
            );
            DataOutcome::Action
        },
        Err(DecodeError::SchemaMismatch { expected, got }) => {
            let first: bool = slot.warn_mismatch(got);
            DataOutcome::Mismatch { expected, got, first }
        },
        Err(DecodeError::Malformed(e)) => DataOutcome::Malformed(e),
    }
}

/// What comes of an action packet.
pub open spec fn action_taken(
    payload: Seq<u8>,
    schema: Seq<FieldSpec>,
    fingerprint: u32,
    before: DataSlot<Action>,
    after: DataSlot<Action>,
    metrics_before: crate::metrics::MetricsView,
    metrics_after: crate::metrics::MetricsView,
    now_us: u64,
    sender: Seq<char>,
    active: bool,
    outcome: DataOutcome,
) -> bool {
    match packet_check(payload, CORRELATED_HEADER_LEN as nat, fingerprint, schema) {
        PacketCheck::Sound => {
            let ts = packet_timestamp(payload);
            let reply = crate::serialization::packet_reply(payload);
            &&& outcome is Action
            &&& after.latest matches Some(a) && is_action(
                a,
                ts,
                reply,
                schema,
                packet_values(payload, CORRELATED_HEADER_LEN as nat, schema),
                sender,
                active,
            )
            &&& after.warned_mismatches == before.warned_mismatches
            &&& metrics_after == crate::metrics::correlated(
                crate::metrics::received(metrics_before, DataStream::Action, ts, now_us),
                reply,
                now_us,
            )
        },
        PacketCheck::Foreign => {
            &&& mismatch_noted(
                outcome,
                fingerprint,
                crate::serialization::packet_fingerprint(payload),
                before.warned_mismatches@,
                after.warned_mismatches@,
            )
            &&& after.latest == before.latest
            &&& metrics_after == metrics_before
        },
        PacketCheck::Short => {
            &&& outcome matches DataOutcome::Malformed(e)
                && crate::serialization::short_action(DecodeError::Malformed(e), payload.len())
            &&& after == before
            &&& metrics_after == metrics_before
        },
        PacketCheck::WrongLength => {
            &&& outcome matches DataOutcome::Malformed(e) && crate::serialization::wrong_length(
                DecodeError::Malformed(e),
                crate::serialization::packet_len(CORRELATED_HEADER_LEN as nat, schema),
                payload.len(),
            )
            &&& after == before
            &&& metrics_after == metrics_before
        },
    }
}

/// What comes of a state packet.
pub open spec fn state_taken(
    payload: Seq<u8>,
    schema: Seq<FieldSpec>,
    fingerprint: u32,
    before: DataSlot<State>,
    after: DataSlot<State>,
    buffer_before: Option<SyncBuffer>,
    buffer_after: Option<SyncBuffer>,
    metrics_before: crate::metrics::MetricsView,
    metrics_after: crate::metrics::MetricsView,
    now_us: u64,
    outcome: DataOutcome,
) -> bool {
    match packet_check(payload, HEADER_LEN as nat, fingerprint, schema) {
        PacketCheck::Sound => {
            let ts = packet_timestamp(payload);
            let values = packet_values(payload, HEADER_LEN as nat, schema);
            let counted = crate::metrics::received(metrics_before, DataStream::State, ts, now_us);
            &&& after.latest matches Some(s) && is_state(s, ts, schema, values)
            &&& after.warned_mismatches == before.warned_mismatches
            &&& outcome matches DataOutcome::State(output) && state_buffered(
                buffer_before,
                buffer_after,
                ts,
                values,
                counted,
                metrics_after,
                output,
            )
        },
        PacketCheck::Foreign => {
            &&& mismatch_noted(
                outcome,
                fingerprint,
                crate::serialization::packet_fingerprint(payload),
                before.warned_mismatches@,
                after.warned_mismatches@,
            )
            &&& after.latest == before.latest
            &&& buffer_after == buffer_before
            &&& metrics_after == metrics_before
        },
        PacketCheck::Short => {
            &&& outcome matches DataOutcome::Malformed(e)
                && crate::serialization::short_state(DecodeError::Malformed(e), payload.len())
            &&& after == before
            &&& buffer_after == buffer_before
            &&& metrics_after == metrics_before
        },
        PacketCheck::WrongLength => {
            &&& outcome matches DataOutcome::Malformed(e) && crate::serialization::wrong_length(
                DecodeError::Malformed(e),
                crate::serialization::packet_len(HEADER_LEN as nat, schema),
                payload.len(),
            )
            &&& after == before
            &&& buffer_after == buffer_before
            &&& metrics_after == metrics_before
        },
    }
}

/// What a state does to the sync buffer, where there is one.
pub open spec fn state_buffered(
    before: Option<SyncBuffer>,
    after: Option<SyncBuffer>,
    timestamp_us: u64,
    values: Seq<u64>,
    metrics_before: crate::metrics::MetricsView,
    metrics_after: crate::metrics::MetricsView,
    output: SyncOutput,
) -> bool {
    match before {
        None => after is None && output.nothing() && metrics_after == metrics_before,
        Some(b) => exists|sample: Vec<u64>|
            {
                let end = #[trigger] crate::sync_buffer::after_state(
                    b.setup(),
                    b@,
                    metrics_before,
                    (timestamp_us, sample),
                );
                &&& sample@ == values
                &&& after matches Some(a) && a.wf() && a.setup() == b.setup() && a@ == end.state
                &&& output.observed() == end.observations
                &&& output.dropped() == end.drops
                &&& output.ahead_us@ == end.ahead
                &&& output.evicted == 0
                &&& output.overflowed == crate::sync_buffer::excess(
                    b@.states.len() + 1,
                    b.setup().config.state_buffer_size as nat,
                )
                &&& metrics_after == end.metrics
            },
    }
}

/// Takes in a state packet.
fn take_state(
    payload: &[u8],
    schema: &[FieldSpec],
    fingerprint: u32,
    slot: &mut DataSlot<State>,
    sync_buffer: &mut Option<SyncBuffer>,
    metrics: &mut MetricsRegistry,
    now_us: u64,
) -> (outcome: DataOutcome)
    requires
        old(metrics).wf(),
        *old(sync_buffer) matches Some(b) ==> b.wf(),
    ensures
        final(metrics).wf(),
        state_taken(
            payload@,
            schema@,
            fingerprint,
            *old(slot),
            *final(slot),
            *old(sync_buffer),
            *final(sync_buffer),
            old(metrics)@,
            final(metrics)@,
            now_us,
            outcome,
        ),
{
    proof {
        lemma_packet_numbers(payload@);
    }
    match deserialize_values(payload, fingerprint, schema) {
        Ok((timestamp_us, values)) => {
            metrics.record_received(DataStream::State, timestamp_us, now_us);
            slot.deliver(build_state(timestamp_us, schema, values.as_slice()));
            match sync_buffer {
                Some(buffer) => DataOutcome::State(
                    buffer.push_state(timestamp_us, values, metrics),
                ),
                None => DataOutcome::State(SyncOutput::empty()),
            }
        },
        Err(DecodeError::SchemaMismatch { expected, got }) => {
            let first: bool = slot.warn_mismatch(got);
            DataOutcome::Mismatch { expected, got, first }
        },
        Err(DecodeError::Malformed(e)) => DataOutcome::Malformed(e),
    }
}

proof fn lemma_packet_numbers(data: Seq<u8>)
    ensures
        data.len() >= 12 ==> crate::serialization::packet_fingerprint(data) <= u32::MAX
            && crate::wire::le_value(data.subrange(4, 12)) <= u64::MAX,
{
    if data.len() >= 12 {
        lemma2_to64();
        crate::wire::law_le_bytes_of_value(data.subrange(0, 4));
        crate::wire::law_le_bytes_of_value(data.subrange(4, 12));
    }
}

/// What comes of a packet. Each pair is what it was before and after.
pub open spec fn data_handled(
    payload: Seq<u8>,
    topic: Seq<char>,
    role: Role,
    action_schema: Seq<FieldSpec>,
    action_fp: u32,
    state_schema: Seq<FieldSpec>,
    state_fp: u32,
    action: (DataSlot<Action>, DataSlot<Action>),
    state: (DataSlot<State>, DataSlot<State>),
    sync_buffer: (Option<SyncBuffer>, Option<SyncBuffer>),
    metrics: (crate::metrics::MetricsView, crate::metrics::MetricsView),
    now_us: u64,
    sender: Seq<char>,
    active: bool,
    outcome: DataOutcome,
) -> bool {
    if topic == rtt::RTT_TOPIC@ {
        &&& action.1 == action.0
        &&& state.1 == state.0
        &&& sync_buffer.1 == sync_buffer.0
        &&& outcome matches DataOutcome::Rtt(pong) && rtt::echo_of(payload) == (match pong {
            Some(p) => Some(p@),
            None => None,
        })
        &&& metrics.1 == (match rtt::rtt_of(payload, now_us) {
            Some(rtt) => crate::metrics::rtt_recorded(metrics.0, rtt),
            None => metrics.0,
        })
    } else if topic == ACTION_TOPIC@ {
        &&& state.1 == state.0
        &&& sync_buffer.1 == sync_buffer.0
        &&& action_taken(
            payload,
            action_schema,
            action_fp,
            action.0,
            action.1,
            metrics.0,
            metrics.1,
            now_us,
            sender,
            active,
            outcome,
        )
    } else if role != Role::Robot && topic == STATE_TOPIC@ {
        &&& action.1 == action.0
        &&& state_taken(
            payload,
            state_schema,
            state_fp,
            state.0,
            state.1,
            sync_buffer.0,
            sync_buffer.1,
            metrics.0,
            metrics.1,
            now_us,
            outcome,
        )
    } else {
        &&& outcome is Ignored
        &&& action.1 == action.0
        &&& state.1 == state.0
        &&& sync_buffer.1 == sync_buffer.0
        &&& metrics.1 == metrics.0
    }
}

/// Handles a packet that arrived: pings and echoes, actions on either side,
/// and states on any but the robot's. `sender` is the identity of the operator
/// that an action came from, and `active` whether it is the one in control.
pub fn handle_data_received(
    payload: &[u8],
    topic: &str,
    role: Role,
    action_schema: &[FieldSpec],
    action_fp: u32,
    state_schema: &[FieldSpec],
    state_fp: u32,
    action: &mut DataSlot<Action>,
    state: &mut DataSlot<State>,
    sync_buffer: &mut Option<SyncBuffer>,
    metrics: &mut MetricsRegistry,
    now_us: u64,
    sender: String,
    active: bool,
) -> (outcome: DataOutcome)
    requires
        old(metrics).wf(),
        *old(sync_buffer) matches Some(b) ==> b.wf(),
    ensures
        final(metrics).wf(),
        data_handled(
            payload@,
            topic@,
            role,
            action_schema@,
            action_fp,
            state_schema@,
            state_fp,
            (*old(action), *final(action)),
            (*old(state), *final(state)),
            (*old(sync_buffer), *final(sync_buffer)),
            (old(metrics)@, final(metrics)@),
            now_us,
            sender@,
            active,
            outcome,
        ),
{
    if text::same(topic, rtt::RTT_TOPIC) {
        return DataOutcome::Rtt(rtt::handle_packet(payload, now_us, metrics));
    }
    if text::same(topic, ACTION_TOPIC) {
        return take_action(
            payload,
            action_schema,
            action_fp,
            action,
            metrics,
            now_us,
            sender,
            active,
        );
    }
    if role != Role::Robot && text::same(topic, STATE_TOPIC) {
        return take_state(payload, state_schema, state_fp, state, sync_buffer, metrics, now_us);
    }
    DataOutcome::Ignored
}

/// The timestamp that an action answers to as its receiver sees it: zero reads
/// as none.
pub open spec fn reply_received(in_reply_to_ts_us: Option<u64>) -> Option<u64> {
    if in_reply_to_ts_us == Some(0u64) {
        None
    } else {
        in_reply_to_ts_us
    }
}

/// What a publisher of actions sends is what a receiver that declares the same
/// fields gets: the packet is always accepted, and the action holds the
/// timestamp, and the values that the publisher reported as sent.
pub proof fn law_sent_actions_arrive(
    before: PublisherView,
    after: PublisherView,
    map: Map<Seq<char>, TypedValue>,
    in_reply_to_ts_us: Option<u64>,
    out: Outgoing,
    schema: Seq<FieldSpec>,
    slot: DataSlot<Action>,
    slot_after: DataSlot<Action>,
    metrics: crate::metrics::MetricsView,
    metrics_after: crate::metrics::MetricsView,
    now_us: u64,
    sender: Seq<char>,
    active: bool,
    outcome: DataOutcome,
)
    requires
        before.stream == DataStream::Action,
        sent_from(before, after, map, in_reply_to_ts_us, out),
        crate::serialization::same_fields(before.schema, schema),
        action_taken(
            out.payload@,
            schema,
            stream_fingerprint(schema, DataStream::Action),
            slot,
            slot_after,
            metrics,
            metrics_after,
            now_us,
            sender,
            active,
            outcome,
        ),
    ensures
        outcome is Action,
        slot_after.latest matches Some(a) && is_action(
            a,
            out.timestamp_us,
            reply_received(in_reply_to_ts_us),
            schema,
            out.wire_values@,
            sender,
            active,
        ),
{
    let last = carried_forward(before.schema, before.last_values, map);
    let fingerprint = stream_fingerprint(before.schema, DataStream::Action);
    crate::serialization::law_action_round_trip(
        fingerprint,
        out.timestamp_us,
        in_reply_to_ts_us,
        last,
        before.schema,
    );
    crate::serialization::law_fingerprint_depends_on_the_fields(before.schema, schema);
    crate::serialization::lemma_body_same(
        before.schema,
        schema,
        out.payload@.skip(20),
        schema.len(),
    );
}

/// What a publisher of states sends is what a receiver that declares the same
/// fields gets: the packet is always accepted, and the state holds the
/// timestamp, and the values that the publisher reported as sent.
pub proof fn law_sent_states_arrive(
    before: PublisherView,
    after: PublisherView,
    map: Map<Seq<char>, TypedValue>,
    out: Outgoing,
    schema: Seq<FieldSpec>,
    slot: DataSlot<State>,
    slot_after: DataSlot<State>,
    buffer: Option<SyncBuffer>,
    buffer_after: Option<SyncBuffer>,
    metrics: crate::metrics::MetricsView,
    metrics_after: crate::metrics::MetricsView,
    now_us: u64,
    outcome: DataOutcome,
)
    requires
        before.stream == DataStream::State,
        sent_from(before, after, map, None, out),
        crate::serialization::same_fields(before.schema, schema),
        state_taken(
            out.payload@,
            schema,
            stream_fingerprint(schema, DataStream::State),
            slot,
            slot_after,
            buffer,
            buffer_after,
            metrics,
            metrics_after,
            now_us,
            outcome,
        ),
    ensures
        slot_after.latest matches Some(s) && is_state(
            s,
            out.timestamp_us,
            schema,
            out.wire_values@,
        ),
        outcome matches DataOutcome::State(output) && state_buffered(
            buffer,
            buffer_after,
            out.timestamp_us,
            out.wire_values@,
            crate::metrics::received(metrics, DataStream::State, out.timestamp_us, now_us),
            metrics_after,
            output,
        ),
{
    let last = carried_forward(before.schema, before.last_values, map);
    let fingerprint = stream_fingerprint(before.schema, DataStream::State);
    crate::serialization::law_state_round_trip(fingerprint, out.timestamp_us, last, before.schema);
    crate::serialization::law_fingerprint_depends_on_the_fields(before.schema, schema);
    crate::serialization::lemma_body_same(
        before.schema,
        schema,
        out.payload@.skip(12),
        schema.len(),
    );
}

} // verus!

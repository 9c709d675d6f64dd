//! What becomes of action chunks, stated apart from how it is done.
use crate::chunks::{ChunkOutcome, ChunkRoute, ChunkSlot};
use crate::config::FieldSpec;
use crate::error::PortalError;
use crate::metrics::MetricsView;
use crate::serialization::DecodeError;
use crate::types::ChunkColumn;
use vstd::prelude::*;

verus! {

proof fn lemma_columns_by_name(
    fields: Seq<FieldSpec>,
    columns: Seq<Vec<u64>>,
    n: nat,
    k: int,
)
    requires
        n <= fields.len(),
        n <= columns.len(),
        0 <= k < n,
        forall|l: int| k < l < n ==> (#[trigger] fields[l]).name@ != fields[k].name@,
    ensures
        crate::chunks::column_map(fields, columns, n).contains_key(fields[k].name@),
        crate::chunks::column_map(fields, columns, n)[fields[k].name@] == columns[k],
    decreases n,
{
    if k < n - 1 {
        assert(fields[n - 1].name@ != fields[k].name@);
        lemma_columns_by_name(fields, columns, (n - 1) as nat, k);
    }
}

proof fn lemma_no_other_columns(
    fields: Seq<FieldSpec>,
    columns: Seq<Vec<u64>>,
    n: nat,
    name: Seq<char>,
)
    requires
        n <= fields.len(),
        forall|l: int| 0 <= l < n ==> (#[trigger] fields[l]).name@ != name,
    ensures
        !crate::chunks::column_map(fields, columns, n).contains_key(name),
    decreases n,
{
    if n > 0 {
        assert(fields[n - 1].name@ != name);
        lemma_no_other_columns(fields, columns, (n - 1) as nat, name);
    }
}

/// A chunk that was read is delivered with the column of every field under
/// the field's own name: the column at position `k` is that of the field at
/// position `k`, and where a name is declared again the last column of the
/// name stays. So two fields with different names and different columns stay
/// different.
pub proof fn law_columns_keep_their_fields(
    before: ChunkSlot,
    after: ChunkSlot,
    ts: u64,
    reply: Option<u64>,
    columns: Vec<Vec<u64>>,
    metrics_before: MetricsView,
    metrics_after: MetricsView,
    now_us: u64,
    sender: Seq<char>,
    outcome: ChunkOutcome,
    k: int,
)
    requires
        crate::chunks::chunk_accepted(
            before,
            after,
            Ok((ts, reply, columns)),
            metrics_before,
            metrics_after,
            now_us,
            sender,
            outcome,
        ),
        0 <= k < before.spec.fields@.len(),
        k < columns@.len(),
        forall|l: int|
            k < l < before.spec.fields@.len() && l < columns@.len() ==> (
            #[trigger] before.spec.fields@[l]).name@ != before.spec.fields@[k].name@,
    ensures
        outcome is Delivered,
        after.inner.latest is Some,
        ({
            let c = after.inner.latest->0;
            let name = before.spec.fields@[k].name@;
            &&& c.data@.contains_key(name)
            &&& c.data@[name]@ == columns@[k]@
            &&& c.name@ == before.spec.name@
            &&& c.horizon == before.spec.horizon
            &&& c.timestamp_us == ts
            &&& c.in_reply_to_ts_us == reply
            &&& c.sender@ == sender
        }),
{
    let fields = before.spec.fields@;
    let n = crate::chunks::paired_columns(fields, columns@);
    lemma_columns_by_name(fields, columns@, n, k);
    let c = after.inner.latest->0;
    let shown = c.data@.map_values(|v: Vec<u64>| v@);
    let name = fields[k].name@;
    assert(shown.contains_key(name));
    assert(shown[name] == columns@[k]@);
}

/// Two fields of a delivered chunk hold the same values exactly where their
/// columns do.
pub proof fn law_different_columns_stay_different(
    before: ChunkSlot,
    after: ChunkSlot,
    ts: u64,
    reply: Option<u64>,
    columns: Vec<Vec<u64>>,
    metrics_before: MetricsView,
    metrics_after: MetricsView,
    now_us: u64,
    sender: Seq<char>,
    outcome: ChunkOutcome,
    j: int,
    k: int,
)
    requires
        crate::chunks::chunk_accepted(
            before,
            after,
            Ok((ts, reply, columns)),
            metrics_before,
            metrics_after,
            now_us,
            sender,
            outcome,
        ),
        columns@.len() == before.spec.fields@.len(),
        0 <= j < columns@.len(),
        0 <= k < columns@.len(),
        forall|a: int, b: int|
            0 <= a < b < before.spec.fields@.len() ==> (#[trigger] before.spec.fields@[a]).name@
                != (#[trigger] before.spec.fields@[b]).name@,
    ensures
        after.inner.latest matches Some(c) && (c.data@[before.spec.fields@[j].name@]@
            == c.data@[before.spec.fields@[k].name@]@ <==> columns@[j]@ == columns@[k]@),
{
    law_columns_keep_their_fields(
        before,
        after,
        ts,
        reply,
        columns,
        metrics_before,
        metrics_after,
        now_us,
        sender,
        outcome,
        j,
    );
    law_columns_keep_their_fields(
        before,
        after,
        ts,
        reply,
        columns,
        metrics_before,
        metrics_after,
        now_us,
        sender,
        outcome,
        k,
    );
}

/// A delivered chunk holds no name but those of the fields that have a
/// column.
pub proof fn law_chunks_hold_declared_names_only(
    before: ChunkSlot,
    after: ChunkSlot,
    ts: u64,
    reply: Option<u64>,
    columns: Vec<Vec<u64>>,
    metrics_before: MetricsView,
    metrics_after: MetricsView,
    now_us: u64,
    sender: Seq<char>,
    outcome: ChunkOutcome,
    name: Seq<char>,
)
    requires
        crate::chunks::chunk_accepted(
            before,
            after,
            Ok((ts, reply, columns)),
            metrics_before,
            metrics_after,
            now_us,
            sender,
            outcome,
        ),
        forall|l: int|
            0 <= l < before.spec.fields@.len() && l < columns@.len() ==> (
            #[trigger] before.spec.fields@[l]).name@ != name,
    ensures
        after.inner.latest matches Some(c) && !c.data@.contains_key(name),
{
    let fields = before.spec.fields@;
    let n = crate::chunks::paired_columns(fields, columns@);
    lemma_no_other_columns(fields, columns@, n, name);
    let c = after.inner.latest->0;
    let shown = c.data@.map_values(|v: Vec<u64>| v@);
    assert(!shown.contains_key(name));
}

/// A chunk that was read counts as one more chunk received, feeds the jitter
/// of chunks and no other, and tells its latency where it came after the time
/// that it answers to. One that could not be read counts nothing and leaves
/// the latest chunk in place; a foreign fingerprint is told the first time
/// only.
pub proof fn law_only_chunks_that_were_read_count(
    before: ChunkSlot,
    after: ChunkSlot,
    decoded: Result<(u64, Option<u64>, Vec<Vec<u64>>), DecodeError>,
    m: MetricsView,
    n: MetricsView,
    now_us: u64,
    sender: Seq<char>,
    outcome: ChunkOutcome,
)
    requires
        crate::chunks::chunk_accepted(before, after, decoded, m, n, now_us, sender, outcome),
    ensures
        after.spec == before.spec && after.fingerprint == before.fingerprint,
        outcome is Delivered <==> decoded is Ok,
        decoded matches Ok((ts, reply, columns)) ==> {
            &&& crate::metrics_laws::went_up(m.action_chunks_received, n.action_chunks_received, 1)
            &&& n.chunk_jitter == crate::metrics::jitter_after(m.chunk_jitter, ts, now_us)
            &&& n.state_jitter == m.state_jitter && n.action_jitter == m.action_jitter
            &&& n.actions_received == m.actions_received && n.states_received
                == m.states_received
            &&& (reply is Some && now_us > reply->0 ==> n.e2e_samples.len() > 0
                && n.e2e_samples.last() == now_us - reply->0)
            &&& (reply is None || now_us <= reply->0 ==> n.e2e_samples == m.e2e_samples)
            &&& crate::metrics_laws::went_up(
                m.correlated_received,
                n.correlated_received,
                if reply is Some && now_us > reply->0 {
                    1
                } else {
                    0
                },
            )
            &&& n == (MetricsView {
                action_chunks_received: n.action_chunks_received,
                chunk_jitter: n.chunk_jitter,
                e2e_samples: n.e2e_samples,
                correlated_received: n.correlated_received,
                ..m
            })
        },
        decoded matches Err(e) ==> n == m && after.inner.latest == before.inner.latest,
        decoded matches Err(DecodeError::SchemaMismatch { expected, got }) ==> {
            &&& after.inner.warned_mismatches@.contains(got)
            &&& outcome matches ChunkOutcome::Mismatch { expected: x, got: g, first }
            &&& x == expected && g == got
            &&& first <==> !before.inner.warned_mismatches@.contains(got)
        },
        forall|fp: u32| #[trigger]
            before.inner.warned_mismatches@.contains(fp)
                ==> after.inner.warned_mismatches@.contains(fp),
        decoded matches Err(DecodeError::Malformed(e)) ==> outcome == ChunkOutcome::Malformed(e),
{
}

// ---------------------------------------------------------------------------
// Routing
// ---------------------------------------------------------------------------

proof fn lemma_first_slot(slots: Seq<ChunkSlot>, fingerprint: nat)
    ensures
        match crate::chunks::slot_position(slots, fingerprint) {
            Some(i) => 0 <= i < slots.len() && slots[i].fingerprint == fingerprint && forall|j: int|
                0 <= j < i ==> (#[trigger] slots[j]).fingerprint != fingerprint,
            None => forall|j: int|
                0 <= j < slots.len() ==> (#[trigger] slots[j]).fingerprint != fingerprint,
        },
    decreases slots.len(),
{
    if slots.len() > 0 {
        let front = slots.drop_last();
        lemma_first_slot(front, fingerprint);
        match crate::chunks::slot_position(front, fingerprint) {
            Some(i) => {
                assert(front[i] == slots[i]);
                assert forall|j: int| 0 <= j < i implies (#[trigger] slots[j]).fingerprint
                    != fingerprint by {
                    assert(front[j] == slots[j]);
                }
            },
            None => {
                assert forall|j: int| 0 <= j < slots.len() - 1 implies (
                #[trigger] slots[j]).fingerprint != fingerprint by {
                    assert(front[j] == slots[j]);
                }
            },
        }
    }
}

/// A payload goes to the first slot whose fingerprint is its first four
/// bytes, little end first. One that no slot has is told the first time, to
/// a cap of 256 of them, the last of which says so; it is remembered from
/// there on. A payload of less than four bytes goes nowhere.
pub proof fn law_chunks_go_by_their_first_four_bytes(
    payload: Seq<u8>,
    slots: Seq<ChunkSlot>,
    before: Set<u32>,
    after: Set<u32>,
    route: ChunkRoute,
    fp: u32,
)
    requires
        crate::chunks::chunk_routed(payload, slots, before, after, route),
        before.finite(),
        payload.len() >= 4 ==> fp == payload[0] + 0x100 * payload[1] + 0x1_0000 * payload[2]
            + 0x100_0000 * payload[3],
    ensures
        route is Short <==> payload.len() < 4,
        route matches ChunkRoute::Slot(at) ==> {
            &&& at < slots.len()
            &&& slots[at as int].fingerprint == fp
            &&& forall|j: int| 0 <= j < at ==> (#[trigger] slots[j]).fingerprint != fp
            &&& after == before
        },
        payload.len() >= 4 ==> (route is Slot <==> exists|j: int|
            0 <= j < slots.len() && (#[trigger] slots[j]).fingerprint == fp),
        route matches ChunkRoute::Unknown { fingerprint, warn, cap_reached } ==> {
            &&& fingerprint == fp
            &&& warn <==> before.len() < 256 && !before.contains(fp)
            &&& cap_reached <==> warn && before.len() == 255
            &&& before.len() < 256 ==> after == before.insert(fp)
            &&& before.len() >= 256 ==> after == before
        },
{
    if payload.len() >= 4 {
        let b = payload.subrange(0, 4);
        reveal_with_fuel(crate::wire::le_value, 5);
        assert(crate::wire::le_value(b) == fp);
        lemma_first_slot(slots, fp as nat);
    }
}

// ---------------------------------------------------------------------------
// Sending
// ---------------------------------------------------------------------------

proof fn lemma_fitted(
    fields: Seq<FieldSpec>,
    horizon: nat,
    data: Map<Seq<char>, Vec<u64>>,
    n: nat,
    name: Seq<char>,
)
    requires
        n <= fields.len(),
    ensures
        ({
            let fitted = crate::chunks::fitted_columns(fields, horizon, data, n);
            &&& fitted.contains_key(name) <==> exists|i: int|
                0 <= i < n && (#[trigger] fields[i]).name@ == name
            &&& fitted.contains_key(name) ==> fitted[name] == crate::chunks::fitted_column(
                if data.contains_key(name) {
                    data[name]@
                } else {
                    Seq::empty()
                },
                horizon,
            )
        }),
    decreases n,
{
    if n > 0 {
        lemma_fitted(fields, horizon, data, (n - 1) as nat, name);
        assert(fields[n - 1].name@ == name || fields[n - 1].name@ != name);
    }
}

/// Every declared field of a chunk gets a column as long as the horizon, and
/// no other name gets one. It holds the given values in their places; where
/// there is none it holds zeros.
pub proof fn law_columns_fit_the_horizon(
    fields: Seq<FieldSpec>,
    horizon: nat,
    data: Map<Seq<char>, Vec<u64>>,
    name: Seq<char>,
    t: int,
)
    requires
        0 <= t < horizon,
    ensures
        ({
            let fitted = crate::chunks::fitted_columns(fields, horizon, data, fields.len());
            &&& fitted.contains_key(name) <==> exists|i: int|
                0 <= i < fields.len() && (#[trigger] fields[i]).name@ == name
            &&& fitted.contains_key(name) ==> fitted[name].len() == horizon
            &&& fitted.contains_key(name) && data.contains_key(name) && t < data[name]@.len()
                ==> fitted[name][t] == data[name]@[t]
            &&& fitted.contains_key(name) && (data.contains_key(name) ==> t
                >= data[name]@.len()) ==> fitted[name][t] == 0
        }),
{
    lemma_fitted(fields, horizon, data, fields.len(), name);
}

/// A position that counts row by row is told as the timestep and the field
/// that it is.
pub proof fn law_positions_count_row_by_row(i: usize, fields: nat)
    requires
        0 < fields <= usize::MAX,
    ensures
        ({
            let at = crate::chunks::chunk_position(i, fields);
            &&& at.field < fields
            &&& at.timestep * fields + at.field == i
        }),
{
    let x = i as int;
    let f = fields as int;
    assert(x == (x / f) * f + x % f && 0 <= x % f < f && 0 <= x / f <= x) by (nonlinear_arith)
        requires
            x >= 0,
            f > 0,
    ;
}

/// A claim is refused exactly where a declared field has a column that claims
/// another type than the declared one; the error names the first such field,
/// the type that it declares and the one that was claimed.
pub proof fn law_false_claims_are_named(
    fields: Seq<FieldSpec>,
    data: Map<Seq<char>, ChunkColumn>,
    e: PortalError,
)
    ensures
        crate::chunks::claims_agree(fields, data) <==> forall|i: int|
            0 <= i < fields.len() && data.contains_key((#[trigger] fields[i]).name@)
                && data[fields[i].name@].dtype is Some ==> data[fields[i].name@].dtype
                == Some(fields[i].dtype),
        crate::chunks::names_first_false_claim(e, fields, data) ==> exists|i: int|
            {
                &&& 0 <= i < fields.len()
                &&& data.contains_key((#[trigger] fields[i]).name@)
                &&& data[fields[i].name@].dtype is Some
                &&& data[fields[i].name@].dtype->0 != fields[i].dtype
                &&& e matches PortalError::DtypeMismatch { field, expected, got }
                &&& field@ == fields[i].name@
                &&& expected == fields[i].dtype
                &&& got@ == data[fields[i].name@].dtype->0.name()
                &&& forall|j: int|
                    0 <= j < i && data.contains_key((#[trigger] fields[j]).name@)
                        && data[fields[j].name@].dtype is Some ==> data[fields[j].name@].dtype
                        == Some(fields[j].dtype)
            },
{
    assert forall|i: int| 0 <= i < fields.len() implies crate::chunks::claim_agrees(
        #[trigger] fields[i],
        data,
    ) == (data.contains_key(fields[i].name@) && data[fields[i].name@].dtype is Some
        ==> data[fields[i].name@].dtype == Some(fields[i].dtype)) by {}
    if crate::chunks::names_first_false_claim(e, fields, data) {
        let i = choose|i: int|
            {
                &&& 0 <= i < fields.len()
                &&& !crate::chunks::claim_agrees(#[trigger] fields[i], data)
                &&& forall|j: int|
                    0 <= j < i ==> crate::chunks::claim_agrees(#[trigger] fields[j], data)
                &&& e matches PortalError::DtypeMismatch { field, expected, got }
                &&& field@ == fields[i].name@
                &&& expected == fields[i].dtype
                &&& got@ == data[fields[i].name@].dtype->0.name()
            };
        assert(data.contains_key(fields[i].name@));
        assert forall|j: int|
            0 <= j < i && data.contains_key((#[trigger] fields[j]).name@)
                && data[fields[j].name@].dtype is Some implies data[fields[j].name@].dtype
            == Some(fields[j].dtype) by {
            assert(crate::chunks::claim_agrees(fields[j], data));
        }
    }
}

/// Columns without their claims are the same columns under the same names.
pub proof fn law_claims_are_left_out(
    bare: Map<Seq<char>, Vec<u64>>,
    data: Map<Seq<char>, ChunkColumn>,
    name: Seq<char>,
)
    requires
        crate::chunks::values_of_columns(bare, data),
    ensures
        bare.contains_key(name) <==> data.contains_key(name),
        data.contains_key(name) ==> bare[name]@ == data[name].values@,
{
    assert(bare.dom().contains(name) == data.dom().contains(name));
}

} // verus!

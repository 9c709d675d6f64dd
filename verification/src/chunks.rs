//! Action chunks: what is checked and kept around their payloads.
//!
//! A chunk carries `horizon` future actions, one column of values for every
//! field. Its payload starts with the fingerprint of the chunk, four bytes
//! little-endian, by which a receiver finds the declaration.
use crate::config::{ChunkSpec, FieldSpec};
use crate::data::{report_once, report_unknown, DataSlot};
use crate::error::{PortalError, PortalResult};
use crate::metrics::{DataStream, MetricsRegistry};
use crate::name_map::NameMap;
use crate::name_set::NameSet;
use crate::serialization::DecodeError;
use crate::types::{ActionChunk, ChunkColumn};
use crate::wire;
use std::collections::HashSet;
use vstd::arithmetic::power2::*;
use vstd::prelude::*;

verus! {

/// Number of unknown fingerprints that are reported; further ones are not.
pub const UNKNOWN_FP_WARN_CAP: usize = 256;

// ---------------------------------------------------------------------------
// Sending
// ---------------------------------------------------------------------------

/// Reports about the chunks that are sent, each once.
#[derive(Debug)]
pub struct ChunkPublisher {
    spec: ChunkSpec,
    /// Positions `t * fields + field` that were reported.
    warned_saturated: HashSet<usize>,
    warned_unknown_keys: NameSet,
}

/// What a chunk publisher knows.
#[verifier::ext_equal]
pub struct ChunkPublisherView {
    pub spec: ChunkSpec,
    pub warned_saturated: Set<usize>,
    pub warned_unknown_keys: Set<Seq<char>>,
}

impl View for ChunkPublisher {
    type V = ChunkPublisherView;

    closed spec fn view(&self) -> ChunkPublisherView {
        ChunkPublisherView {
            spec: self.spec,
            warned_saturated: self.warned_saturated@,
            warned_unknown_keys: self.warned_unknown_keys@,
        }
    }
}

/// A value of a chunk that its type could not carry: the timestep and the
/// position of the field.
#[derive(Debug, Clone, Copy, PartialEq, Eq, Structural)]
pub struct ChunkPosition {
    pub timestep: usize,
    pub field: usize,
}

/// The value at a position that counts row by row.
pub open spec fn chunk_position(i: usize, fields: nat) -> ChunkPosition {
    ChunkPosition { timestep: (i as nat / fields) as usize, field: (i as nat % fields) as usize }
}

impl ChunkPublisher {
    /// A publisher that has reported nothing yet.
    pub fn new(spec: ChunkSpec) -> (p: Self)
        ensures
            p@ == (ChunkPublisherView {
                spec,
                warned_saturated: Set::empty(),
                warned_unknown_keys: Set::empty(),
            }),
    {
        broadcast use vstd::std_specs::hash::group_hash_axioms;

        ChunkPublisher {
            spec,
            warned_saturated: HashSet::new(),
            warned_unknown_keys: NameSet::new(),
        }
    }

    /// The declaration of the chunk.
    pub fn spec(&self) -> (s: &ChunkSpec)
        ensures
            *s == self@.spec,
    {
        &self.spec
    }

    /// The given names that the chunk does not declare, each told once.
    pub fn warn_unknown_keys(&mut self, data: &NameMap<Vec<u64>>) -> (fresh: Vec<String>)
        ensures
            forall|n: Seq<char>| #[trigger]
                crate::name_set::names_in(fresh@).contains(n) <==> crate::data::newly_unknown(
                    old(self)@.spec.fields@,
                    data@,
                    old(self)@.warned_unknown_keys,
                    n,
                ),
            forall|i: int, j: int|
                0 <= i < j < fresh@.len() ==> #[trigger] fresh@[i]@ != #[trigger] fresh@[j]@,
            final(self)@ == (ChunkPublisherView {
                warned_unknown_keys: old(self)@.warned_unknown_keys.union(
                    crate::name_set::names_in(fresh@),
                ),
                ..old(self)@
            }),
    {
        report_unknown(self.spec.fields.as_slice(), data, &mut self.warned_unknown_keys)
    }

    /// The values that their types could not carry, each told once. Positions
    /// count row by row: all fields of the first timestep, then those of the
    /// second.
    pub fn warn_saturated(&mut self, indices: &[usize]) -> (fresh: Vec<ChunkPosition>)
        requires
            indices@.len() > 0 ==> old(self)@.spec.fields@.len() > 0,
        ensures
            ({
                let told = crate::data::newly_reported(indices@, old(self)@.warned_saturated);
                fresh@ == told.map_values(
                    |i: usize| chunk_position(i, old(self)@.spec.fields@.len()),
                )
            }),
            final(self)@ == (ChunkPublisherView {
                warned_saturated: crate::data::reported_after(
                    indices@,
                    old(self)@.warned_saturated,
                ),
                ..old(self)@
            }),
    {
        let told: Vec<usize> = report_once(&mut self.warned_saturated, indices);
        let n: usize = self.spec.fields.len();
        let mut fresh: Vec<ChunkPosition> = Vec::new();
        let mut i: usize = 0;
        let ghost f = |i: usize| chunk_position(i, n as nat);
        assert(indices@.len() == 0 ==> told@.len() == 0);
        while i < told.len()
            invariant
                i <= told@.len(),
                told@.len() > 0 ==> n > 0,
                f == (|i: usize| chunk_position(i, n as nat)),
                fresh@ == told@.take(i as int).map_values(f),
            decreases told@.len() - i,
        {
            let at: usize = told[i];
            fresh.push(ChunkPosition { timestep: at / n, field: at % n });
            i = i + 1;
            assert(fresh@ =~= told@.take(i as int).map_values(f));
        }
        assert(told@.take(i as int) =~= told@);
        fresh
    }
}

/// A column of a chunk as it is delivered: cut or filled up with zeros to the
/// horizon.
pub open spec fn fitted_column(column: Seq<u64>, horizon: nat) -> Seq<u64> {
    Seq::new(
        horizon,
        |t: int|
            if t < column.len() {
                column[t]
            } else {
                0
            },
    )
}

/// Cuts a column, or fills it up with zeros, to the horizon. A missing column
/// is all zeros.
pub fn fit_column(column: Option<&Vec<u64>>, horizon: u32) -> (c: Vec<u64>)
    ensures
        c@ == fitted_column(
            match column {
                Some(v) => v@,
                None => Seq::empty(),
            },
            horizon as nat,
        ),
{
    let ghost given = match column {
        Some(v) => v@,
        None => Seq::<u64>::empty(),
    };
    let mut c: Vec<u64> = Vec::new();
    let mut t: u32 = 0;
    while t < horizon
        invariant
            t <= horizon,
            given == (match column {
                Some(v) => v@,
                None => Seq::<u64>::empty(),
            }),
            c@ == fitted_column(given, t as nat),
        decreases horizon - t,
    {
        let value: u64 = match column {
            Some(v) => if (t as usize) < v.len() {
                v[t as usize]
            } else {
                0
            },
            None => 0,
        };
        c.push(value);
        t = t + 1;
        assert(c@ =~= fitted_column(given, t as nat));
    }
    c
}

/// The columns of the first `n` fields as they are delivered.
pub open spec fn fitted_columns(
    fields: Seq<FieldSpec>,
    horizon: nat,
    data: Map<Seq<char>, Vec<u64>>,
    n: nat,
) -> Map<Seq<char>, Seq<u64>>
    decreases n,
{
    if n == 0 {
        Map::empty()
    } else {
        let name = fields[n - 1].name@;
        fitted_columns(fields, horizon, data, (n - 1) as nat).insert(
            name,
            fitted_column(
                if data.contains_key(name) {
                    data[name]@
                } else {
                    Seq::empty()
                },
                horizon,
            ),
        )
    }
}

/// A column of every declared field, cut or filled up to the horizon. Names
/// that the chunk does not declare are left out.
pub fn fit_columns(spec: &ChunkSpec, data: &NameMap<Vec<u64>>) -> (columns: NameMap<Vec<u64>>)
    ensures
        columns@.map_values(|c: Vec<u64>| c@) == fitted_columns(
            spec.fields@,
            spec.horizon as nat,
            data@,
            spec.fields@.len(),
        ),
{
    let mut columns: NameMap<Vec<u64>> = NameMap::new();
    let mut i: usize = 0;
    assert(columns@.map_values(|c: Vec<u64>| c@) =~= Map::empty());
    while i < spec.fields.len()
        invariant
            i <= spec.fields@.len(),
            columns@.map_values(|c: Vec<u64>| c@) == fitted_columns(
                spec.fields@,
                spec.horizon as nat,
                data@,
                i as nat,
            ),
        decreases spec.fields@.len() - i,
    {
        let ghost before = columns@;
        let column: Vec<u64> = fit_column(
            data.get(spec.fields[i].name.as_str()),
            spec.horizon,
        );
        let ghost fitted = column;
        columns.insert(spec.fields[i].name.clone(), column);
        proof {
            let name = spec.fields@[i as int].name@;
            assert(columns@.map_values(|c: Vec<u64>| c@) =~= before.map_values(
                |c: Vec<u64>| c@,
            ).insert(name, fitted@));
        }
        i = i + 1;
    }
    columns
}

/// Whether the type that is claimed for a field's column, if any, is the
/// declared one.
pub open spec fn claim_agrees(field: FieldSpec, data: Map<Seq<char>, ChunkColumn>) -> bool {
    data.contains_key(field.name@) ==> (data[field.name@].dtype matches Some(d) ==> d
        == field.dtype)
}

/// Whether every type that is claimed is the declared one.
pub open spec fn claims_agree(fields: Seq<FieldSpec>, data: Map<Seq<char>, ChunkColumn>) -> bool {
    forall|i: int| 0 <= i < fields.len() ==> claim_agrees(#[trigger] fields[i], data)
}

/// Whether an error names the first field whose column claims another type
/// than declared.
pub open spec fn names_first_false_claim(
    e: PortalError,
    fields: Seq<FieldSpec>,
    data: Map<Seq<char>, ChunkColumn>,
) -> bool {
    exists|i: int|
        {
            &&& 0 <= i < fields.len()
            &&& !claim_agrees(#[trigger] fields[i], data)
            &&& forall|j: int| 0 <= j < i ==> claim_agrees(#[trigger] fields[j], data)
            &&& e matches PortalError::DtypeMismatch { field, expected, got }
            &&& field@ == fields[i].name@
            &&& expected == fields[i].dtype
            &&& got@ == data[fields[i].name@].dtype->0.name()
        }
}

/// Checks that every type that is claimed for a column is the declared one.
/// The values themselves are of no account.
pub fn check_claims(fields: &[FieldSpec], data: &NameMap<ChunkColumn>) -> (r: PortalResult<()>)
    ensures
        match r {
            Ok(_) => claims_agree(fields@, data@),
            Err(e) => names_first_false_claim(e, fields@, data@),
        },
{
    let mut i: usize = 0;
    while i < fields.len()
        invariant
            i <= fields@.len(),
            forall|j: int| 0 <= j < i ==> claim_agrees(#[trigger] fields@[j], data@),
        decreases fields@.len() - i,
    {
        match data.get(fields[i].name.as_str()) {
            Some(column) => match column.dtype {
                Some(claimed) => {
                    if claimed != fields[i].dtype {
                        let e = PortalError::DtypeMismatch {
                            field: fields[i].name.clone(),
                            expected: fields[i].dtype,
                            got: claimed.variant_name(),
                        };
                        assert(!claim_agrees(fields@[i as int], data@));
                        return Err(e);
                    }
                },
                None => {},
            },
            None => {},
        }
        i = i + 1;
    }
    Ok(())
}

/// Whether `bare` holds the values of the columns, without their claims.
pub open spec fn values_of_columns(
    bare: Map<Seq<char>, Vec<u64>>,
    data: Map<Seq<char>, ChunkColumn>,
) -> bool {
    &&& bare.dom() == data.dom()
    &&& forall|n: Seq<char>| #[trigger]
        data.contains_key(n) ==> bare[n]@ == data[n].values@
}

/// The values of columns, without their claims.
pub fn bare_columns(data: &NameMap<ChunkColumn>) -> (bare: NameMap<Vec<u64>>)
    ensures
        values_of_columns(bare@, data@),
{
    let entries: &Vec<(String, ChunkColumn)> = data.entries();
    let mut bare: NameMap<Vec<u64>> = NameMap::new();
    let mut i: usize = 0;
    assert(entries@.take(0).len() == 0);
    assert(bare@.dom() =~= crate::name_map::entries_map(entries@.take(0)).dom());
    while i < entries.len()
        invariant
            i <= entries@.len(),
            bare@.dom() == crate::name_map::entries_map(entries@.take(i as int)).dom(),
            forall|n: Seq<char>| #[trigger]
                bare@.contains_key(n) ==> bare@[n]@ == crate::name_map::entries_map(
                    entries@.take(i as int),
                )[n].values@,
        decreases entries@.len() - i,
    {
        let values: Vec<u64> = entries[i].1.values.clone();
        assert(values@ =~= entries@[i as int].1.values@);
        bare.insert(entries[i].0.clone(), values);
        i = i + 1;
        proof {
            let front = entries@.take(i as int);
            assert(front.drop_last() =~= entries@.take(i - 1));
            assert(front.last() == entries@[i - 1]);
            assert(bare@.dom() =~= crate::name_map::entries_map(front).dom());
        }
    }
    assert(entries@.take(i as int) =~= entries@);
    bare
}

// ---------------------------------------------------------------------------
// Receiving
// ---------------------------------------------------------------------------

/// A declared chunk on the receiving side: its fingerprint and its latest
/// delivery.
#[derive(Debug)]
pub struct ChunkSlot {
    pub spec: ChunkSpec,
    pub fingerprint: u32,
    pub inner: DataSlot<ActionChunk>,
}

impl ChunkSlot {
    /// A slot that has seen nothing.
    pub fn new(spec: ChunkSpec, fingerprint: u32) -> (s: Self)
        ensures
            s.spec == spec,
            s.fingerprint == fingerprint,
            s.inner.latest is None,
            s.inner.warned_mismatches@ == Set::<u32>::empty(),
    {
        ChunkSlot { spec, fingerprint, inner: DataSlot::new() }
    }

    /// Keeps a chunk as the latest.
    pub fn deliver(&mut self, chunk: ActionChunk)
        ensures
            final(self).inner.latest == Some(chunk),
            final(self).inner.warned_mismatches == old(self).inner.warned_mismatches,
            final(self).spec == old(self).spec,
            final(self).fingerprint == old(self).fingerprint,
    {
        self.inner.deliver(chunk);
    }

    /// The latest chunk.
    pub fn get(&self) -> (c: Option<&ActionChunk>)
        ensures
            match c {
                Some(x) => self.inner.latest == Some(*x),
                None => self.inner.latest is None,
            },
    {
        self.inner.get()
    }

    /// Forgets the latest chunk.
    pub fn clear(&mut self)
        ensures
            final(self).inner.latest is None,
            final(self).inner.warned_mismatches == old(self).inner.warned_mismatches,
            final(self).spec == old(self).spec,
            final(self).fingerprint == old(self).fingerprint,
    {
        self.inner.clear();
    }

    /// Notes a foreign fingerprint. Returns whether it is to be reported.
    pub fn warn_mismatch(&mut self, got: u32) -> (first: bool)
        ensures
            first == !old(self).inner.warned_mismatches@.contains(got),
            final(self).inner.warned_mismatches@ == old(self).inner.warned_mismatches@.insert(got),
            final(self).inner.latest == old(self).inner.latest,
            final(self).spec == old(self).spec,
            final(self).fingerprint == old(self).fingerprint,
    {
        self.inner.warn_mismatch(got)
    }
}

/// Where a chunk payload goes.
#[derive(Debug, Clone, Copy, PartialEq, Eq, Structural)]
pub enum ChunkRoute {
    /// The payload is too short to hold a fingerprint.
    Short,
    /// No declared chunk has the fingerprint. `warn` says whether it is to be
    /// reported, `cap_reached` whether it is the last one that will be.
    Unknown { fingerprint: u32, warn: bool, cap_reached: bool },
    /// The slot at this position has the fingerprint.
    Slot(usize),
}

/// Position of the first slot with a fingerprint.
pub open spec fn slot_position(slots: Seq<ChunkSlot>, fingerprint: nat) -> Option<int>
    decreases slots.len(),
{
    if slots.len() == 0 {
        None
    } else {
        match slot_position(slots.drop_last(), fingerprint) {
            Some(i) => Some(i),
            None => if slots.last().fingerprint == fingerprint {
                Some(slots.len() - 1)
            } else {
                None
            },
        }
    }
}

/// What comes of a chunk payload: its slot, or a report of a fingerprint that
/// no declared chunk has. Each is reported once, and only so many.
pub open spec fn chunk_routed(
    payload: Seq<u8>,
    slots: Seq<ChunkSlot>,
    before: Set<u32>,
    after: Set<u32>,
    route: ChunkRoute,
) -> bool {
    let fp = wire::le_value(payload.subrange(0, 4));
    if payload.len() < 4 {
        route == ChunkRoute::Short && after == before
    } else {
        match slot_position(slots, fp) {
            Some(i) => {
                &&& route matches ChunkRoute::Slot(at) && at == i
                &&& 0 <= i < slots.len()
                &&& slots[i].fingerprint == fp
                &&& after == before
            },
            None => {
                let room = before.len() < UNKNOWN_FP_WARN_CAP;
                let warn = room && !before.contains(fp as u32);
                &&& route == (ChunkRoute::Unknown {
                    fingerprint: fp as u32,
                    warn,
                    cap_reached: warn && before.len() + 1 == UNKNOWN_FP_WARN_CAP,
                })
                &&& after == (if room {
                    before.insert(fp as u32)
                } else {
                    before
                })
            },
        }
    }
}

/// Finds the slot of a chunk payload by its fingerprint.
pub fn route_chunk(
    payload: &[u8],
    slots: &[ChunkSlot],
    reported: &mut HashSet<u32>,
) -> (route: ChunkRoute)
    requires
        old(reported)@.finite(),
    ensures
        final(reported)@.finite(),
        chunk_routed(payload@, slots@, old(reported)@, final(reported)@, route),
{
    broadcast use vstd::std_specs::hash::group_hash_axioms;

    if payload.len() < 4 {
        return ChunkRoute::Short;
    }
    proof {
        lemma2_to64();
    }
    let fingerprint: u32 = wire::get_le(payload, 0, 4) as u32;
    let mut i: usize = 0;
    assert(slots@.take(0).len() == 0);
    while i < slots.len()
        invariant
            i <= slots@.len(),
            slot_position(slots@.take(i as int), fingerprint as nat) is None,
            reported@ == old(reported)@,
            reported@.finite(),
            payload@.len() >= 4,
            fingerprint == wire::le_value(payload@.subrange(0, 4)),
        decreases slots@.len() - i,
    {
        proof {
            let front = slots@.take(i + 1);
            assert(front.drop_last() =~= slots@.take(i as int));
            assert(front.last() == slots@[i as int]);
        }
        if slots[i].fingerprint == fingerprint {
            proof {
                lemma_position_stays(slots@, (i + 1) as nat, fingerprint as nat);
            }
            return ChunkRoute::Slot(i);
        }
        i = i + 1;
    }
    assert(slots@.take(i as int) =~= slots@);
    if reported.len() >= UNKNOWN_FP_WARN_CAP {
        return ChunkRoute::Unknown { fingerprint, warn: false, cap_reached: false };
    }
    let warn: bool = reported.insert(fingerprint);
    let cap_reached: bool = warn && reported.len() == UNKNOWN_FP_WARN_CAP;
    ChunkRoute::Unknown { fingerprint, warn, cap_reached }
}

proof fn lemma_position_stays(slots: Seq<ChunkSlot>, n: nat, fingerprint: nat)
    requires
        n <= slots.len(),
        slot_position(slots.take(n as int), fingerprint) is Some,
    ensures
        slot_position(slots, fingerprint) == slot_position(slots.take(n as int), fingerprint),
    decreases slots.len(),
{
    if n < slots.len() {
        let front = slots.drop_last();
        assert(front.take(n as int) =~= slots.take(n as int));
        lemma_position_stays(front, n, fingerprint);
    } else {
        assert(slots.take(n as int) =~= slots);
    }
}

/// The columns of the first `n` fields, by name.
pub open spec fn column_map(fields: Seq<FieldSpec>, columns: Seq<Vec<u64>>, n: nat) -> Map<
    Seq<char>,
    Vec<u64>,
>
    decreases n,
{
    if n == 0 {
        Map::empty()
    } else {
        column_map(fields, columns, (n - 1) as nat).insert(
            fields[n - 1].name@,
            columns[n - 1],
        )
    }
}

/// Number of fields that have a column.
pub open spec fn paired_columns(fields: Seq<FieldSpec>, columns: Seq<Vec<u64>>) -> nat {
    if fields.len() < columns.len() {
        fields.len()
    } else {
        columns.len()
    }
}

fn name_columns(fields: &[FieldSpec], columns: Vec<Vec<u64>>) -> (map: NameMap<Vec<u64>>)
    ensures
        map@.map_values(|c: Vec<u64>| c@) == column_map(
            fields@,
            columns@,
            paired_columns(fields@, columns@),
        ).map_values(|c: Vec<u64>| c@),
{
    let mut map: NameMap<Vec<u64>> = NameMap::new();
    let mut i: usize = 0;
    assert(map@.map_values(|c: Vec<u64>| c@) =~= column_map(fields@, columns@, 0).map_values(
        |c: Vec<u64>| c@,
    ));
    while i < fields.len() && i < columns.len()
        invariant
            i <= paired_columns(fields@, columns@),
            map@.map_values(|c: Vec<u64>| c@) == column_map(
                fields@,
                columns@,
                i as nat,
            ).map_values(|c: Vec<u64>| c@),
        decreases fields@.len() - i,
    {
        let ghost before = map@;
        let column: Vec<u64> = columns[i].clone();
        let ghost copy = column;
        assert(copy@ =~= columns@[i as int]@);
        map.insert(fields[i].name.clone(), column);
        i = i + 1;
        proof {
            let name = fields@[i - 1].name@;
            assert(map@.map_values(|c: Vec<u64>| c@) =~= before.map_values(
                |c: Vec<u64>| c@,
            ).insert(name, copy@));
            assert(column_map(fields@, columns@, i as nat).map_values(|c: Vec<u64>| c@)
                =~= column_map(fields@, columns@, (i - 1) as nat).map_values(
                |c: Vec<u64>| c@,
            ).insert(name, columns@[i - 1]@));
        }
    }
    map
}

/// What came of a chunk payload that found its slot.
#[derive(Debug)]
pub enum ChunkOutcome {
    /// The chunk is now the latest.
    Delivered,
    /// It is of another schema. `first` says whether it is to be reported.
    Mismatch { expected: u32, got: u32, first: bool },
    /// It is damaged.
    Malformed(PortalError),
}

/// What comes of what was read from a chunk payload.
pub open spec fn chunk_accepted(
    before: ChunkSlot,
    after: ChunkSlot,
    decoded: Result<(u64, Option<u64>, Vec<Vec<u64>>), DecodeError>,
    metrics_before: crate::metrics::MetricsView,
    metrics_after: crate::metrics::MetricsView,
    now_us: u64,
    sender: Seq<char>,
    outcome: ChunkOutcome,
) -> bool {
    &&& after.spec == before.spec
    &&& after.fingerprint == before.fingerprint
    &&& match decoded {
        Ok((ts, reply, columns)) => {
            &&& outcome is Delivered
            &&& after.inner.latest matches Some(c) && is_chunk(
                c,
                before.spec,
                ts,
                reply,
                columns@,
                sender,
            )
            &&& after.inner.warned_mismatches == before.inner.warned_mismatches
            &&& metrics_after == crate::metrics::correlated(
                crate::metrics::received(metrics_before, DataStream::Chunk, ts, now_us),
                reply,
                now_us,
            )
        },
        Err(DecodeError::SchemaMismatch { expected, got }) => {
            &&& outcome == (ChunkOutcome::Mismatch {
                expected,
                got,
                first: !before.inner.warned_mismatches@.contains(got),
            })
            &&& after.inner.warned_mismatches@ == before.inner.warned_mismatches@.insert(got)
            &&& after.inner.latest == before.inner.latest
            &&& metrics_after == metrics_before
        },
        Err(DecodeError::Malformed(e)) => {
            &&& outcome == ChunkOutcome::Malformed(e)
            &&& after == before
            &&& metrics_after == metrics_before
        },
    }
}

/// Takes in what was read from a chunk payload: its timestamp, the timestamp
/// that it answers to and its columns in declared order, or why it could not
/// be read.
pub fn accept_chunk(
    slot: &mut ChunkSlot,
    decoded: Result<(u64, Option<u64>, Vec<Vec<u64>>), DecodeError>,
    metrics: &mut MetricsRegistry,
    now_us: u64,
    sender: String,
) -> (outcome: ChunkOutcome)
    requires
        old(metrics).wf(),
    ensures
        final(metrics).wf(),
        chunk_accepted(
            *old(slot),
            *final(slot),
            decoded,
            old(metrics)@,
            final(metrics)@,
            now_us,
            sender@,
            outcome,
        ),
{
    match decoded {
        Ok((timestamp_us, in_reply_to_ts_us, columns)) => {
            metrics.record_received(DataStream::Chunk, timestamp_us, now_us);
            metrics.record_e2e(in_reply_to_ts_us, now_us);
            let data: NameMap<Vec<u64>> = name_columns(slot.spec.fields.as_slice(), columns);
            let chunk = ActionChunk {
                name: slot.spec.name.clone(),
                horizon: slot.spec.horizon,
                data,
                timestamp_us,
                in_reply_to_ts_us,
                sender,
            };
            slot.deliver(chunk);
            ChunkOutcome::Delivered
        },
        Err(DecodeError::SchemaMismatch { expected, got }) => {
            let first: bool = slot.warn_mismatch(got);
            ChunkOutcome::Mismatch { expected, got, first }
        },
        Err(DecodeError::Malformed(e)) => ChunkOutcome::Malformed(e),
    }
}

/// Whether a chunk holds the columns of a payload.
pub open spec fn is_chunk(
    c: ActionChunk,
    spec: ChunkSpec,
    timestamp_us: u64,
    in_reply_to_ts_us: Option<u64>,
    columns: Seq<Vec<u64>>,
    sender: Seq<char>,
) -> bool {
    &&& c.name@ == spec.name@
    &&& c.horizon == spec.horizon
    &&& c.data@.map_values(|v: Vec<u64>| v@) == column_map(
        spec.fields@,
        columns,
        paired_columns(spec.fields@, columns),
    ).map_values(|v: Vec<u64>| v@)
    &&& c.timestamp_us == timestamp_us
    &&& c.in_reply_to_ts_us == in_reply_to_ts_us
    &&& c.sender@ == sender
}

} // verus!

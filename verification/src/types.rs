//! Values, records and settings shared across the portal.
use crate::config::FieldSpec;
use crate::dtype::DType;
use crate::ieee;
use crate::name_map::NameMap;
use crate::payload::bytes_clone;
use bytes::Bytes;
use vstd::arithmetic::power2::*;
use vstd::prelude::*;

verus! {

/// Side of the link that a portal stands on. An observer receives what is in
/// the room and can hand control between operators, but sends neither states
/// nor actions.
#[derive(Debug, Clone, Copy, PartialEq, Eq, Structural)]
pub enum Role {
    Robot,
    Operator,
    Observer,
}

/// Which received actions a side other than the robot is told of: no one's,
/// the active operator's, or every operator's.
#[derive(Debug, Clone, Copy, PartialEq, Eq, Structural)]
pub enum ActionSubscription {
    Off,
    Active,
    All,
}

impl Default for ActionSubscription {
    fn default() -> (s: Self)
        ensures
            s == ActionSubscription::Off,
    {
        ActionSubscription::Off
    }
}

/// Where a portal takes its time from: it follows the robot's clock, or it
/// trusts the host's, where hosts are kept in step by other means.
#[derive(Debug, Clone, Copy, PartialEq, Eq, Structural)]
pub enum TimeSyncSource {
    Portal,
    System,
}

impl Default for TimeSyncSource {
    fn default() -> (s: Self)
        ensures
            s == TimeSyncSource::Portal,
    {
        TimeSyncSource::Portal
    }
}

/// A value received on the wire, reconstructed to its declared type.
///
/// The pipeline widens every value to binary64 for carry-forward and
/// buffering; every supported integer type fits its 53-bit significand, so
/// that widening is lossless. This is the presentation form handed to user
/// code: a `Bool` field arrives as `Bool(true)`, not as the number one.
/// Floating-point variants hold the bit pattern of the number.
#[derive(Debug, Clone, Copy, PartialEq, Eq, Structural)]
pub enum TypedValue {
    F64(u64),
    F32(u32),
    I32(i32),
    I16(i16),
    I8(i8),
    U32(u32),
    U16(u16),
    U8(u8),
    Bool(bool),
}

/// The typed value that the binary64 pattern `v` is delivered as.
pub open spec fn typed_value(v: u64, dtype: DType) -> TypedValue {
    match dtype {
        DType::F64 => TypedValue::F64(v),
        DType::F32 => TypedValue::F32(ieee::f32_of_f64(v) as u32),
        DType::I32 => TypedValue::I32(ieee::f64_to_int(v, i32::MIN as int, i32::MAX as int) as i32),
        DType::I16 => TypedValue::I16(ieee::f64_to_int(v, i16::MIN as int, i16::MAX as int) as i16),
        DType::I8 => TypedValue::I8(ieee::f64_to_int(v, i8::MIN as int, i8::MAX as int) as i8),
        DType::U32 => TypedValue::U32(ieee::f64_to_int(v, 0, u32::MAX as int) as u32),
        DType::U16 => TypedValue::U16(ieee::f64_to_int(v, 0, u16::MAX as int) as u16),
        DType::U8 => TypedValue::U8(ieee::f64_to_int(v, 0, u8::MAX as int) as u8),
        DType::Bool => TypedValue::Bool(!ieee::f64_is_zero(v) && !ieee::f64_is_nan(v)),
    }
}

impl TypedValue {
    /// Constructs a value of the declared type from a binary64 pattern.
    /// Out-of-range numbers clamp to the bounds of an integer type and
    /// not-a-number becomes zero.
    pub fn from_f64(v: u64, dtype: DType) -> (t: Self)
        ensures
            t == typed_value(v, dtype),
    {
        match dtype {
            DType::F64 => TypedValue::F64(v),
            DType::F32 => TypedValue::F32(ieee::f32_from_f64(v)),
            DType::I32 => TypedValue::I32(
                ieee::f64_clamp_to_int(v, i32::MIN as i64, i32::MAX as i64) as i32,
            ),
            DType::I16 => TypedValue::I16(
                ieee::f64_clamp_to_int(v, i16::MIN as i64, i16::MAX as i64) as i16,
            ),
            DType::I8 => TypedValue::I8(
                ieee::f64_clamp_to_int(v, i8::MIN as i64, i8::MAX as i64) as i8,
            ),
            DType::U32 => TypedValue::U32(ieee::f64_clamp_to_int(v, 0, u32::MAX as i64) as u32),
            DType::U16 => TypedValue::U16(ieee::f64_clamp_to_int(v, 0, u16::MAX as i64) as u16),
            DType::U8 => TypedValue::U8(ieee::f64_clamp_to_int(v, 0, u8::MAX as i64) as u8),
            DType::Bool => {
                let mag: u64 = v % ieee::F64_SIGN;
                TypedValue::Bool(mag != 0 && !(mag > ieee::F64_INF))
            },
        }
    }

    /// The declared type that a value belongs to.
    pub open spec fn tag(self) -> DType {
        match self {
            TypedValue::F64(_) => DType::F64,
            TypedValue::F32(_) => DType::F32,
            TypedValue::I32(_) => DType::I32,
            TypedValue::I16(_) => DType::I16,
            TypedValue::I8(_) => DType::I8,
            TypedValue::U32(_) => DType::U32,
            TypedValue::U16(_) => DType::U16,
            TypedValue::U8(_) => DType::U8,
            TypedValue::Bool(_) => DType::Bool,
        }
    }

    /// The declared type matching this variant, so that callers can check a
    /// typed value against a schema.
    pub fn dtype(self) -> (d: DType)
        ensures
            d == self.tag(),
    {
        match self {
            TypedValue::F64(_) => DType::F64,
            TypedValue::F32(_) => DType::F32,
            TypedValue::I32(_) => DType::I32,
            TypedValue::I16(_) => DType::I16,
            TypedValue::I8(_) => DType::I8,
            TypedValue::U32(_) => DType::U32,
            TypedValue::U16(_) => DType::U16,
            TypedValue::U8(_) => DType::U8,
            TypedValue::Bool(_) => DType::Bool,
        }
    }

    /// Name of the variant, for error messages.
    pub fn variant_name(self) -> (s: &'static str)
        ensures
            s@ == self.tag().name(),
    {
        self.dtype().variant_name()
    }

    /// The value widened to a binary64 pattern.
    pub open spec fn widened(self) -> u64 {
        match self {
            TypedValue::F64(v) => v,
            TypedValue::F32(v) => ieee::f64_of_f32(v) as u64,
            TypedValue::I32(v) => ieee::f64_of_int(v as int) as u64,
            TypedValue::I16(v) => ieee::f64_of_int(v as int) as u64,
            TypedValue::I8(v) => ieee::f64_of_int(v as int) as u64,
            TypedValue::U32(v) => ieee::f64_of_int(v as int) as u64,
            TypedValue::U16(v) => ieee::f64_of_int(v as int) as u64,
            TypedValue::U8(v) => ieee::f64_of_int(v as int) as u64,
            TypedValue::Bool(v) => if v {
                ieee::F64_ONE
            } else {
                0
            },
        }
    }

    /// Lossless widening to a binary64 pattern.
    pub fn as_f64(self) -> (v: u64)
        ensures
            v == self.widened(),
    {
        match self {
            TypedValue::F64(v) => v,
            TypedValue::F32(v) => ieee::f64_from_f32(v),
            TypedValue::I32(v) => ieee::f64_from_int(v as i64),
            TypedValue::I16(v) => ieee::f64_from_int(v as i64),
            TypedValue::I8(v) => ieee::f64_from_int(v as i64),
            TypedValue::U32(v) => ieee::f64_from_int(v as i64),
            TypedValue::U16(v) => ieee::f64_from_int(v as i64),
            TypedValue::U8(v) => ieee::f64_from_int(v as i64),
            TypedValue::Bool(v) => if v {
                ieee::F64_ONE
            } else {
                0
            },
        }
    }
}

/// Widening a typed value and reading it back at its own type returns it:
/// the pipeline loses nothing of what the type can hold.
pub proof fn law_widening_is_lossless(t: TypedValue)
    requires
        !(t matches TypedValue::F32(b) && ieee::f32_is_nan(b)),
    ensures
        typed_value(t.widened(), t.tag()) == t,
{
    match t {
        TypedValue::F64(_) => {},
        TypedValue::F32(b) => ieee::law_f32_widening_is_lossless(b),
        TypedValue::I32(v) => ieee::law_int_widening_is_lossless(
            v as int,
            i32::MIN as int,
            i32::MAX as int,
        ),
        TypedValue::I16(v) => ieee::law_int_widening_is_lossless(
            v as int,
            i16::MIN as int,
            i16::MAX as int,
        ),
        TypedValue::I8(v) => ieee::law_int_widening_is_lossless(
            v as int,
            i8::MIN as int,
            i8::MAX as int,
        ),
        TypedValue::U32(v) => ieee::law_int_widening_is_lossless(v as int, 0, u32::MAX as int),
        TypedValue::U16(v) => ieee::law_int_widening_is_lossless(v as int, 0, u16::MAX as int),
        TypedValue::U8(v) => ieee::law_int_widening_is_lossless(v as int, 0, u8::MAX as int),
        TypedValue::Bool(_) => {},
    }
}

/// Reading a value at its declared type and widening it again gives what a
/// receiver reads off the wire.
pub proof fn law_typed_value_is_what_arrives(v: u64, dtype: DType)
    ensures
        typed_value(v, dtype).widened() == dtype.delivered(v),
{
    lemma2_to64();
    if dtype == DType::F32 {
        ieee::lemma_f32_of_f64_range(v);
    }
}

impl From<i32> for TypedValue {
    fn from(v: i32) -> (t: Self) {
        TypedValue::I32(v)
    }
}

impl vstd::std_specs::convert::FromSpecImpl<i32> for TypedValue {
    open spec fn obeys_from_spec() -> bool {
        true
    }

    open spec fn from_spec(v: i32) -> Self {
        TypedValue::I32(v)
    }
}

impl From<i16> for TypedValue {
    fn from(v: i16) -> (t: Self) {
        TypedValue::I16(v)
    }
}

impl vstd::std_specs::convert::FromSpecImpl<i16> for TypedValue {
    open spec fn obeys_from_spec() -> bool {
        true
    }

    open spec fn from_spec(v: i16) -> Self {
        TypedValue::I16(v)
    }
}

impl From<i8> for TypedValue {
    fn from(v: i8) -> (t: Self) {
        TypedValue::I8(v)
    }
}

impl vstd::std_specs::convert::FromSpecImpl<i8> for TypedValue {
    open spec fn obeys_from_spec() -> bool {
        true
    }

    open spec fn from_spec(v: i8) -> Self {
        TypedValue::I8(v)
    }
}

impl From<u32> for TypedValue {
    fn from(v: u32) -> (t: Self) {
        TypedValue::U32(v)
    }
}

impl vstd::std_specs::convert::FromSpecImpl<u32> for TypedValue {
    open spec fn obeys_from_spec() -> bool {
        true
    }

    open spec fn from_spec(v: u32) -> Self {
        TypedValue::U32(v)
    }
}

impl From<u16> for TypedValue {
    fn from(v: u16) -> (t: Self) {
        TypedValue::U16(v)
    }
}

impl vstd::std_specs::convert::FromSpecImpl<u16> for TypedValue {
    open spec fn obeys_from_spec() -> bool {
        true
    }

    open spec fn from_spec(v: u16) -> Self {
        TypedValue::U16(v)
    }
}

impl From<u8> for TypedValue {
    fn from(v: u8) -> (t: Self) {
        TypedValue::U8(v)
    }
}

impl vstd::std_specs::convert::FromSpecImpl<u8> for TypedValue {
    open spec fn obeys_from_spec() -> bool {
        true
    }

    open spec fn from_spec(v: u8) -> Self {
        TypedValue::U8(v)
    }
}

impl From<bool> for TypedValue {
    fn from(v: bool) -> (t: Self) {
        TypedValue::Bool(v)
    }
}

impl vstd::std_specs::convert::FromSpecImpl<bool> for TypedValue {
    open spec fn obeys_from_spec() -> bool {
        true
    }

    open spec fn from_spec(v: bool) -> Self {
        TypedValue::Bool(v)
    }
}

/// One action received from the operator.
#[derive(Debug, Clone)]
pub struct Action {
    /// Field name to typed value per the declared action schema.
    pub values: NameMap<TypedValue>,
    /// The same payload widened to binary64 patterns.
    pub raw_values: NameMap<u64>,
    pub timestamp_us: u64,
    /// Sender-side observation timestamp this action was produced from, when
    /// the operator passed one. `None` means the action answers to no
    /// observation.
    pub in_reply_to_ts_us: Option<u64>,
    /// Identity of the operator that produced this action, captured when the
    /// active-operator gate accepted the packet.
    pub sender: String,
    /// Whether the sender was the active operator then. An action of anyone
    /// else is only seen where those of every operator are subscribed to.
    pub active: bool,
}

/// One column of an outgoing action chunk: values widened to binary64
/// patterns, plus the type the caller claims they are.
///
/// The claim is compared against the declared type of the field, as it is for
/// scalar actions; the values themselves are not inspected. Out-of-range
/// values still saturate at encoding.
#[derive(Debug, Clone, PartialEq, Eq)]
pub struct ChunkColumn {
    /// The column, as long as the chunk's horizon. Short columns are padded
    /// with zero and long ones cut.
    pub values: Vec<u64>,
    /// The type the caller claims this column holds. `None` waives the check
    /// and coerces to the declared type.
    pub dtype: Option<DType>,
}

impl ChunkColumn {
    /// A column that claims a type. Mismatches against the declared field are
    /// rejected when sending.
    pub fn typed(dtype: DType, values: Vec<u64>) -> (c: Self)
        ensures
            c.values == values,
            c.dtype == Some(dtype),
    {
        ChunkColumn { values, dtype: Some(dtype) }
    }

    /// A column that claims nothing and coerces to the declared type.
    pub fn untyped(values: Vec<u64>) -> (c: Self)
        ensures
            c.values == values,
            c.dtype is None,
    {
        ChunkColumn { values, dtype: None }
    }
}

impl From<Vec<u64>> for ChunkColumn {
    /// Bare columns coerce.
    fn from(values: Vec<u64>) -> (c: Self) {
        ChunkColumn { values, dtype: None }
    }
}

impl vstd::std_specs::convert::FromSpecImpl<Vec<u64>> for ChunkColumn {
    open spec fn obeys_from_spec() -> bool {
        true
    }

    open spec fn from_spec(values: Vec<u64>) -> Self {
        ChunkColumn { values, dtype: None }
    }
}

/// One action chunk received from the operator: `horizon` future actions,
/// one column per field.
#[derive(Debug, Clone)]
pub struct ActionChunk {
    /// Chunk name as declared.
    pub name: String,
    /// Number of timesteps, the length of every column.
    pub horizon: u32,
    /// Column of each field, widened to binary64 patterns.
    pub data: NameMap<Vec<u64>>,
    pub timestamp_us: u64,
    /// Sender-side observation timestamp this chunk was produced from.
    pub in_reply_to_ts_us: Option<u64>,
    /// Identity of the operator that produced this chunk.
    pub sender: String,
}

/// One state sample received from the robot.
#[derive(Debug, Clone)]
pub struct State {
    pub values: NameMap<TypedValue>,
    pub raw_values: NameMap<u64>,
    pub timestamp_us: u64,
}

/// A synchronized observation: one state matched with one frame from every
/// declared video track.
#[derive(Debug)]
pub struct Observation {
    /// Typed per the declared state schema.
    pub state: NameMap<TypedValue>,
    /// The same payload widened to binary64 patterns.
    pub raw_state: NameMap<u64>,
    pub frames: NameMap<VideoFrameData>,
    pub timestamp_us: u64,
}

/// What an observation holds.
#[verifier::ext_equal]
pub struct ObservationView {
    pub state: Map<Seq<char>, TypedValue>,
    pub raw_state: Map<Seq<char>, u64>,
    pub frames: Map<Seq<char>, FrameView>,
    pub timestamp_us: u64,
}

impl View for Observation {
    type V = ObservationView;

    open spec fn view(&self) -> ObservationView {
        ObservationView {
            state: self.state@,
            raw_state: self.raw_state@,
            frames: self.frames@.map_values(|f: VideoFrameData| f@),
            timestamp_us: self.timestamp_us,
        }
    }
}

impl Clone for Observation {
    fn clone(&self) -> (c: Self)
        ensures
            c@ == self@,
    {
        let c = Observation {
            state: self.state.clone(),
            raw_state: self.raw_state.clone(),
            frames: self.frames.clone(),
            timestamp_us: self.timestamp_us,
        };
        assert(c.state@ =~= self.state@);
        assert(c.raw_state@ =~= self.raw_state@);
        assert(c@.frames =~= self@.frames);
        c
    }
}

/// Where the pixels in a delivered frame came from. Frames on the raw video
/// callbacks are always `Live`; the others only appear inside an
/// observation.
#[derive(Debug, Clone, Copy, PartialEq, Eq, Structural)]
pub enum FrameSource {
    /// A real frame matched to this state within the tolerance window.
    Live,
    /// A real frame, but from an earlier moment: the track's last good frame,
    /// reused because nothing in range arrived. Its timestamp is its own.
    Stale,
    /// Not a camera frame at all: a placeholder standing in for a silent
    /// track.
    Omitted,
}

/// Decoded video frame: packed RGB24, three bytes per pixel, whatever the
/// transport was.
#[derive(Debug)]
pub struct VideoFrameData {
    pub width: u32,
    pub height: u32,
    pub data: Bytes,
    pub timestamp_us: u64,
    /// Whether these pixels are a live match, a reused earlier frame, or a
    /// placeholder.
    pub source: FrameSource,
}

/// What a frame holds.
#[verifier::ext_equal]
pub struct FrameView {
    pub width: u32,
    pub height: u32,
    pub data: Seq<u8>,
    pub timestamp_us: u64,
    pub source: FrameSource,
}

impl View for VideoFrameData {
    type V = FrameView;

    open spec fn view(&self) -> FrameView {
        FrameView {
            width: self.width,
            height: self.height,
            data: crate::payload::bytes_contents(self.data),
            timestamp_us: self.timestamp_us,
            source: self.source,
        }
    }
}

impl Clone for VideoFrameData {
    fn clone(&self) -> (c: Self)
        ensures
            c@ == self@,
    {
        VideoFrameData {
            width: self.width,
            height: self.height,
            data: bytes_clone(&self.data),
            timestamp_us: self.timestamp_us,
            source: self.source,
        }
    }
}

/// What to do with a moment whose video track has gone silent past its lag
/// budget. All three are terminal: they say how the moment is resolved once
/// the wait is over.
#[derive(Debug, Clone, Copy, PartialEq, Eq, Structural)]
pub enum StallBehavior {
    /// Emit no observation. The state is still delivered, on the drop
    /// callback.
    Drop,
    /// Emit with the track's last good frame, tagged as stale. Falls back to
    /// `Drop` before the track's first frame, when there is nothing to reuse.
    /// With a budget of zero the state waits then, until no frame can match it
    /// any more or until it overflows its queue.
    Freeze,
    /// Emit with a placeholder for the silent track, tagged as omitted. Falls
    /// back to `Drop` before the track's first frame, as `Freeze` does, when
    /// the size of its frames is not known.
    Omit,
}

impl Default for StallBehavior {
    fn default() -> (b: Self)
        ensures
            b == StallBehavior::Drop,
    {
        StallBehavior::Drop
    }
}

/// Per-track stall handling: how long to wait for a silent track, and how to
/// resolve the moment when the wait is over.
#[derive(Debug, Clone, Copy, PartialEq, Eq, Structural)]
pub struct StallConfig {
    /// How far the fastest-advancing stream may run past a moment, in
    /// sender-clock microseconds, before that moment is resolved without
    /// this track. `None` waits until capacity evicts the moment; `Some(0)`
    /// resolves without ever waiting.
    pub max_lag_us: Option<u64>,
    pub behavior: StallBehavior,
}

impl Default for StallConfig {
    fn default() -> (c: Self)
        ensures
            c.max_lag_us is None,
            c.behavior == StallBehavior::Drop,
    {
        StallConfig { max_lag_us: None, behavior: StallBehavior::Drop }
    }
}

/// Settings of the sync buffer, derived from the session settings.
#[derive(Debug, Clone, Copy, PartialEq, Eq, Structural)]
pub struct SyncConfig {
    pub video_buffer_size: u32,
    pub state_buffer_size: u32,
    pub search_range_us: u64,
    /// Reuse the last emitted frame of a track instead of waiting for it or
    /// dropping the state.
    pub reuse_stale_frames: bool,
    /// Stall handling for tracks with no override of their own.
    pub default_stall: StallConfig,
}

impl Default for SyncConfig {
    fn default() -> (c: Self)
        ensures
            c.video_buffer_size == 5,
            c.state_buffer_size == 5,
            c.search_range_us == 10_000,
            !c.reuse_stale_frames,
            c.default_stall == (StallConfig { max_lag_us: None, behavior: StallBehavior::Drop }),
    {
        SyncConfig {
            video_buffer_size: 5,
            state_buffer_size: 5,
            search_range_us: 10_000,
            reuse_stale_frames: false,
            default_stall: StallConfig { max_lag_us: None, behavior: StallBehavior::Drop },
        }
    }
}

/// The typed values of the first `n` fields.
pub open spec fn typed_map(schema: Seq<FieldSpec>, values: Seq<u64>, n: nat) -> Map<
    Seq<char>,
    TypedValue,
>
    decreases n,
{
    if n == 0 {
        Map::empty()
    } else {
        typed_map(schema, values, (n - 1) as nat).insert(
            schema[n - 1].name@,
            typed_value(values[n - 1], schema[n - 1].dtype),
        )
    }
}

/// The widened values of the first `n` fields.
pub open spec fn raw_map(schema: Seq<FieldSpec>, values: Seq<u64>, n: nat) -> Map<Seq<char>, u64>
    decreases n,
{
    if n == 0 {
        Map::empty()
    } else {
        raw_map(schema, values, (n - 1) as nat).insert(schema[n - 1].name@, values[n - 1])
    }
}

/// Number of fields that have a value.
pub open spec fn paired(schema: Seq<FieldSpec>, values: Seq<u64>) -> nat {
    if schema.len() < values.len() {
        schema.len()
    } else {
        values.len()
    }
}

/// Typed and widened values by field name, from an ordered schema and its
/// values. Fields without a value, and values without a field, are left out.
pub fn to_value_maps(schema: &[FieldSpec], values: &[u64]) -> (maps: (
    NameMap<TypedValue>,
    NameMap<u64>,
))
    ensures
        maps.0@ == typed_map(schema@, values@, paired(schema@, values@)),
        maps.1@ == raw_map(schema@, values@, paired(schema@, values@)),
{
    let mut typed: NameMap<TypedValue> = NameMap::new();
    let mut raw: NameMap<u64> = NameMap::new();
    let mut i: usize = 0;
    while i < schema.len() && i < values.len()
        invariant
            i <= paired(schema@, values@),
            typed@ == typed_map(schema@, values@, i as nat),
            raw@ == raw_map(schema@, values@, i as nat),
        decreases schema@.len() - i,
    {
        typed.insert(schema[i].name.clone(), TypedValue::from_f64(values[i], schema[i].dtype));
        raw.insert(schema[i].name.clone(), values[i]);
        i = i + 1;
    }
    (typed, raw)
}

} // verus!

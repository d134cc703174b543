//! Sensor attributes: a closed set of typed metadata/state slots. Each
//! variant maps to exactly one stable attribute identifier, independent of
//! its payload; a store holds at most one entry per identifier, and `set`
//! is upsert-by-identifier with last-write-wins semantics.
//!
//! Payloads that the surrounding system expresses in floating point (rates,
//! resolutions, ranges, placement) are carried here as their 32-bit IEEE bit
//! patterns; the store compares attributes by identifier only and never
//! inspects a payload.
use vstd::prelude::*;

verus! {

/// The kind of physical or logical quantity a sensor measures.
#[derive(Clone, Copy, PartialEq, Eq, Structural, Debug)]
pub enum SensorType {
    Unknown,
    Accelerometer,
    Gyroscope,
    Magnetic,
    Temperature,
    AmbientLight,
    Proximity,
    Resampler,
}

impl SensorType {
    /// The stable lower-case name of this sensor type.
    pub open spec fn spec_name(&self) -> Seq<char> {
        match self {
            SensorType::Unknown => "unknown"@,
            SensorType::Accelerometer => "accel"@,
            SensorType::Gyroscope => "gyro"@,
            SensorType::Magnetic => "mag"@,
            SensorType::Temperature => "sensor_temperature"@,
            SensorType::AmbientLight => "ambient_light"@,
            SensorType::Proximity => "proximity"@,
            SensorType::Resampler => "resampler"@,
        }
    }

    /// The stable lower-case name of this sensor type.
    pub fn name(&self) -> (r: &'static str)
        ensures
            r@ == self.spec_name(),
    {
        match self {
            SensorType::Unknown => "unknown",
            SensorType::Accelerometer => "accel",
            SensorType::Gyroscope => "gyro",
            SensorType::Magnetic => "mag",
            SensorType::Temperature => "sensor_temperature",
            SensorType::AmbientLight => "ambient_light",
            SensorType::Proximity => "proximity",
            SensorType::Resampler => "resampler",
        }
    }

    /// Every sensor type, in declaration order.
    pub fn all() -> (r: Vec<SensorType>)
        ensures
            r@ == seq![
                SensorType::Unknown,
                SensorType::Accelerometer,
                SensorType::Gyroscope,
                SensorType::Magnetic,
                SensorType::Temperature,
                SensorType::AmbientLight,
                SensorType::Proximity,
                SensorType::Resampler,
            ],
    {
        let mut v: Vec<SensorType> = Vec::new();
        v.push(SensorType::Unknown);
        v.push(SensorType::Accelerometer);
        v.push(SensorType::Gyroscope);
        v.push(SensorType::Magnetic);
        v.push(SensorType::Temperature);
        v.push(SensorType::AmbientLight);
        v.push(SensorType::Proximity);
        v.push(SensorType::Resampler);
        proof {
            assert(v@ =~= seq![
                SensorType::Unknown,
                SensorType::Accelerometer,
                SensorType::Gyroscope,
                SensorType::Magnetic,
                SensorType::Temperature,
                SensorType::AmbientLight,
                SensorType::Proximity,
                SensorType::Resampler,
            ]);
        }
        v
    }
}

impl Default for SensorType {
    fn default() -> (r: Self)
        ensures
            r == SensorType::Unknown,
    {
        SensorType::Unknown
    }
}

/// The stable attribute identifier: one enumerant per attribute kind, as the
/// externally defined sensor metadata schema numbers them.
#[derive(Clone, Copy, PartialEq, Eq, Structural, Debug)]
pub enum SnsStdSensorAttrId {
    SnsStdSensorAttridSuid,
    SnsStdSensorAttridName,
    SnsStdSensorAttridVendor,
    SnsStdSensorAttridType,
    SnsStdSensorAttridAvailable,
    SnsStdSensorAttridVersion,
    SnsStdSensorAttridApi,
    SnsStdSensorAttridRates,
    SnsStdSensorAttridResolutions,
    SnsStdSensorAttridFifoSize,
    SnsStdSensorAttridActiveCurrent,
    SnsStdSensorAttridSleepCurrent,
    SnsStdSensorAttridRanges,
    SnsStdSensorAttridOpModes,
    SnsStdSensorAttridDri,
    SnsStdSensorAttridStreamSync,
    SnsStdSensorAttridEventSize,
    SnsStdSensorAttridStreamType,
    SnsStdSensorAttridDynamic,
    SnsStdSensorAttridHwId,
    SnsStdSensorAttridRigidBody,
    SnsStdSensorAttridPlacement,
    SnsStdSensorAttridPhysicalSensor,
}

/// One typed attribute slot of a sensor. Two attributes address the same
/// slot exactly when their identifiers match; the payload is never compared.
#[derive(Clone, PartialEq, Debug)]
pub enum SensorAttr {
    /// The sensor's own 128-bit identifier.
    Uuid(u128),
    Name(String),
    Vendor(String),
    Type(SensorType),
    Available(bool),
    Version(u32),
    Api(Vec<String>),
    /// Supported sample rates, as 32-bit IEEE bit patterns.
    Rates(Vec<u32>),
    /// Resolutions, as 32-bit IEEE bit patterns.
    Resolutions(Vec<u32>),
    FifoSize(u32),
    ActiveCurrent(Vec<u32>),
    SleepCurrent(u32),
    /// (low, high) measurement ranges, as 32-bit IEEE bit patterns.
    Ranges(Vec<(u32, u32)>),
    OpModes(Vec<String>),
    Dri(bool),
    StreamSync(bool),
    EventSize(u32),
    /// Stream type enumerant of the externally defined schema.
    StreamType(i32),
    Dynamic(bool),
    HwId(u32),
    /// Rigid body enumerant of the externally defined schema.
    RigidBodyType(i32),
    /// Mounting placement matrix, as 32-bit IEEE bit patterns.
    Placement(Vec<u32>),
    PhysicalSensor(bool),
}

impl SensorAttr {
    /// The stable identifier of this attribute's kind, independent of the
    /// payload.
    pub open spec fn spec_id(&self) -> SnsStdSensorAttrId {
        match self {
            SensorAttr::Uuid(_) => SnsStdSensorAttrId::SnsStdSensorAttridSuid,
            SensorAttr::Name(_) => SnsStdSensorAttrId::SnsStdSensorAttridName,
            SensorAttr::Vendor(_) => SnsStdSensorAttrId::SnsStdSensorAttridVendor,
            SensorAttr::Type(_) => SnsStdSensorAttrId::SnsStdSensorAttridType,
            SensorAttr::Available(_) => SnsStdSensorAttrId::SnsStdSensorAttridAvailable,
            SensorAttr::Version(_) => SnsStdSensorAttrId::SnsStdSensorAttridVersion,
            SensorAttr::Api(_) => SnsStdSensorAttrId::SnsStdSensorAttridApi,
            SensorAttr::Rates(_) => SnsStdSensorAttrId::SnsStdSensorAttridRates,
            SensorAttr::Resolutions(_) => SnsStdSensorAttrId::SnsStdSensorAttridResolutions,
            SensorAttr::FifoSize(_) => SnsStdSensorAttrId::SnsStdSensorAttridFifoSize,
            SensorAttr::ActiveCurrent(_) => SnsStdSensorAttrId::SnsStdSensorAttridActiveCurrent,
            SensorAttr::SleepCurrent(_) => SnsStdSensorAttrId::SnsStdSensorAttridSleepCurrent,
            SensorAttr::Ranges(_) => SnsStdSensorAttrId::SnsStdSensorAttridRanges,
            SensorAttr::OpModes(_) => SnsStdSensorAttrId::SnsStdSensorAttridOpModes,
            SensorAttr::Dri(_) => SnsStdSensorAttrId::SnsStdSensorAttridDri,
            SensorAttr::StreamSync(_) => SnsStdSensorAttrId::SnsStdSensorAttridStreamSync,
            SensorAttr::EventSize(_) => SnsStdSensorAttrId::SnsStdSensorAttridEventSize,
            SensorAttr::StreamType(_) => SnsStdSensorAttrId::SnsStdSensorAttridStreamType,
            SensorAttr::Dynamic(_) => SnsStdSensorAttrId::SnsStdSensorAttridDynamic,
            SensorAttr::HwId(_) => SnsStdSensorAttrId::SnsStdSensorAttridHwId,
            SensorAttr::RigidBodyType(_) => SnsStdSensorAttrId::SnsStdSensorAttridRigidBody,
            SensorAttr::Placement(_) => SnsStdSensorAttrId::SnsStdSensorAttridPlacement,
            SensorAttr::PhysicalSensor(_) => SnsStdSensorAttrId::SnsStdSensorAttridPhysicalSensor,
        }
    }

    /// The stable identifier of this attribute's kind, independent of the
    /// payload.
    pub fn id(&self) -> (r: SnsStdSensorAttrId)
        ensures
            r == self.spec_id(),
    {
        match self {
            SensorAttr::Uuid(_) => SnsStdSensorAttrId::SnsStdSensorAttridSuid,
            SensorAttr::Name(_) => SnsStdSensorAttrId::SnsStdSensorAttridName,
            SensorAttr::Vendor(_) => SnsStdSensorAttrId::SnsStdSensorAttridVendor,
            SensorAttr::Type(_) => SnsStdSensorAttrId::SnsStdSensorAttridType,
            SensorAttr::Available(_) => SnsStdSensorAttrId::SnsStdSensorAttridAvailable,
            SensorAttr::Version(_) => SnsStdSensorAttrId::SnsStdSensorAttridVersion,
            SensorAttr::Api(_) => SnsStdSensorAttrId::SnsStdSensorAttridApi,
            SensorAttr::Rates(_) => SnsStdSensorAttrId::SnsStdSensorAttridRates,
            SensorAttr::Resolutions(_) => SnsStdSensorAttrId::SnsStdSensorAttridResolutions,
            SensorAttr::FifoSize(_) => SnsStdSensorAttrId::SnsStdSensorAttridFifoSize,
            SensorAttr::ActiveCurrent(_) => SnsStdSensorAttrId::SnsStdSensorAttridActiveCurrent,
            SensorAttr::SleepCurrent(_) => SnsStdSensorAttrId::SnsStdSensorAttridSleepCurrent,
            SensorAttr::Ranges(_) => SnsStdSensorAttrId::SnsStdSensorAttridRanges,
            SensorAttr::OpModes(_) => SnsStdSensorAttrId::SnsStdSensorAttridOpModes,
            SensorAttr::Dri(_) => SnsStdSensorAttrId::SnsStdSensorAttridDri,
            SensorAttr::StreamSync(_) => SnsStdSensorAttrId::SnsStdSensorAttridStreamSync,
            SensorAttr::EventSize(_) => SnsStdSensorAttrId::SnsStdSensorAttridEventSize,
            SensorAttr::StreamType(_) => SnsStdSensorAttrId::SnsStdSensorAttridStreamType,
            SensorAttr::Dynamic(_) => SnsStdSensorAttrId::SnsStdSensorAttridDynamic,
            SensorAttr::HwId(_) => SnsStdSensorAttrId::SnsStdSensorAttridHwId,
            SensorAttr::RigidBodyType(_) => SnsStdSensorAttrId::SnsStdSensorAttridRigidBody,
            SensorAttr::Placement(_) => SnsStdSensorAttrId::SnsStdSensorAttridPlacement,
            SensorAttr::PhysicalSensor(_) => SnsStdSensorAttrId::SnsStdSensorAttridPhysicalSensor,
        }
    }
}

/// The first (and, in a well-formed store, only) attribute whose identifier
/// is `id`.
pub open spec fn attr_lookup(s: Seq<SensorAttr>, id: SnsStdSensorAttrId) -> Option<SensorAttr>
    decreases s.len(),
{
    if s.len() == 0 {
        None
    } else if s[0].spec_id() == id {
        Some(s[0])
    } else {
        attr_lookup(s.skip(1), id)
    }
}

/// The store after `set`: the first attribute with a matching identifier is
/// replaced in place, or `a` is appended if no identifier matches.
pub open spec fn attr_upsert(s: Seq<SensorAttr>, a: SensorAttr) -> Seq<SensorAttr>
    decreases s.len(),
{
    if s.len() == 0 {
        seq![a]
    } else if s[0].spec_id() == a.spec_id() {
        seq![a] + s.skip(1)
    } else {
        seq![s[0]] + attr_upsert(s.skip(1), a)
    }
}

/// A well-formed attribute store: at most one entry per attribute identifier.
pub open spec fn attrs_wf(s: Seq<SensorAttr>) -> bool {
    forall|i: int, j: int|
        0 <= i < j < s.len() ==> (#[trigger] s[i].spec_id()) != (#[trigger] s[j].spec_id())
}

/// `attr_lookup` returns the entry at the first index whose identifier
/// matches.
pub proof fn lemma_attr_lookup_found(s: Seq<SensorAttr>, id: SnsStdSensorAttrId, i: int)
    requires
        0 <= i < s.len(),
        s[i].spec_id() == id,
        forall|j: int| 0 <= j < i ==> (#[trigger] s[j].spec_id()) != id,
    ensures
        attr_lookup(s, id) == Some(s[i]),
    decreases i,
{
    if i > 0 {
        lemma_attr_lookup_found(s.skip(1), id, i - 1);
    }
}

/// `attr_lookup` finds nothing when no identifier matches.
pub proof fn lemma_attr_lookup_missing(s: Seq<SensorAttr>, id: SnsStdSensorAttrId)
    requires
        forall|j: int| 0 <= j < s.len() ==> (#[trigger] s[j].spec_id()) != id,
    ensures
        attr_lookup(s, id) is None,
    decreases s.len(),
{
    if s.len() > 0 {
        lemma_attr_lookup_missing(s.skip(1), id);
    }
}

/// When the first matching identifier sits at index `i`, `attr_upsert`
/// replaces exactly that entry.
pub proof fn lemma_attr_upsert_found(s: Seq<SensorAttr>, a: SensorAttr, i: int)
    requires
        0 <= i < s.len(),
        s[i].spec_id() == a.spec_id(),
        forall|j: int| 0 <= j < i ==> (#[trigger] s[j].spec_id()) != a.spec_id(),
    ensures
        attr_upsert(s, a) == s.update(i, a),
    decreases i,
{
    if i == 0 {
        assert(attr_upsert(s, a) =~= s.update(0, a));
    } else {
        lemma_attr_upsert_found(s.skip(1), a, i - 1);
        assert(attr_upsert(s, a) =~= s.update(i, a));
    }
}

/// When no identifier matches, `attr_upsert` appends the new attribute.
pub proof fn lemma_attr_upsert_missing(s: Seq<SensorAttr>, a: SensorAttr)
    requires
        forall|j: int| 0 <= j < s.len() ==> (#[trigger] s[j].spec_id()) != a.spec_id(),
    ensures
        attr_upsert(s, a) == s.push(a),
    decreases s.len(),
{
    if s.len() == 0 {
        assert(attr_upsert(s, a) =~= s.push(a));
    } else {
        lemma_attr_upsert_missing(s.skip(1), a);
        assert(attr_upsert(s, a) =~= s.push(a));
    }
}

/// `attr_upsert` keeps a store well-formed: no duplicate identifiers ever
/// coexist.
pub proof fn lemma_attr_upsert_wf(s: Seq<SensorAttr>, a: SensorAttr)
    requires
        attrs_wf(s),
    ensures
        attrs_wf(attr_upsert(s, a)),
{
    if exists|j: int| 0 <= j < s.len() && (#[trigger] s[j].spec_id()) == a.spec_id() {
        let i = choose|i: int| 0 <= i < s.len() && (#[trigger] s[i].spec_id()) == a.spec_id();
        assert(forall|j: int|
            0 <= j < s.len() && j != i ==> (#[trigger] s[j].spec_id()) != a.spec_id());
        lemma_attr_upsert_found(s, a, i);
    } else {
        lemma_attr_upsert_missing(s, a);
    }
}

/// Upsert idempotence per slot: setting two attributes of the same kind in a
/// row leaves the store exactly as setting only the second one would; the
/// last write wins and the store does not grow twice.
pub proof fn lemma_attr_upsert_last_write_wins(s: Seq<SensorAttr>, a1: SensorAttr, a2: SensorAttr)
    requires
        a1.spec_id() == a2.spec_id(),
    ensures
        attr_upsert(attr_upsert(s, a1), a2) == attr_upsert(s, a2),
    decreases s.len(),
{
    if s.len() == 0 {
        assert(attr_upsert(attr_upsert(s, a1), a2) =~= attr_upsert(s, a2));
    } else if s[0].spec_id() == a1.spec_id() {
        assert((seq![a1] + s.skip(1))[0] == a1);
        assert((seq![a1] + s.skip(1)).skip(1) =~= s.skip(1));
        assert(attr_upsert(attr_upsert(s, a1), a2) =~= attr_upsert(s, a2));
    } else {
        let t = seq![s[0]] + attr_upsert(s.skip(1), a1);
        assert(t[0] == s[0]);
        assert(t.skip(1) =~= attr_upsert(s.skip(1), a1));
        lemma_attr_upsert_last_write_wins(s.skip(1), a1, a2);
        assert(attr_upsert(attr_upsert(s, a1), a2) =~= attr_upsert(s, a2));
    }
}

/// A write is visible to the next read of the same slot, and leaves every
/// other slot untouched.
pub proof fn lemma_attr_lookup_after_upsert(
    s: Seq<SensorAttr>,
    a: SensorAttr,
    id: SnsStdSensorAttrId,
)
    ensures
        attr_lookup(attr_upsert(s, a), a.spec_id()) == Some(a),
        id != a.spec_id() ==> attr_lookup(attr_upsert(s, a), id) == attr_lookup(s, id),
    decreases s.len(),
{
    if s.len() == 0 {
        let t = attr_upsert(s, a);
        assert(t =~= seq![a]);
        assert(t[0] == a);
        assert(t.skip(1) =~= Seq::<SensorAttr>::empty());
        assert(attr_lookup(t.skip(1), id) is None);
    } else if s[0].spec_id() == a.spec_id() {
        let t = seq![a] + s.skip(1);
        assert(t[0] == a);
        assert(t.skip(1) =~= s.skip(1));
        assert(id != a.spec_id() ==> attr_lookup(t, id) == attr_lookup(s.skip(1), id));
        assert(id != a.spec_id() ==> attr_lookup(s, id) == attr_lookup(s.skip(1), id));
    } else {
        let t = seq![s[0]] + attr_upsert(s.skip(1), a);
        assert(t[0] == s[0]);
        assert(t.skip(1) =~= attr_upsert(s.skip(1), a));
        lemma_attr_lookup_after_upsert(s.skip(1), a, id);
        if s[0].spec_id() == id {
            assert(attr_lookup(t, id) == Some(s[0]));
            assert(attr_lookup(s, id) == Some(s[0]));
        } else {
            assert(attr_lookup(t, id) == attr_lookup(t.skip(1), id));
            assert(attr_lookup(s, id) == attr_lookup(s.skip(1), id));
        }
    }
}

} // verus!

//! # Sensor data
//!
//! The data types of sensor readings (the JSON schema of `/api/sensors`,
//! `/api/devices` and the WebSocket feed) and the functions that build them
//! from what `libsensors` reports.
//!
//! What `libsensors` reports is taken in as a [`SensorSnapshot`]: for each
//! chip its name (if it could be read), bus, sysfs path (if valid UTF-8) and
//! features; for each sub-feature its value, if it could be read. Readings are
//! fixed-point numbers in millionths of their unit (micro-degrees, micro-volts,
//! ...). A value with more than six decimals is rounded to the nearest
//! millionth, and the range is that of `i64` millionths (about ±9.2·10¹² units).

use vstd::prelude::*;

use crate::text::{chars_of, contains_chars, occurs_in, opt_text};

verus! {

/// A hardware sensor device (e.g. "coretemp-isa-0000"): metadata, no readings.
#[derive(Debug, Clone)]
pub struct Device {
    /// Device name (e.g. "coretemp", "nvme", "acpitz").
    pub name: String,
    /// Bus type (e.g. "ISA", "SMBus", "PCI").
    pub bus: String,
    /// Optional sysfs path (e.g. "/sys/class/hwmon/hwmon0").
    pub path: Option<String>,
}

/// A single measurable sensor value.
#[derive(Debug, Clone)]
pub struct SubFeatureInfo {
    /// Sub-feature name (e.g. "temp1_input").
    pub name: String,
    /// Value in millionths of the unit. `None` if unreadable.
    pub value: Option<i64>,
    /// Unit string (e.g. "°C", "V", "RPM").
    pub unit: Option<String>,
}

/// A logical feature group on a device (e.g. "temp1").
#[derive(Debug, Clone)]
pub struct FeatureInfo {
    /// Feature name (e.g. "temp1", "fan1", "in1").
    pub name: String,
    /// Sub-features under this feature (the actual sensor readings).
    pub sub_features: Vec<SubFeatureInfo>,
}

/// A device paired with all its feature readings.
#[derive(Debug, Clone)]
pub struct DeviceReadings {
    /// Device metadata (name, bus, path).
    pub device: Device,
    /// All features and sub-features with current values.
    pub features: Vec<FeatureInfo>,
}

/// All devices with their readings.
#[derive(Debug, Clone)]
pub struct SensorReadings {
    pub devices: Vec<DeviceReadings>,
}

/// Measurement units that `libsensors` reports.
#[derive(Debug, Clone, Copy, PartialEq, Eq, Structural)]
pub enum Unit {
    Celsius,
    Volt,
    Amp,
    Watt,
    Joule,
    RotationPerMinute,
    Percentage,
    Second,
    NoUnit,
    /// A unit this library has no abbreviation for.
    Other,
}

/// A value as read from a sub-feature.
#[derive(Debug, Clone)]
pub struct ValueSample {
    /// The sub-feature's own name (e.g. "temp1_input"); empty when it has none.
    pub name: String,
    /// The value in millionths of its unit.
    pub micro_value: i64,
    /// The value's unit.
    pub unit: Unit,
}

/// A sub-feature: its value, or `None` when it could not be read (write-only, ...).
#[derive(Debug, Clone)]
pub struct SubFeatureSample {
    pub reading: Option<ValueSample>,
}

/// A feature: its name (`None` when anonymous or unreadable) and sub-features.
#[derive(Debug, Clone)]
pub struct FeatureSample {
    pub name: Option<String>,
    pub sub_features: Vec<SubFeatureSample>,
}

/// A chip as `libsensors` reports it.
#[derive(Debug, Clone)]
pub struct ChipSample {
    /// The chip's name, `None` when it could not be read.
    pub name: Option<String>,
    /// The bus, as text.
    pub bus: String,
    /// The sysfs path, `None` when absent or not valid UTF-8.
    pub path: Option<String>,
    pub features: Vec<FeatureSample>,
}

/// Every chip `libsensors` reports, in its order.
#[derive(Debug, Clone)]
pub struct SensorSnapshot {
    pub chips: Vec<ChipSample>,
}

// ── Abstract views ─────────────────────────────────────────────────

pub struct DeviceView {
    pub name: Seq<char>,
    pub bus: Seq<char>,
    pub path: Option<Seq<char>>,
}

pub struct SubFeatureView {
    pub name: Seq<char>,
    pub value: Option<i64>,
    pub unit: Option<Seq<char>>,
}

pub struct FeatureView {
    pub name: Seq<char>,
    pub sub_features: Seq<SubFeatureView>,
}

pub struct DeviceReadingsView {
    pub device: DeviceView,
    pub features: Seq<FeatureView>,
}

impl View for Device {
    type V = DeviceView;

    open spec fn view(&self) -> DeviceView {
        DeviceView { name: self.name@, bus: self.bus@, path: opt_text(self.path) }
    }
}

impl View for SubFeatureInfo {
    type V = SubFeatureView;

    open spec fn view(&self) -> SubFeatureView {
        SubFeatureView { name: self.name@, value: self.value, unit: opt_text(self.unit) }
    }
}

impl View for FeatureInfo {
    type V = FeatureView;

    open spec fn view(&self) -> FeatureView {
        FeatureView {
            name: self.name@,
            sub_features: self.sub_features@.map_values(|s: SubFeatureInfo| s@),
        }
    }
}

impl View for DeviceReadings {
    type V = DeviceReadingsView;

    open spec fn view(&self) -> DeviceReadingsView {
        DeviceReadingsView {
            device: self.device@,
            features: self.features@.map_values(|f: FeatureInfo| f@),
        }
    }
}

impl View for SensorReadings {
    type V = Seq<DeviceReadingsView>;

    open spec fn view(&self) -> Seq<DeviceReadingsView> {
        self.devices@.map_values(|d: DeviceReadings| d@)
    }
}

// ── What the snapshot means ─────────────────────────────────────────

/// Display abbreviation of a unit.
pub open spec fn unit_text(u: Unit) -> Seq<char> {
    match u {
        Unit::Celsius => seq!['\u{b0}', 'C'],
        Unit::Volt => "V"@,
        Unit::Amp => "A"@,
        Unit::Watt => "W"@,
        Unit::Joule => "J"@,
        Unit::RotationPerMinute => "RPM"@,
        Unit::Percentage => "%"@,
        Unit::Second => "s"@,
        Unit::NoUnit => Seq::empty(),
        Unit::Other => Seq::empty(),
    }
}

/// Device metadata of a chip: an unreadable name becomes the empty string.
pub open spec fn device_of(c: ChipSample) -> DeviceView {
    DeviceView {
        name: match c.name {
            Some(n) => n@,
            None => Seq::empty(),
        },
        bus: c.bus@,
        path: opt_text(c.path),
    }
}

/// The reading a readable sub-feature gives.
pub open spec fn reading_of(v: ValueSample) -> SubFeatureView {
    SubFeatureView { name: v.name@, value: Some(v.micro_value), unit: Some(unit_text(v.unit)) }
}

/// The readings of the readable sub-features, in order; unreadable ones are skipped.
pub open spec fn readings_of(subs: Seq<SubFeatureSample>) -> Seq<SubFeatureView>
    decreases subs.len(),
{
    if subs.len() == 0 {
        Seq::empty()
    } else {
        let before = readings_of(subs.drop_last());
        match subs.last().reading {
            Some(v) => before.push(reading_of(v)),
            None => before,
        }
    }
}

/// A feature with its readings: an unnamed feature gets the empty name.
pub open spec fn feature_of(f: FeatureSample) -> FeatureView {
    FeatureView {
        name: match f.name {
            Some(n) => n@,
            None => Seq::empty(),
        },
        sub_features: readings_of(f.sub_features@),
    }
}

/// A chip with all its readings.
pub open spec fn device_readings_of(c: ChipSample) -> DeviceReadingsView {
    DeviceReadingsView {
        device: device_of(c),
        features: c.features@.map_values(|f: FeatureSample| feature_of(f)),
    }
}

/// A chip matches a lookup when its name could be read and contains the query (case-sensitive).
pub open spec fn chip_matches(c: ChipSample, query: Seq<char>) -> bool {
    match c.name {
        Some(n) => occurs_in(n@, query),
        None => false,
    }
}

/// The position of the first chip that matches, if any.
pub open spec fn first_match(chips: Seq<ChipSample>, query: Seq<char>) -> Option<int> {
    if exists|i: int| 0 <= i < chips.len() && chip_matches(#[trigger] chips[i], query) {
        Some(
            choose|i: int|
                0 <= i < chips.len() && chip_matches(#[trigger] chips[i], query) && forall|j: int|
                    0 <= j < i ==> !chip_matches(#[trigger] chips[j], query),
        )
    } else {
        None
    }
}

// ── Building the data ───────────────────────────────────────────────

fn text_or_empty(o: &Option<String>) -> (s: String)
    ensures
        s@ == match o {
            Some(n) => n@,
            None => Seq::empty(),
        },
{
    match o {
        Some(n) => n.clone(),
        None => String::new(),
    }
}

fn clone_opt(o: &Option<String>) -> (r: Option<String>)
    ensures
        opt_text(r) == opt_text(*o),
{
    match o {
        Some(s) => Some(s.clone()),
        None => None,
    }
}

fn degrees_celsius() -> (s: String)
    ensures
        s@ == seq!['\u{b0}', 'C'],
{
    let mut s = String::new();
    s.push('\u{b0}');
    s.push('C');
    assert(s@ =~= seq!['\u{b0}', 'C']);
    s
}

/// Display abbreviation of a unit: "°C", "V", "A", "W", "J", "RPM", "%", "s", or "".
pub fn unit_str(u: Unit) -> (s: String)
    ensures
        s@ == unit_text(u),
{
    match u {
        Unit::Celsius => degrees_celsius(),
        Unit::Volt => String::from_str("V"),
        Unit::Amp => String::from_str("A"),
        Unit::Watt => String::from_str("W"),
        Unit::Joule => String::from_str("J"),
        Unit::RotationPerMinute => String::from_str("RPM"),
        Unit::Percentage => String::from_str("%"),
        Unit::Second => String::from_str("s"),
        Unit::NoUnit => String::new(),
        Unit::Other => String::new(),
    }
}

/// Device metadata of a chip.
pub fn device_info(c: &ChipSample) -> (d: Device)
    ensures
        d@ == device_of(*c),
{
    Device { name: text_or_empty(&c.name), bus: c.bus.clone(), path: clone_opt(&c.path) }
}

/// The readings of a feature's readable sub-features.
fn sub_feature_readings(subs: &Vec<SubFeatureSample>) -> (r: Vec<SubFeatureInfo>)
    ensures
        r@.map_values(|s: SubFeatureInfo| s@) == readings_of(subs@),
{
    let mut r: Vec<SubFeatureInfo> = Vec::new();
    let mut i: usize = 0;
    while i < subs.len()
        invariant
            i <= subs@.len(),
            r@.map_values(|s: SubFeatureInfo| s@) == readings_of(subs@.take(i as int)),
        decreases subs@.len() - i,
    {
        let ghost before = r@;
        assert(subs@.take(i + 1).drop_last() == subs@.take(i as int));
        match &subs[i].reading {
            Some(v) => {
                let info = SubFeatureInfo {
                    name: v.name.clone(),
                    value: Some(v.micro_value),
                    unit: Some(unit_str(v.unit)),
                };
                assert(info@ == reading_of(*v));
                r.push(info);
                assert(r@.map_values(|s: SubFeatureInfo| s@) =~= before.map_values(
                    |s: SubFeatureInfo| s@,
                ).push(info@));
            },
            None => {},
        }
        i = i + 1;
    }
    assert(subs@.take(subs@.len() as int) == subs@);
    r
}

/// All features of a chip, with the readings of their readable sub-features.
pub fn device_features(c: &ChipSample) -> (r: Vec<FeatureInfo>)
    ensures
        r@.map_values(|f: FeatureInfo| f@) == c.features@.map_values(
            |f: FeatureSample| feature_of(f),
        ),
{
    let mut r: Vec<FeatureInfo> = Vec::new();
    let mut i: usize = 0;
    while i < c.features.len()
        invariant
            i <= c.features@.len(),
            r@.map_values(|f: FeatureInfo| f@) == c.features@.take(i as int).map_values(
                |f: FeatureSample| feature_of(f),
            ),
        decreases c.features@.len() - i,
    {
        let f = &c.features[i];
        let info = FeatureInfo {
            name: text_or_empty(&f.name),
            sub_features: sub_feature_readings(&f.sub_features),
        };
        assert(info@ == feature_of(*f));
        let ghost before = r@;
        r.push(info);
        assert(c.features@.take(i + 1) == c.features@.take(i as int).push(*f));
        assert(r@.map_values(|f: FeatureInfo| f@) =~= before.map_values(|f: FeatureInfo| f@).push(
            feature_of(*f),
        ));
        i = i + 1;
    }
    assert(c.features@.take(c.features@.len() as int) == c.features@);
    r
}

/// A chip with all its readings.
pub fn chip_readings(c: &ChipSample) -> (r: DeviceReadings)
    ensures
        r@ == device_readings_of(*c),
{
    DeviceReadings { device: device_info(c), features: device_features(c) }
}

fn matches(c: &ChipSample, query: &Vec<char>) -> (b: bool)
    ensures
        b == chip_matches(*c, query@),
{
    match &c.name {
        Some(n) => {
            let nc = chars_of(n.as_str());
            contains_chars(&nc, query)
        },
        None => false,
    }
}

fn find_chip(chips: &Vec<ChipSample>, name: &str) -> (r: Option<usize>)
    ensures
        match r {
            Some(i) => first_match(chips@, name@) == Some(i as int) && i < chips@.len(),
            None => first_match(chips@, name@) is None,
        },
{
    let query = chars_of(name);
    let mut i: usize = 0;
    while i < chips.len()
        invariant
            i <= chips@.len(),
            query@ == name@,
            forall|j: int| 0 <= j < i ==> !chip_matches(#[trigger] chips@[j], name@),
        decreases chips@.len() - i,
    {
        if matches(&chips[i], &query) {
            proof {
                let w = choose|k: int|
                    0 <= k < chips@.len() && chip_matches(#[trigger] chips@[k], name@) && forall|
                        j: int,
                    |
                        0 <= j < k ==> !chip_matches(#[trigger] chips@[j], name@);
                assert(0 <= i < chips@.len() && chip_matches(chips@[i as int], name@) && forall|
                    j: int,
                |
                    0 <= j < i ==> !chip_matches(#[trigger] chips@[j], name@));
                if w < i {
                    assert(!chip_matches(chips@[w], name@));
                } else if w > i {
                    assert(!chip_matches(chips@[i as int], name@));
                }
            }
            return Some(i);
        }
        i = i + 1;
    }
    None
}

impl SensorSnapshot {
    /// All devices, metadata only, in the order `libsensors` lists them.
    pub fn list_devices(&self) -> (r: Vec<Device>)
        ensures
            r@.map_values(|d: Device| d@) == self.chips@.map_values(|c: ChipSample| device_of(c)),
    {
        let mut r: Vec<Device> = Vec::new();
        let mut i: usize = 0;
        while i < self.chips.len()
            invariant
                i <= self.chips@.len(),
                r@.map_values(|d: Device| d@) == self.chips@.take(i as int).map_values(
                    |c: ChipSample| device_of(c),
                ),
            decreases self.chips@.len() - i,
        {
            let ghost before = r@;
            let d = device_info(&self.chips[i]);
            r.push(d);
            assert(self.chips@.take(i + 1) == self.chips@.take(i as int).push(self.chips@[i as int]));
            assert(r@.map_values(|d: Device| d@) =~= before.map_values(|d: Device| d@).push(
                device_of(self.chips@[i as int]),
            ));
            i = i + 1;
        }
        assert(self.chips@.take(self.chips@.len() as int) == self.chips@);
        r
    }

    /// The first device whose name contains `name` (case-sensitive), metadata only.
    pub fn get_device(&self, name: &str) -> (r: Option<Device>)
        ensures
            match first_match(self.chips@, name@) {
                Some(i) => r is Some && r->0@ == device_of(self.chips@[i]),
                None => r is None,
            },
    {
        match find_chip(&self.chips, name) {
            Some(i) => Some(device_info(&self.chips[i])),
            None => None,
        }
    }

    /// The first device whose name contains `name`, with all its readings.
    pub fn get_device_features(&self, name: &str) -> (r: Option<DeviceReadings>)
        ensures
            match first_match(self.chips@, name@) {
                Some(i) => r is Some && r->0@ == device_readings_of(self.chips@[i]),
                None => r is None,
            },
    {
        match find_chip(&self.chips, name) {
            Some(i) => Some(chip_readings(&self.chips[i])),
            None => None,
        }
    }

    /// Every device with all its readings, in order.
    pub fn read_all(&self) -> (r: SensorReadings)
        ensures
            r@ == self.chips@.map_values(|c: ChipSample| device_readings_of(c)),
    {
        let mut devices: Vec<DeviceReadings> = Vec::new();
        let mut i: usize = 0;
        while i < self.chips.len()
            invariant
                i <= self.chips@.len(),
                devices@.map_values(|d: DeviceReadings| d@) == self.chips@.take(i as int).map_values(
                    |c: ChipSample| device_readings_of(c),
                ),
            decreases self.chips@.len() - i,
        {
            let ghost before = devices@;
            let d = chip_readings(&self.chips[i]);
            devices.push(d);
            assert(self.chips@.take(i + 1) == self.chips@.take(i as int).push(self.chips@[i as int]));
            assert(devices@.map_values(|d: DeviceReadings| d@) =~= before.map_values(
                |d: DeviceReadings| d@,
            ).push(device_readings_of(self.chips@[i as int])));
            i = i + 1;
        }
        assert(self.chips@.take(self.chips@.len() as int) == self.chips@);
        SensorReadings { devices }
    }
}

// ── Laws ────────────────────────────────────────────────────────────

/// A full snapshot and the device list describe the same devices, in the same order.
pub proof fn lemma_read_all_matches_list(snapshot: SensorSnapshot, readings: SensorReadings, devices: Seq<DeviceView>)
    requires
        readings@ == snapshot.chips@.map_values(|c: ChipSample| device_readings_of(c)),
        devices == snapshot.chips@.map_values(|c: ChipSample| device_of(c)),
    ensures
        readings@.len() == devices.len(),
        forall|i: int| 0 <= i < devices.len() ==> #[trigger] readings@[i].device == devices[i],
{
}

/// Looking a device up with and without its readings finds the same device.
pub proof fn lemma_lookups_agree(snapshot: SensorSnapshot, query: Seq<char>)
    ensures
        match first_match(snapshot.chips@, query) {
            Some(i) => device_readings_of(snapshot.chips@[i]).device == device_of(snapshot.chips@[i]),
            None => true,
        },
{
}

/// A lookup finds a device exactly when some device's name contains the query,
/// and the one it finds is the first such.
pub proof fn lemma_first_match(chips: Seq<ChipSample>, query: Seq<char>)
    ensures
        first_match(chips, query) is Some <==> exists|i: int| 0 <= i < chips.len() && chip_matches(#[trigger] chips[i], query),
        match first_match(chips, query) {
            Some(i) => 0 <= i < chips.len() && chip_matches(chips[i], query) && forall|j: int| 0 <= j < i ==> !chip_matches(#[trigger] chips[j], query),
            None => true,
        },
{
    if exists|i: int| 0 <= i < chips.len() && chip_matches(#[trigger] chips[i], query) {
        let w = choose|i: int| 0 <= i < chips.len() && chip_matches(#[trigger] chips[i], query);
        lemma_least_match(chips, query, w);
    }
}

proof fn lemma_least_match(chips: Seq<ChipSample>, query: Seq<char>, w: int)
    requires
        0 <= w < chips.len(),
        chip_matches(chips[w], query),
    ensures
        exists|i: int|
            0 <= i < chips.len() && chip_matches(#[trigger] chips[i], query) && forall|j: int|
                0 <= j < i ==> !chip_matches(#[trigger] chips[j], query),
    decreases w,
{
    if exists|j: int| 0 <= j < w && chip_matches(#[trigger] chips[j], query) {
        let v = choose|j: int| 0 <= j < w && chip_matches(#[trigger] chips[j], query);
        lemma_least_match(chips, query, v);
    } else {
        assert(forall|j: int| 0 <= j < w ==> !chip_matches(#[trigger] chips[j], query));
    }
}

/// Every sub-feature that could be read appears in a feature's readings, in
/// order, with its name, its value exactly as read (zero included) and its
/// unit; only the unreadable ones are left out.
pub proof fn lemma_every_readable_sub_feature_kept(subs: Seq<SubFeatureSample>)
    ensures
        readings_of(subs) == subs.filter(|s: SubFeatureSample| s.reading is Some).map_values(
            |s: SubFeatureSample|
                SubFeatureView {
                    name: s.reading->0.name@,
                    value: Some(s.reading->0.micro_value),
                    unit: Some(unit_text(s.reading->0.unit)),
                },
        ),
        forall|i: int|
            0 <= i < subs.len() && (#[trigger] subs[i]).reading is Some ==> readings_of(subs).contains(
                SubFeatureView {
                    name: subs[i].reading->0.name@,
                    value: Some(subs[i].reading->0.micro_value),
                    unit: Some(unit_text(subs[i].reading->0.unit)),
                },
            ),
    decreases subs.len(),
{
    let p = |s: SubFeatureSample| s.reading is Some;
    let f = |s: SubFeatureSample|
        SubFeatureView {
            name: s.reading->0.name@,
            value: Some(s.reading->0.micro_value),
            unit: Some(unit_text(s.reading->0.unit)),
        };
    reveal(Seq::filter);
    if subs.len() > 0 {
        lemma_every_readable_sub_feature_kept(subs.drop_last());
        let before = subs.drop_last().filter(p);
        if p(subs.last()) {
            assert(subs.filter(p) == before.push(subs.last()));
            assert(before.push(subs.last()).map_values(f) =~= before.map_values(f).push(f(subs.last())));
        } else {
            assert(subs.filter(p) == before);
        }
    }
    assert(readings_of(subs) == subs.filter(p).map_values(f));
    assert forall|i: int| 0 <= i < subs.len() && (#[trigger] subs[i]).reading is Some implies readings_of(
        subs,
    ).contains(f(subs[i])) by {
        subs.lemma_filter_contains(p, i);
        let j = choose|j: int| 0 <= j < subs.filter(p).len() && subs.filter(p)[j] == subs[i];
        assert(readings_of(subs)[j] == f(subs[i]));
    }
}

} // verus!

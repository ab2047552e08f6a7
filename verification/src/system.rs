//! The processor, its sensors, memory and mains power.

use crate::number::{self, number_text, read_i64, read_u64};
use crate::order;
use crate::process;
use crate::sysutil::{self, ac_connected, SupplyFiles, ZoneFiles};
use crate::text::{
    self, begins, chars_of, holds, lines_of, position, replaced, same_str, string_of, tail,
    trimmed, words_of,
};
use crate::unicode::{self, lowercased};
use vstd::prelude::*;
use vstd::string::*;

verus! {

// ── Types ───────────────────────────────────────────────────────────────────

/// A sensor and what it measures.
#[derive(Debug, Clone)]
pub struct ThermalZone {
    pub name: String,
    /// The temperature in thousandths of a degree Celsius.
    pub temp: i64,
}

/// What is known of the system.
#[derive(Debug, Clone)]
pub struct SystemInfo {
    pub cpu_model: Option<String>,
    /// The temperature of the processor in thousandths of a degree Celsius.
    pub cpu_temp: Option<i64>,
    /// The temperature of the graphics in thousandths of a degree Celsius.
    pub gpu_temp: Option<i64>,
    pub mem_total_mb: Option<u64>,
    pub mem_used_mb: Option<u64>,
    pub mem_available_mb: Option<u64>,
    pub thermal_zones: Vec<ThermalZone>,
    pub ac_connected: bool,
}

/// What the files of one temperature input of a sensor say; none where one
/// cannot be read.
pub struct SensorFiles {
    /// The number of the input.
    pub index: u8,
    pub temp: Option<String>,
    pub label: Option<String>,
}

/// What the files of a sensor say.
pub struct HwmonFiles {
    pub name: Option<String>,
    /// Its temperature inputs, those of 1 to 8 that exist.
    pub sensors: Vec<SensorFiles>,
}

/// What the files that describe the system say; none where one cannot be read.
pub struct SystemFiles {
    pub cpuinfo: Option<String>,
    pub zones: Vec<ZoneFiles>,
    pub hwmon: Vec<HwmonFiles>,
    pub supplies: Vec<SupplyFiles>,
    pub meminfo: Option<String>,
}

/// What a `ThermalZone` holds.
pub struct ZoneView {
    pub name: Seq<char>,
    pub temp: i64,
}

impl View for ThermalZone {
    type V = ZoneView;

    open spec fn view(&self) -> ZoneView {
        ZoneView { name: self.name@, temp: self.temp }
    }
}

/// What a list of zones holds.
pub open spec fn zone_views(s: Seq<ThermalZone>) -> Seq<ZoneView> {
    s.map_values(|z: ThermalZone| z@)
}

// ── The model of the processor ──────────────────────────────────────────────

/// A processor's name without marks and doubled spaces.
pub open spec fn short_model(model: Seq<char>) -> Seq<char> {
    text::trim(
        text::replace(
            text::replace(text::replace(text::trim(model), "(R)"@, ""@), "(TM)"@, ""@),
            "  "@,
            " "@,
        ),
    )
}

/// The model that the first line about it names, after its colon.
pub open spec fn model_in(lines: Seq<Seq<char>>) -> Option<Seq<char>>
    decreases lines.len(),
{
    if lines.len() == 0 {
        None
    } else if text::starts_with(lines[0], "model name"@) {
        match text::find(lines[0], ":"@) {
            Some(i) => Some(short_model(lines[0].skip(i + 1))),
            None => None,
        }
    } else {
        model_in(lines.skip(1))
    }
}

/// The model of the processor that the kernel's description names.
pub open spec fn model_of(cpuinfo: Option<String>) -> Option<Seq<char>> {
    match cpuinfo {
        Some(s) => model_in(text::lines(s@)),
        None => None,
    }
}

/// The model of the processor that the kernel's description names.
pub fn read_cpu_model(cpuinfo: &Option<String>) -> (r: Option<String>)
    ensures
        text::opt_view(r) == model_of(*cpuinfo),
{
    let chars = match cpuinfo {
        Some(s) => chars_of(s.as_str()),
        None => return None,
    };
    proof {
        reveal_strlit(":");
        reveal_strlit("(R)");
        reveal_strlit("(TM)");
        reveal_strlit("  ");
    }
    let lines = lines_of(chars.as_slice());
    let ghost all = text::views(lines@);
    let mut i: usize = 0;
    assert(all.skip(0) =~= all);
    while i < lines.len()
        invariant
            i <= lines@.len(),
            all == text::views(lines@),
            model_of(*cpuinfo) == model_in(all.skip(i as int)),
            ":"@.len() == 1,
            "(R)"@.len() > 0,
            "(TM)"@.len() > 0,
            "  "@.len() > 0,
        decreases lines@.len() - i,
    {
        assert(all.skip(i as int)[0] == lines@[i as int]@);
        assert(all.skip(i as int).skip(1) =~= all.skip(i + 1));
        let line = lines[i];
        if begins(line, "model name") {
            let len: usize = line.len();
            return match position(line, ":") {
                Some(at) => {
                    let v = replaced(trimmed(tail(line, at + 1)), "(R)", "");
                    let v = replaced(v.as_slice(), "(TM)", "");
                    let v = replaced(v.as_slice(), "  ", " ");
                    Some(string_of(trimmed(v.as_slice())))
                },
                None => None,
            };
        }
        i += 1;
    }
    None
}

// ── Temperatures ────────────────────────────────────────────────────────────

/// The number that a file writes, where it can be read and writes one.
pub open spec fn int_in(file: Option<String>) -> Option<int> {
    match file {
        Some(s) => number::parse_int(text::trim(s@)),
        None => None,
    }
}

/// The number that a file writes.
pub fn read_int(file: &Option<String>) -> (r: Option<i64>)
    ensures
        match r {
            Some(n) => int_in(*file) == Some(n as int),
            None => int_in(*file) is None,
        },
{
    match file {
        Some(s) => {
            let v = chars_of(s.as_str());
            read_i64(trimmed(v.as_slice()))
        },
        None => None,
    }
}

/// What a file says without white space at either end; `other` where it cannot
/// be read.
pub open spec fn text_or(file: Option<String>, other: Seq<char>) -> Seq<char> {
    match file {
        Some(s) => text::trim(s@),
        None => other,
    }
}

/// What a file says without white space at either end, or `other`.
pub fn read_text_or(file: &Option<String>, other: &str) -> (r: String)
    ensures
        r@ == text_or(*file, other@),
{
    match file {
        Some(s) => text::trimmed_string(s.as_str()),
        None => other.to_owned(),
    }
}

/// The name of a thermal zone's directory, empty where it is not known.
pub open spec fn zone_dir(z: ZoneFiles) -> Seq<char> {
    match z.name {
        Some(n) => n@,
        None => seq![],
    }
}

/// The zones that the thermal directory gives: each with a temperature, named
/// by its kind, or by its directory where the kind is unknown.
pub open spec fn zones_of(files: Seq<ZoneFiles>) -> Seq<ZoneView>
    decreases files.len(),
{
    if files.len() == 0 {
        seq![]
    } else {
        let front = zones_of(files.drop_last());
        let z = files.last();
        if text::starts_with(zone_dir(z), "thermal_zone"@) {
            match int_in(z.temp) {
                Some(t) => front.push(
                    ZoneView { name: text_or(z.kind, zone_dir(z)), temp: t as i64 },
                ),
                None => front,
            }
        } else {
            front
        }
    }
}

/// The name of a temperature input: its label, or the sensor's name and the
/// number of the input.
pub open spec fn sensor_name(hwmon: Seq<char>, s: SensorFiles) -> Seq<char> {
    text_or(s.label, hwmon + "/"@ + number::dec(s.index as nat))
}

/// Some zone has the given name.
pub open spec fn has_zone(zones: Seq<ZoneView>, name: Seq<char>) -> bool {
    exists|i: int| 0 <= i < zones.len() && (#[trigger] zones[i]).name == name
}

/// `zones` and the temperature inputs of one sensor, those left out that have
/// the name of a zone before them.
pub open spec fn with_sensors(
    zones: Seq<ZoneView>,
    hwmon: Seq<char>,
    sensors: Seq<SensorFiles>,
) -> Seq<ZoneView>
    decreases sensors.len(),
{
    if sensors.len() == 0 {
        zones
    } else {
        let front = with_sensors(zones, hwmon, sensors.drop_last());
        let name = sensor_name(hwmon, sensors.last());
        match int_in(sensors.last().temp) {
            Some(t) if !has_zone(front, name) => front.push(ZoneView { name, temp: t as i64 }),
            _ => front,
        }
    }
}

/// `zones` and the temperature inputs of some sensors.
pub open spec fn with_hwmon(zones: Seq<ZoneView>, hwmon: Seq<HwmonFiles>) -> Seq<ZoneView>
    decreases hwmon.len(),
{
    if hwmon.len() == 0 {
        zones
    } else {
        with_sensors(
            with_hwmon(zones, hwmon.drop_last()),
            text_or(hwmon.last().name, seq![]),
            hwmon.last().sensors@,
        )
    }
}

/// Text `a` comes before text `b`: at the first character in which they differ
/// it has the lesser one, or it is the shorter of two that do not differ.
pub open spec fn text_before(a: Seq<char>, b: Seq<char>) -> bool
    decreases a.len(),
{
    if b.len() == 0 {
        false
    } else if a.len() == 0 {
        true
    } else if a[0] == b[0] {
        text_before(a.skip(1), b.skip(1))
    } else {
        a[0] < b[0]
    }
}

/// The order of zones: by name.
pub open spec fn by_name() -> spec_fn(ZoneView, ZoneView) -> bool {
    |a: ZoneView, b: ZoneView| text_before(a.name, b.name)
}

/// The zones that the files give, in the order of their names.
pub open spec fn all_zones(zones: Seq<ZoneFiles>, hwmon: Seq<HwmonFiles>) -> Seq<ZoneView> {
    order::sort_by(with_hwmon(zones_of(zones), hwmon), by_name())
}

/// The files of the thermal zones and of the sensors that count: none of either
/// where the directory of the thermal zones cannot be listed.
pub fn where_listed(zones: Option<Vec<ZoneFiles>>, hwmon: Vec<HwmonFiles>) -> (r: (
    Vec<ZoneFiles>,
    Vec<HwmonFiles>,
))
    ensures
        match zones {
            Some(z) => r.0 == z && r.1 == hwmon,
            None => r.0@.len() == 0 && r.1@.len() == 0,
        },
        zones is None ==> all_zones(r.0@, r.1@).len() == 0,
{
    match zones {
        Some(z) => (z, hwmon),
        None => (Vec::new(), Vec::new()),
    }
}

proof fn lemma_text_asymmetric(a: Seq<char>, b: Seq<char>)
    ensures
        text_before(a, b) ==> !text_before(b, a),
    decreases a.len(),
{
    if a.len() > 0 && b.len() > 0 && a[0] == b[0] {
        lemma_text_asymmetric(a.skip(1), b.skip(1));
    }
}

proof fn lemma_text_transitive(a: Seq<char>, b: Seq<char>, c: Seq<char>)
    ensures
        !text_before(b, a) && !text_before(c, b) ==> !text_before(c, a),
    decreases a.len(),
{
    if a.len() > 0 && b.len() > 0 && c.len() > 0 {
        lemma_text_transitive(a.skip(1), b.skip(1), c.skip(1));
    }
}

proof fn lemma_by_name_orders()
    ensures
        order::orders(by_name()),
{
    let lt = by_name();
    assert forall|a: ZoneView, b: ZoneView| #[trigger] lt(a, b) implies !lt(b, a) by {
        lemma_text_asymmetric(a.name, b.name);
    }
    assert forall|a: ZoneView, b: ZoneView, c: ZoneView|
        !#[trigger] lt(b, a) && !#[trigger] lt(c, b) implies !lt(c, a) by {
        lemma_text_transitive(a.name, b.name, c.name);
    }
}

/// The zones come in the order of their names, and are those that the files
/// give.
pub proof fn law_zones_sorted(zones: Seq<ZoneFiles>, hwmon: Seq<HwmonFiles>)
    ensures
        all_zones(zones, hwmon).to_multiset() == with_hwmon(zones_of(zones), hwmon).to_multiset(),
        forall|i: int, j: int|
            0 <= i < j < all_zones(zones, hwmon).len() ==> !text_before(
                (#[trigger] all_zones(zones, hwmon)[j]).name,
                (#[trigger] all_zones(zones, hwmon)[i]).name,
            ),
{
    lemma_by_name_orders();
    let all = all_zones(zones, hwmon);
    order::law_sort(with_hwmon(zones_of(zones), hwmon), by_name());
    assert forall|i: int, j: int| 0 <= i < j < all.len() implies !text_before(
        (#[trigger] all[j]).name,
        (#[trigger] all[i]).name,
    ) by {
        let lt = by_name();
        assert(!lt(all[j], all[i]));
    }
}

proof fn lemma_sensors_distinct(
    zones: Seq<ZoneView>,
    hwmon: Seq<char>,
    sensors: Seq<SensorFiles>,
)
    ensures
        with_sensors(zones, hwmon, sensors).len() >= zones.len(),
        forall|i: int|
            0 <= i < zones.len() ==> #[trigger] with_sensors(zones, hwmon, sensors)[i] == zones[i],
        forall|i: int, j: int|
            0 <= i < j < with_sensors(zones, hwmon, sensors).len() && zones.len() <= j ==> (
            #[trigger] with_sensors(zones, hwmon, sensors)[i]).name != (
            #[trigger] with_sensors(zones, hwmon, sensors)[j]).name,
    decreases sensors.len(),
{
    if sensors.len() > 0 {
        lemma_sensors_distinct(zones, hwmon, sensors.drop_last());
    }
}

proof fn lemma_hwmon_distinct(zones: Seq<ZoneView>, hwmon: Seq<HwmonFiles>)
    ensures
        with_hwmon(zones, hwmon).len() >= zones.len(),
        forall|i: int| 0 <= i < zones.len() ==> #[trigger] with_hwmon(zones, hwmon)[i] == zones[i],
        forall|i: int, j: int|
            0 <= i < j < with_hwmon(zones, hwmon).len() && zones.len() <= j ==> (
            #[trigger] with_hwmon(zones, hwmon)[i]).name != (
            #[trigger] with_hwmon(zones, hwmon)[j]).name,
    decreases hwmon.len(),
{
    if hwmon.len() > 0 {
        let front = with_hwmon(zones, hwmon.drop_last());
        lemma_hwmon_distinct(zones, hwmon.drop_last());
        lemma_sensors_distinct(
            front,
            text_or(hwmon.last().name, seq![]),
            hwmon.last().sensors@,
        );
        let all = with_hwmon(zones, hwmon);
        assert forall|i: int, j: int|
            0 <= i < j < all.len() && zones.len() <= j implies (#[trigger] all[i]).name != (
        #[trigger] all[j]).name by {
            if j < front.len() {
                assert(all[i] == front[i] && all[j] == front[j]);
            }
        }
    }
}

/// A sensor never repeats the name of a zone or of a sensor before it.
pub proof fn law_sensors_add_names(zones: Seq<ZoneFiles>, hwmon: Seq<HwmonFiles>, i: int, j: int)
    requires
        0 <= i < j < with_hwmon(zones_of(zones), hwmon).len(),
        zones_of(zones).len() <= j,
    ensures
        with_hwmon(zones_of(zones), hwmon)[i].name != with_hwmon(zones_of(zones), hwmon)[j].name,
{
    lemma_hwmon_distinct(zones_of(zones), hwmon);
}

/// Whether text `a` comes before text `b`.
fn comes_before(a: &str, b: &str) -> (r: bool)
    ensures
        r == text_before(a@, b@),
{
    let ca = chars_of(a);
    let cb = chars_of(b);
    let mut i: usize = 0;
    assert(a@.skip(0) =~= a@);
    assert(b@.skip(0) =~= b@);
    while i < ca.len() && i < cb.len()
        invariant
            ca@ == a@,
            cb@ == b@,
            i <= ca@.len(),
            i <= cb@.len(),
            text_before(a@, b@) == text_before(a@.skip(i as int), b@.skip(i as int)),
        decreases ca@.len() - i,
    {
        assert(a@.skip(i as int).skip(1) =~= a@.skip(i + 1));
        assert(b@.skip(i as int).skip(1) =~= b@.skip(i + 1));
        if ca[i] != cb[i] {
            return ca[i] < cb[i];
        }
        i += 1;
    }
    i < cb.len()
}

/// Whether some zone has the given name.
fn named(zones: &Vec<ThermalZone>, name: &str) -> (r: bool)
    ensures
        r == has_zone(zone_views(zones@), name@),
{
    let mut i: usize = 0;
    while i < zones.len()
        invariant
            i <= zones@.len(),
            forall|k: int| 0 <= k < i ==> (#[trigger] zone_views(zones@)[k]).name != name@,
        decreases zones@.len() - i,
    {
        if same_str(zones[i].name.as_str(), name) {
            assert(zone_views(zones@)[i as int].name == name@);
            return true;
        }
        i += 1;
    }
    false
}

/// Puts the zones in the order of their names.
fn sort_zones(zones: Vec<ThermalZone>) -> (r: Vec<ThermalZone>)
    ensures
        zone_views(r@) == order::sort_by(zone_views(zones@), by_name()),
{
    let ghost all = zone_views(zones@);
    let ghost lt = by_name();
    let mut r: Vec<ThermalZone> = Vec::new();
    let mut i: usize = 0;
    assert(zone_views(r@) =~= seq![]);
    assert(all.take(0) =~= seq![]);
    while i < zones.len()
        invariant
            i <= zones@.len(),
            all == zone_views(zones@),
            lt == by_name(),
            zone_views(r@) == order::sort_by(all.take(i as int), lt),
        decreases zones@.len() - i,
    {
        let z = ThermalZone { name: zones[i].name.clone(), temp: zones[i].temp };
        assert(z@ == all[i as int]);
        let mut at: usize = r.len();
        while at > 0 && comes_before(z.name.as_str(), r[at - 1].name.as_str())
            invariant
                at <= r@.len(),
                lt == by_name(),
                forall|k: int| at <= k < r@.len() ==> lt(z@, #[trigger] zone_views(r@)[k]),
            decreases at,
        {
            at -= 1;
        }
        proof {
            order::lemma_insert_at(zone_views(r@), z@, lt, at as int);
            assert(all.take(i + 1).drop_last() =~= all.take(i as int));
            assert(all.take(i + 1).last() == z@);
        }
        let ghost before = r@;
        r.insert(at, z);
        assert(zone_views(r@) =~= zone_views(before).insert(at as int, z@));
        i += 1;
    }
    assert(all.take(i as int) =~= all);
    r
}

/// The zones that the files give, in the order of their names.
pub fn read_thermal_zones(zones: &Vec<ZoneFiles>, hwmon: &Vec<HwmonFiles>) -> (r: Vec<ThermalZone>)
    ensures
        zone_views(r@) == all_zones(zones@, hwmon@),
{
    let mut r: Vec<ThermalZone> = Vec::new();
    let mut i: usize = 0;
    assert(zone_views(r@) =~= seq![]);
    assert(zones@.take(0) =~= seq![]);
    while i < zones.len()
        invariant
            i <= zones@.len(),
            zone_views(r@) == zones_of(zones@.take(i as int)),
        decreases zones@.len() - i,
    {
        assert(zones@.take(i + 1).drop_last() =~= zones@.take(i as int));
        let ghost before = r@;
        let empty = String::new();
        let dir: &str = match &zones[i].name {
            Some(n) => n.as_str(),
            None => empty.as_str(),
        };
        let dir_chars = chars_of(dir);
        if begins(dir_chars.as_slice(), "thermal_zone") {
            if let Some(t) = read_int(&zones[i].temp) {
                let z = ThermalZone { name: read_text_or(&zones[i].kind, dir), temp: t };
                r.push(z);
                assert(zone_views(r@) =~= zone_views(before).push(z@));
            }
        }
        i += 1;
    }
    assert(zones@.take(i as int) =~= zones@);
    let ghost base = zones_of(zones@);
    let mut h: usize = 0;
    assert(hwmon@.take(0) =~= seq![]);
    while h < hwmon.len()
        invariant
            h <= hwmon@.len(),
            zone_views(r@) == with_hwmon(base, hwmon@.take(h as int)),
        decreases hwmon@.len() - h,
    {
        assert(hwmon@.take(h + 1).drop_last() =~= hwmon@.take(h as int));
        add_sensors(&mut r, &hwmon[h]);
        h += 1;
    }
    assert(hwmon@.take(h as int) =~= hwmon@);
    sort_zones(r)
}

/// Adds the temperature inputs of one sensor.
fn add_sensors(zones: &mut Vec<ThermalZone>, hwmon: &HwmonFiles)
    ensures
        zone_views(final(zones)@) == with_sensors(
            zone_views(old(zones)@),
            text_or(hwmon.name, seq![]),
            hwmon.sensors@,
        ),
{
    let ghost base = zone_views(zones@);
    let hwmon_name = read_text_or(&hwmon.name, "");
    proof {
        reveal_strlit("");
        assert(""@ =~= seq![]);
    }
    let ghost sensors = hwmon.sensors@;
    let mut i: usize = 0;
    assert(sensors.take(0) =~= seq![]);
    while i < hwmon.sensors.len()
        invariant
            i <= sensors.len(),
            sensors == hwmon.sensors@,
            hwmon_name@ == text_or(hwmon.name, seq![]),
            zone_views(zones@) == with_sensors(base, hwmon_name@, sensors.take(i as int)),
        decreases sensors.len() - i,
    {
        assert(sensors.take(i + 1).drop_last() =~= sensors.take(i as int));
        let ghost before = zones@;
        let mut other: String = hwmon_name.clone();
        other.append("/");
        other.append(number_text(hwmon.sensors[i].index as u64).as_str());
        let name = read_text_or(&hwmon.sensors[i].label, other.as_str());
        if let Some(t) = read_int(&hwmon.sensors[i].temp) {
            if !named(zones, name.as_str()) {
                let z = ThermalZone { name, temp: t };
                zones.push(z);
                assert(zone_views(zones@) =~= zone_views(before).push(z@));
            }
        }
        i += 1;
    }
    assert(sensors.take(i as int) =~= sensors);
}

/// The first of the names in which `part` stands.
pub open spec fn first_with(names: Seq<Seq<char>>, part: Seq<char>) -> Option<int>
    decreases names.len(),
{
    if names.len() == 0 {
        None
    } else if text::contains(names[0], part) {
        Some(0)
    } else {
        match first_with(names.skip(1), part) {
            Some(i) => Some(i + 1),
            None => None,
        }
    }
}

/// The first of the names in which the first possible of the parts stands.
pub open spec fn first_with_any(names: Seq<Seq<char>>, parts: Seq<Seq<char>>) -> Option<int>
    decreases parts.len(),
{
    if parts.len() == 0 {
        None
    } else {
        match first_with(names, parts[0]) {
            Some(i) => Some(i),
            None => first_with_any(names, parts.skip(1)),
        }
    }
}

/// What the names of processor sensors hold in lower case, the best first.
pub open spec fn cpu_parts() -> Seq<Seq<char>> {
    seq![
        "x86_pkg_temp"@,
        "package id 0"@,
        "coretemp"@,
        "tdie"@,
        "tctl"@,
        "k10temp"@,
        "acpitz"@,
    ]
}

/// What the names of graphics sensors hold in lower case, the best first.
pub open spec fn gpu_parts() -> Seq<Seq<char>> {
    seq!["nouveau"@, "amdgpu"@, "nvidia"@, "gpu"@]
}

/// The zone that measures the processor, given the names of the zones in lower
/// case: that of the best name, or the first.
pub open spec fn cpu_zone(lower_names: Seq<Seq<char>>) -> Option<int> {
    match first_with_any(lower_names, cpu_parts()) {
        Some(i) => Some(i),
        None => if lower_names.len() > 0 {
            Some(0)
        } else {
            None
        },
    }
}

/// The zone that measures the graphics, given the names of the zones in lower
/// case: that of the best name.
pub open spec fn gpu_zone(lower_names: Seq<Seq<char>>) -> Option<int> {
    first_with_any(lower_names, gpu_parts())
}

/// The names of zones in lower case.
pub open spec fn lower_names(zones: Seq<ThermalZone>) -> Seq<Seq<char>> {
    zones.map_values(|z: ThermalZone| unicode::lowercase(z.name@))
}

/// The temperature of a zone.
pub open spec fn temp_at(zones: Seq<ThermalZone>, zone: Option<int>) -> Option<i64> {
    match zone {
        Some(i) => Some(zones[i].temp),
        None => None,
    }
}

/// The first of the names in which `part` stands.
fn find_first_with(names: &Vec<String>, part: &str) -> (r: Option<usize>)
    ensures
        match r {
            Some(i) => first_with(process::strings(names@), part@) == Some(i as int) && i
                < names@.len(),
            None => first_with(process::strings(names@), part@) is None,
        },
{
    let ghost all = process::strings(names@);
    let mut i: usize = 0;
    assert(all.skip(0) =~= all);
    while i < names.len()
        invariant
            i <= names@.len(),
            all == process::strings(names@),
            match first_with(all, part@) {
                Some(k) => first_with(all.skip(i as int), part@) == Some(k - i),
                None => first_with(all.skip(i as int), part@) is None,
            },
        decreases names@.len() - i,
    {
        assert(all.skip(i as int)[0] == names@[i as int]@);
        assert(all.skip(i as int).skip(1) =~= all.skip(i + 1));
        let name = chars_of(names[i].as_str());
        if holds(name.as_slice(), part) {
            return Some(i);
        }
        i += 1;
    }
    None
}

/// The zone that measures the processor, given the names of the zones in lower
/// case.
pub fn find_cpu_zone(names: &Vec<String>) -> (r: Option<usize>)
    ensures
        match r {
            Some(i) => cpu_zone(process::strings(names@)) == Some(i as int) && i
                < names@.len(),
            None => cpu_zone(process::strings(names@)) is None,
        },
{
    let ghost all = process::strings(names@);
    let parts: [&str; 7] = [
        "x86_pkg_temp",
        "package id 0",
        "coretemp",
        "tdie",
        "tctl",
        "k10temp",
        "acpitz",
    ];
    let mut i: usize = 0;
    let ghost texts = cpu_parts();
    assert(texts.skip(0) =~= texts);
    while i < 7
        invariant
            i <= 7,
            all == process::strings(names@),
            texts == cpu_parts(),
            parts@.len() == 7,
            forall|k: int| 0 <= k < 7 ==> (#[trigger] parts@[k])@ == texts[k],
            first_with_any(all, texts) == first_with_any(all, texts.skip(i as int)),
        decreases 7 - i,
    {
        assert(texts.skip(i as int)[0] == parts@[i as int]@);
        assert(texts.skip(i as int).skip(1) =~= texts.skip(i + 1));
        if let Some(k) = find_first_with(names, parts[i]) {
            return Some(k);
        }
        i += 1;
    }
    if names.len() > 0 {
        Some(0)
    } else {
        None
    }
}

/// The zone that measures the graphics, given the names of the zones in lower
/// case.
pub fn find_gpu_zone(names: &Vec<String>) -> (r: Option<usize>)
    ensures
        match r {
            Some(i) => gpu_zone(process::strings(names@)) == Some(i as int) && i
                < names@.len(),
            None => gpu_zone(process::strings(names@)) is None,
        },
{
    let ghost all = process::strings(names@);
    let parts: [&str; 4] = ["nouveau", "amdgpu", "nvidia", "gpu"];
    let mut i: usize = 0;
    let ghost texts = gpu_parts();
    assert(texts.skip(0) =~= texts);
    while i < 4
        invariant
            i <= 4,
            all == process::strings(names@),
            texts == gpu_parts(),
            parts@.len() == 4,
            forall|k: int| 0 <= k < 4 ==> (#[trigger] parts@[k])@ == texts[k],
            first_with_any(all, texts) == first_with_any(all, texts.skip(i as int)),
        decreases 4 - i,
    {
        assert(texts.skip(i as int)[0] == parts@[i as int]@);
        assert(texts.skip(i as int).skip(1) =~= texts.skip(i + 1));
        if let Some(k) = find_first_with(names, parts[i]) {
            return Some(k);
        }
        i += 1;
    }
    None
}

/// The names of zones in lower case.
fn lowercase_names(zones: &Vec<ThermalZone>) -> (r: Vec<String>)
    ensures
        process::strings(r@) == lower_names(zones@),
        r@.len() == zones@.len(),
{
    let mut r: Vec<String> = Vec::new();
    let mut i: usize = 0;
    while i < zones.len()
        invariant
            i <= zones@.len(),
            r@.len() == i,
            forall|k: int|
                0 <= k < i ==> (#[trigger] r@[k])@ == unicode::lowercase(zones@[k].name@),
        decreases zones@.len() - i,
    {
        r.push(lowercased(zones[i].name.as_str()));
        i += 1;
    }
    assert(process::strings(r@) =~= lower_names(zones@));
    r
}

/// The temperature of the processor.
pub fn guess_cpu_temp(zones: &Vec<ThermalZone>) -> (r: Option<i64>)
    ensures
        r == temp_at(zones@, cpu_zone(lower_names(zones@))),
{
    match find_cpu_zone(&lowercase_names(zones)) {
        Some(i) => Some(zones[i].temp),
        None => None,
    }
}

/// The temperature of the graphics.
pub fn guess_gpu_temp(zones: &Vec<ThermalZone>) -> (r: Option<i64>)
    ensures
        r == temp_at(zones@, gpu_zone(lower_names(zones@))),
{
    match find_gpu_zone(&lowercase_names(zones)) {
        Some(i) => Some(zones[i].temp),
        None => None,
    }
}

// ── Memory ──────────────────────────────────────────────────────────────────

/// The number that stands second in a line such as `MemTotal: 16384 kB`.
pub open spec fn kb_in(line: Seq<char>) -> Option<nat> {
    let w = text::words(line);
    if w.len() > 1 {
        number::parse_nat(w[1], u64::MAX as nat)
    } else {
        None
    }
}

/// Total and available memory, read from the lines on: the last of each until
/// both are known.
pub open spec fn memory_in(
    lines: Seq<Seq<char>>,
    total: Option<nat>,
    available: Option<nat>,
) -> (Option<nat>, Option<nat>)
    decreases lines.len(),
{
    if lines.len() == 0 || (total is Some && available is Some) {
        (total, available)
    } else if text::starts_with(lines[0], "MemTotal:"@) {
        memory_in(lines.skip(1), kb_in(lines[0]), available)
    } else if text::starts_with(lines[0], "MemAvailable:"@) {
        memory_in(lines.skip(1), total, kb_in(lines[0]))
    } else {
        memory_in(lines.skip(1), total, available)
    }
}

/// Total and available memory in kilobytes, where both are known.
pub open spec fn memory_of(meminfo: Option<String>) -> Option<(nat, nat)> {
    match meminfo {
        Some(s) => match memory_in(text::lines(s@), None, None) {
            (Some(t), Some(a)) => Some((t, a)),
            _ => None,
        },
        None => None,
    }
}

/// What an optional number is.
pub open spec fn opt_nat(n: Option<u64>) -> Option<nat> {
    match n {
        Some(n) => Some(n as nat),
        None => None,
    }
}

/// The number that stands second in a line.
pub fn parse_kb_line(line: &[char]) -> (r: Option<u64>)
    ensures
        opt_nat(r) == kb_in(line@),
{
    let w = words_of(line);
    assert(text::views(w@).len() == w@.len());
    if w.len() > 1 {
        assert(text::views(w@)[1] == w@[1]@);
        read_u64(w[1])
    } else {
        None
    }
}

/// Total and available memory in kilobytes, where both are known.
pub fn read_meminfo(meminfo: &Option<String>) -> (r: Option<(u64, u64)>)
    ensures
        match r {
            Some((t, a)) => memory_of(*meminfo) == Some((t as nat, a as nat)),
            None => memory_of(*meminfo) is None,
        },
{
    let chars = match meminfo {
        Some(s) => chars_of(s.as_str()),
        None => return None,
    };
    let lines = lines_of(chars.as_slice());
    let ghost all = text::views(lines@);
    let mut total: Option<u64> = None;
    let mut available: Option<u64> = None;
    let mut i: usize = 0;
    assert(all.skip(0) =~= all);
    while i < lines.len() && !(total.is_some() && available.is_some())
        invariant
            i <= lines@.len(),
            all == text::views(lines@),
            memory_in(all, None, None) == memory_in(
                all.skip(i as int),
                opt_nat(total),
                opt_nat(available),
            ),
        decreases lines@.len() - i,
    {
        assert(all.skip(i as int)[0] == lines@[i as int]@);
        assert(all.skip(i as int).skip(1) =~= all.skip(i + 1));
        if begins(lines[i], "MemTotal:") {
            total = parse_kb_line(lines[i]);
        } else if begins(lines[i], "MemAvailable:") {
            available = parse_kb_line(lines[i]);
        }
        i += 1;
    }
    match (total, available) {
        (Some(t), Some(a)) => Some((t, a)),
        _ => None,
    }
}

// ── The system ──────────────────────────────────────────────────────────────

impl Default for SystemInfo {
    fn default() -> (r: Self)
        ensures
            r.cpu_model is None,
            r.cpu_temp is None,
            r.gpu_temp is None,
            r.mem_total_mb is None,
            r.mem_used_mb is None,
            r.mem_available_mb is None,
            r.thermal_zones@ == Seq::<ThermalZone>::empty(),
            !r.ac_connected,
    {
        SystemInfo {
            cpu_model: None,
            cpu_temp: None,
            gpu_temp: None,
            mem_total_mb: None,
            mem_used_mb: None,
            mem_available_mb: None,
            thermal_zones: Vec::new(),
            ac_connected: false,
        }
    }
}

/// The memory that the files report is no more available than there is.
pub open spec fn memory_sound(files: SystemFiles) -> bool {
    memory_of(files.meminfo) matches Some((t, a)) ==> a <= t
}

/// `info` shows what the files say.
pub open spec fn shows(info: SystemInfo, files: SystemFiles) -> bool {
    &&& text::opt_view(info.cpu_model) == model_of(files.cpuinfo)
    &&& zone_views(info.thermal_zones@) == all_zones(files.zones@, files.hwmon@)
    &&& info.cpu_temp == temp_at(
        info.thermal_zones@,
        cpu_zone(lower_names(info.thermal_zones@)),
    )
    &&& info.gpu_temp == temp_at(
        info.thermal_zones@,
        gpu_zone(lower_names(info.thermal_zones@)),
    )
    &&& info.ac_connected == sysutil::mains_online(files.supplies@)
    &&& memory_of(files.meminfo) matches Some((t, a)) ==> {
        &&& opt_nat(info.mem_total_mb) == Some(t / 1024)
        &&& opt_nat(info.mem_available_mb) == Some(a / 1024)
        &&& opt_nat(info.mem_used_mb) == Some(((t - a) / 1024) as nat)
    }
}

/// What a share of memory in use is computed from.
#[derive(Debug, Clone, Copy, PartialEq, Eq, Structural)]
pub struct MemoryShare {
    pub total_mb: u64,
    pub available_mb: u64,
}

impl SystemInfo {
    /// What the files say of the system.
    pub fn new(files: &SystemFiles) -> (r: Self)
        requires
            memory_sound(*files),
        ensures
            shows(r, *files),
            memory_of(files.meminfo) is None ==> r.mem_total_mb is None && r.mem_used_mb is None
                && r.mem_available_mb is None,
    {
        let mut r = Self::default();
        r.refresh(files);
        r
    }

    /// Takes over what the files say of the system. The figures of memory stay
    /// where the files do not give both.
    pub fn refresh(&mut self, files: &SystemFiles)
        requires
            memory_sound(*files),
        ensures
            shows(*final(self), *files),
            memory_of(files.meminfo) is None ==> {
                &&& final(self).mem_total_mb == old(self).mem_total_mb
                &&& final(self).mem_used_mb == old(self).mem_used_mb
                &&& final(self).mem_available_mb == old(self).mem_available_mb
            },
    {
        self.cpu_model = read_cpu_model(&files.cpuinfo);
        self.thermal_zones = read_thermal_zones(&files.zones, &files.hwmon);
        self.cpu_temp = guess_cpu_temp(&self.thermal_zones);
        self.gpu_temp = guess_gpu_temp(&self.thermal_zones);
        self.ac_connected = ac_connected(&files.supplies);
        if let Some((t, a)) = read_meminfo(&files.meminfo) {
            self.mem_total_mb = Some(t / 1024);
            self.mem_available_mb = Some(a / 1024);
            self.mem_used_mb = Some((t - a) / 1024);
        }
    }

    /// What the share of memory in use is computed from: the total and what of
    /// it is available; nothing where either is unknown, or the total is zero.
    pub fn mem_used_percent(&self) -> (r: Option<MemoryShare>)
        ensures
            match (self.mem_total_mb, self.mem_available_mb) {
                (Some(t), Some(a)) => if t > 0 {
                    r == Some(MemoryShare { total_mb: t, available_mb: a })
                } else {
                    r is None
                },
                _ => r is None,
            },
    {
        match (self.mem_total_mb, self.mem_available_mb) {
            (Some(t), Some(a)) => if t > 0 {
                Some(MemoryShare { total_mb: t, available_mb: a })
            } else {
                None
            },
            _ => None,
        }
    }
}

// ── Laws ────────────────────────────────────────────────────────────────────

proof fn lemma_first_with(names: Seq<Seq<char>>, part: Seq<char>)
    ensures
        match first_with(names, part) {
            Some(i) => {
                &&& 0 <= i < names.len()
                &&& text::contains(names[i], part)
                &&& forall|j: int| 0 <= j < i ==> !text::contains(#[trigger] names[j], part)
            },
            None => forall|j: int|
                0 <= j < names.len() ==> !text::contains(#[trigger] names[j], part),
        },
    decreases names.len(),
{
    if names.len() > 0 && !text::contains(names[0], part) {
        let rest = names.skip(1);
        lemma_first_with(rest, part);
        assert(forall|j: int| 0 < j < names.len() ==> #[trigger] names[j] == rest[j - 1]);
    }
}

/// `i` is the first of the names that hold the part of a rank, and none holds a
/// part of a better rank.
pub open spec fn ranks_best(
    names: Seq<Seq<char>>,
    parts: Seq<Seq<char>>,
    rank: int,
    i: int,
) -> bool {
    &&& 0 <= rank < parts.len()
    &&& 0 <= i < names.len()
    &&& text::contains(names[i], parts[rank])
    &&& forall|j: int| 0 <= j < i ==> !text::contains(#[trigger] names[j], parts[rank])
    &&& no_match_before(names, parts, rank)
}

/// No name holds any of the first parts.
pub open spec fn no_match_before(names: Seq<Seq<char>>, parts: Seq<Seq<char>>, n: int) -> bool {
    forall|j: int, k: int|
        0 <= j < names.len() && 0 <= k < n ==> !text::contains(
            #[trigger] names[j],
            #[trigger] parts[k],
        )
}

proof fn lemma_first_with_any(names: Seq<Seq<char>>, parts: Seq<Seq<char>>)
    ensures
        match first_with_any(names, parts) {
            Some(i) => exists|rank: int| ranks_best(names, parts, rank, i),
            None => no_match_before(names, parts, parts.len() as int),
        },
    decreases parts.len(),
{
    if parts.len() > 0 {
        lemma_first_with(names, parts[0]);
        match first_with(names, parts[0]) {
            Some(i) => {
                assert(ranks_best(names, parts, 0, i));
            },
            None => {
                let rest = parts.skip(1);
                lemma_first_with_any(names, rest);
                assert(forall|k: int| 0 < k < parts.len() ==> #[trigger] parts[k] == rest[k - 1]);
                match first_with_any(names, rest) {
                    Some(i) => {
                        let r = choose|rank: int| ranks_best(names, rest, rank, i);
                        assert(parts[r + 1] == rest[r]);
                        assert(ranks_best(names, parts, r + 1, i));
                    },
                    None => {},
                }
            },
        }
    }
}

/// What the names of processor sensors hold, ranked: the package, its cores, the
/// die of AMD processors, and last the board, whose reading is often inaccurate.
/// The zone that measures the processor is the first that holds a part of the
/// best rank that any zone holds; the first of all where none holds any.
pub proof fn law_cpu_zone_ranked(lower_names: Seq<Seq<char>>)
    ensures
        ({
            let ranked = seq![
                "x86_pkg_temp"@,
                "package id 0"@,
                "coretemp"@,
                "tdie"@,
                "tctl"@,
                "k10temp"@,
                "acpitz"@,
            ];
            match cpu_zone(lower_names) {
                Some(i) => {
                    ||| exists|rank: int| ranks_best(lower_names, ranked, rank, i)
                    ||| i == 0 && lower_names.len() > 0 && no_match_before(lower_names, ranked, 7)
                },
                None => lower_names.len() == 0,
            }
        }),
{
    let ranked = seq![
        "x86_pkg_temp"@,
        "package id 0"@,
        "coretemp"@,
        "tdie"@,
        "tctl"@,
        "k10temp"@,
        "acpitz"@,
    ];
    lemma_first_with_any(lower_names, cpu_parts());
    assert(cpu_parts() =~= ranked);
}

/// A zone of the board is taken for the processor only where it is the first
/// zone and nothing better is known, or no zone bears the name of a processor
/// sensor.
pub proof fn law_board_zone_last(lower_names: Seq<Seq<char>>, j: int)
    requires
        0 <= j < lower_names.len(),
        text::contains(lower_names[j], "x86_pkg_temp"@) || text::contains(
            lower_names[j],
            "package id 0"@,
        ) || text::contains(lower_names[j], "coretemp"@) || text::contains(
            lower_names[j],
            "tdie"@,
        ) || text::contains(lower_names[j], "tctl"@) || text::contains(lower_names[j], "k10temp"@),
    ensures
        cpu_zone(lower_names) matches Some(i) && 0 <= i < lower_names.len() && (text::contains(
            lower_names[i],
            "x86_pkg_temp"@,
        ) || text::contains(lower_names[i], "package id 0"@) || text::contains(
            lower_names[i],
            "coretemp"@,
        ) || text::contains(lower_names[i], "tdie"@) || text::contains(lower_names[i], "tctl"@)
            || text::contains(lower_names[i], "k10temp"@)),
{
    let p = cpu_parts();
    lemma_first_with_any(lower_names, p);
    assert(p[0] == "x86_pkg_temp"@ && p[1] == "package id 0"@ && p[2] == "coretemp"@ && p[3]
        == "tdie"@ && p[4] == "tctl"@ && p[5] == "k10temp"@ && p[6] == "acpitz"@);
    match first_with_any(lower_names, p) {
        Some(i) => {
            let rank = choose|rank: int| ranks_best(lower_names, p, rank, i);
            assert(rank != 6);
        },
        None => {},
    }
}

/// The zone that measures the graphics is the first that holds a part of the
/// best rank that any zone holds; none where none holds any.
pub proof fn law_gpu_zone_ranked(lower_names: Seq<Seq<char>>)
    ensures
        ({
            let ranked = seq!["nouveau"@, "amdgpu"@, "nvidia"@, "gpu"@];
            match gpu_zone(lower_names) {
                Some(i) => exists|rank: int| ranks_best(lower_names, ranked, rank, i),
                None => no_match_before(lower_names, ranked, 4),
            }
        }),
{
    lemma_first_with_any(lower_names, gpu_parts());
    assert(gpu_parts() =~= seq!["nouveau"@, "amdgpu"@, "nvidia"@, "gpu"@]);
}


/// What a zone of the thermal directory is called: by its kind, or by its
/// directory where the kind is unknown.
pub open spec fn zone_named(z: ZoneFiles, name: Seq<char>) -> bool {
    match z.kind {
        Some(k) => name == text::trim(k@),
        None => z.name matches Some(n) && name == n@,
    }
}

/// A zone of the thermal directory gives a zone that is shown.
pub open spec fn gives_zone(z: ZoneFiles, shown: ZoneView) -> bool {
    &&& z.name matches Some(n) && text::starts_with(n@, "thermal_zone"@)
    &&& z.temp matches Some(t) && number::parse_int(text::trim(t@)) == Some(shown.temp as int)
    &&& zone_named(z, shown.name)
}

/// The zones of the thermal directory that have a temperature are shown, each
/// under its name and with its temperature, and no others.
pub proof fn law_thermal_zones_shown(files: Seq<ZoneFiles>)
    ensures
        forall|i: int, name: Seq<char>, temp: i64|
            0 <= i < files.len() && #[trigger] gives_zone(files[i], ZoneView { name, temp })
                ==> zones_of(files).contains(ZoneView { name, temp }),
        forall|k: int|
            0 <= k < zones_of(files).len() ==> exists|i: int|
                0 <= i < files.len() && gives_zone(files[i], #[trigger] zones_of(files)[k]),
        zones_of(files).len() <= files.len(),
    decreases files.len(),
{
    if files.len() > 0 {
        let front = files.drop_last();
        let before = zones_of(front);
        let all = zones_of(files);
        let z = files.last();
        law_thermal_zones_shown(front);
        reveal_strlit("thermal_zone");
        assert(all.len() >= before.len());
        assert(forall|k: int| 0 <= k < before.len() ==> #[trigger] all[k] == before[k]);
        assert forall|i: int, name: Seq<char>, temp: i64|
            0 <= i < files.len() && #[trigger] gives_zone(
                files[i],
                ZoneView { name, temp },
            ) implies all.contains(ZoneView { name, temp }) by {
            let shown = ZoneView { name, temp };
            if i < front.len() {
                assert(files[i] == front[i]);
                assert(gives_zone(front[i], shown));
                let k = choose|k: int| 0 <= k < before.len() && before[k] == shown;
                assert(all[k] == shown);
            } else {
                assert(all.last() == shown);
            }
        }
        assert forall|k: int| 0 <= k < all.len() implies exists|i: int|
            0 <= i < files.len() && gives_zone(files[i], #[trigger] all[k]) by {
            if k < before.len() {
                let i = choose|i: int| 0 <= i < front.len() && gives_zone(front[i], before[k]);
                assert(files[i] == front[i]);
                assert(gives_zone(files[i], all[k]));
            } else {
                lemma_parse_int_fits(text::trim(z.temp->0@));
                assert(gives_zone(files[files.len() - 1], all[k]));
            }
        }
    }
}

proof fn lemma_parse_int_fits(s: Seq<char>)
    ensures
        number::parse_int(s) matches Some(n) ==> i64::MIN <= n <= i64::MAX,
{
}

/// What a temperature input is called: by its label, or by the name of its
/// sensor, a slash and its number where it has none.
pub open spec fn input_named(hwmon: Seq<char>, s: SensorFiles, name: Seq<char>) -> bool {
    match s.label {
        Some(l) => name == text::trim(l@),
        None => name == hwmon + "/"@ + number::dec(s.index as nat),
    }
}

/// A temperature input gives a zone that is shown.
pub open spec fn gives_input(hwmon: Seq<char>, s: SensorFiles, shown: ZoneView) -> bool {
    &&& s.temp matches Some(t) && number::parse_int(text::trim(t@)) == Some(shown.temp as int)
    &&& input_named(hwmon, s, shown.name)
}

/// The temperature inputs of a sensor come after the zones that are shown
/// already: every input with a temperature has a zone of its name, and every
/// zone that is added is given by one of them.
pub proof fn law_inputs_shown(zones: Seq<ZoneView>, hwmon: Seq<char>, sensors: Seq<SensorFiles>)
    ensures
        with_sensors(zones, hwmon, sensors).take(zones.len() as int) == zones,
        forall|i: int, name: Seq<char>, temp: i64|
            0 <= i < sensors.len() && #[trigger] gives_input(
                hwmon,
                sensors[i],
                ZoneView { name, temp },
            ) ==> has_zone(with_sensors(zones, hwmon, sensors), name),
        forall|k: int|
            zones.len() <= k < with_sensors(zones, hwmon, sensors).len() ==> exists|i: int|
                0 <= i < sensors.len() && gives_input(
                    hwmon,
                    sensors[i],
                    #[trigger] with_sensors(zones, hwmon, sensors)[k],
                ),
    decreases sensors.len(),
{
    lemma_sensors_distinct(zones, hwmon, sensors);
    assert(with_sensors(zones, hwmon, sensors).take(zones.len() as int) =~= zones);
    if sensors.len() > 0 {
        let front = sensors.drop_last();
        let before = with_sensors(zones, hwmon, front);
        let all = with_sensors(zones, hwmon, sensors);
        let s = sensors.last();
        law_inputs_shown(zones, hwmon, front);
        assert(all.len() >= before.len());
        assert(forall|k: int| 0 <= k < before.len() ==> #[trigger] all[k] == before[k]);
        assert forall|i: int, name: Seq<char>, temp: i64|
            0 <= i < sensors.len() && #[trigger] gives_input(
                hwmon,
                sensors[i],
                ZoneView { name, temp },
            ) implies has_zone(all, name) by {
            if i < front.len() {
                assert(sensors[i] == front[i]);
                assert(gives_input(hwmon, front[i], ZoneView { name, temp }));
                let k = choose|k: int| 0 <= k < before.len() && (#[trigger] before[k]).name == name;
                assert(all[k].name == name);
            } else if has_zone(before, name) {
                let k = choose|k: int| 0 <= k < before.len() && (#[trigger] before[k]).name == name;
                assert(all[k].name == name);
            } else {
                assert(all[all.len() - 1].name == name);
            }
        }
        assert forall|k: int| zones.len() <= k < all.len() implies exists|i: int|
            0 <= i < sensors.len() && gives_input(hwmon, sensors[i], #[trigger] all[k]) by {
            if k < before.len() {
                let i = choose|i: int|
                    0 <= i < front.len() && gives_input(hwmon, front[i], before[k]);
                assert(sensors[i] == front[i]);
                assert(gives_input(hwmon, sensors[i], all[k]));
            } else {
                lemma_parse_int_fits(text::trim(s.temp->0@));
                assert(gives_input(hwmon, sensors[sensors.len() - 1], all[k]));
            }
        }
    }
}

/// The sensors are asked one after the other, each under the name that it gives,
/// and under none where it gives no name.
pub proof fn law_sensors_in_order(zones: Seq<ZoneView>, hwmon: Seq<HwmonFiles>, h: HwmonFiles)
    ensures
        with_hwmon(zones, Seq::<HwmonFiles>::empty()) == zones,
        with_hwmon(zones, hwmon.push(h)) == with_sensors(
            with_hwmon(zones, hwmon),
            match h.name {
                Some(n) => text::trim(n@),
                None => Seq::<char>::empty(),
            },
            h.sensors@,
        ),
{
    assert(hwmon.push(h).drop_last() =~= hwmon);
}

/// The memory is shown in whole megabytes of 1024 kilobytes, rounded down: what
/// is used and what is available make up the total, but for what rounding takes.
pub proof fn law_memory_shown(info: SystemInfo, files: SystemFiles)
    requires
        shows(info, files),
        memory_sound(files),
        memory_of(files.meminfo) is Some,
    ensures
        ({
            let (t, a) = memory_of(files.meminfo)->0;
            &&& info.mem_total_mb matches Some(total)
            &&& info.mem_available_mb matches Some(available)
            &&& info.mem_used_mb matches Some(used)
            &&& total * 1024 <= t < total * 1024 + 1024
            &&& available * 1024 <= a < available * 1024 + 1024
            &&& used + available <= total <= used + available + 1
        }),
{
}

/// A line `MemTotal: N kB` gives the total and a line `MemAvailable: N kB` what
/// is available, whichever comes first; other lines are passed over, and nothing
/// is read once both are known.
pub proof fn law_memory_lines(
    gap: Seq<char>,
    n: nat,
    unit: Seq<char>,
    rest: Seq<Seq<char>>,
    total: Option<nat>,
    available: Option<nat>,
)
    requires
        text::blank(gap),
        gap.len() > 0,
        n <= u64::MAX,
    ensures
        ({
            let value = gap + number::dec(n) + " "@ + unit;
            &&& available is None ==> memory_in(seq!["MemTotal:"@ + value] + rest, total, available)
                == memory_in(rest, Some(n), available)
            &&& total is None ==> memory_in(
                seq!["MemAvailable:"@ + value] + rest,
                total,
                available,
            ) == memory_in(rest, total, Some(n))
            &&& total is Some && available is Some ==> memory_in(rest, total, available) == (
                total,
                available,
            )
        }),
{
    let value = gap + number::dec(n) + " "@ + unit;
    lemma_kb_line("MemTotal:"@, gap, n, unit);
    lemma_kb_line("MemAvailable:"@, gap, n, unit);
    let t = "MemTotal:"@ + value;
    let a = "MemAvailable:"@ + value;
    assert((seq![t] + rest).skip(1) =~= rest);
    assert((seq![a] + rest).skip(1) =~= rest);
    assert(t.subrange(0, "MemTotal:"@.len() as int) =~= "MemTotal:"@);
    assert(a.subrange(0, "MemAvailable:"@.len() as int) =~= "MemAvailable:"@);
    reveal_strlit("MemTotal:");
    reveal_strlit("MemAvailable:");
    if text::starts_with(a, "MemTotal:"@) {
        assert(a.subrange(0, 9)[3] == a[3]);
        assert(a[3] == 'A');
    }
}

/// A line that begins with neither heading says nothing of the memory.
pub proof fn law_memory_other_line(
    line: Seq<char>,
    rest: Seq<Seq<char>>,
    total: Option<nat>,
    available: Option<nat>,
)
    requires
        !text::starts_with(line, "MemTotal:"@),
        !text::starts_with(line, "MemAvailable:"@),
    ensures
        memory_in(seq![line] + rest, total, available) == memory_in(rest, total, available),
{
    assert((seq![line] + rest).skip(1) =~= rest);
}

proof fn lemma_kb_line(heading: Seq<char>, gap: Seq<char>, n: nat, unit: Seq<char>)
    requires
        heading == "MemTotal:"@ || heading == "MemAvailable:"@,
        text::blank(gap),
        gap.len() > 0,
        n <= u64::MAX,
    ensures
        kb_in(heading + (gap + number::dec(n) + " "@ + unit)) == Some(n),
{
    reveal_strlit("MemTotal:");
    reveal_strlit("MemAvailable:");
    reveal_strlit(" ");
    let d = number::dec(n);
    number::lemma_dec(n);
    number::law_parse_dec(n, u64::MAX as nat);
    assert(forall|i: int| 0 <= i < d.len() ==> number::is_digit(#[trigger] d[i]));
    let line = heading + (gap + d + " "@ + unit);
    let after = gap.skip(1) + (d + " "@ + unit);
    assert(line =~= heading + seq![gap[0]] + after);
    text::law_words_head(heading, gap[0], after);
    assert(forall|i: int| 0 <= i < gap.skip(1).len() ==> #[trigger] gap.skip(1)[i] == gap[i + 1]);
    text::lemma_words_padded(gap.skip(1), d + " "@ + unit);
    assert(d + " "@ + unit =~= d + seq![' '] + unit);
    text::law_words_head(d, ' ', unit);
    let w = text::words(line);
    assert(w == seq![heading] + (seq![d] + text::words(unit)));
    assert(w[1] == d);
}

/// The model is what the first line that begins with `model name` says after its
/// colon, cleaned; lines before it are passed over.
pub proof fn law_model_line(
    other: Seq<char>,
    pad: Seq<char>,
    model: Seq<char>,
    rest: Seq<Seq<char>>,
)
    requires
        !text::starts_with(other, "model name"@),
        text::lacks(pad, ':'),
    ensures
        model_in(seq![other] + rest) == model_in(rest),
        model_in(seq!["model name"@ + pad + ":"@ + model] + rest) == Some(short_model(model)),
        model_in(seq!["model name"@ + pad] + rest) is None,
        model_in(Seq::<Seq<char>>::empty()) is None,
{
    reveal_strlit("model name");
    reveal_strlit(":");
    assert((seq![other] + rest).skip(1) =~= rest);
    let line = "model name"@ + pad + ":"@ + model;
    let plain = "model name"@ + pad;
    assert(line.subrange(0, 10) =~= "model name"@);
    assert(plain.subrange(0, 10) =~= "model name"@);
    let at = plain.len() as int;
    assert(line.subrange(at, at + 1) =~= ":"@);
    assert forall|k: int| 0 <= k < at implies #[trigger] line[k] != ':' && plain[k] != ':' by {
        if k >= 10 {
            assert(line[k] == pad[k - 10] && plain[k] == pad[k - 10]);
        }
    }
    text::lemma_found_by_head(line, ":"@, at);
    assert(line.skip(at + 1) =~= model);
    text::lemma_find(plain, ":"@);
    if text::find(plain, ":"@) is Some {
        let i = text::find(plain, ":"@)->0;
        assert(plain.subrange(i, i + 1)[0] == plain[i]);
    }
}

/// A model is shown without the marks that it bears, one of each, and otherwise
/// as it is written.
pub proof fn law_short_model(a: Seq<char>, b: Seq<char>, c: Seq<char>)
    requires
        text::lacks(a, '('),
        text::lacks(b, '('),
        text::lacks(c, '('),
        text::is_trimmed(a),
        text::is_trimmed(c),
        !text::contains(a + b + c, "  "@),
        !text::contains(a, "  "@),
    ensures
        short_model(a + "(R)"@ + b + "(TM)"@ + c) == a + b + c,
        short_model(a) == a,
{
    reveal_strlit("(R)");
    reveal_strlit("(TM)");
    reveal_strlit("");
    let none = Seq::<char>::empty();
    let model = a + "(R)"@ + b + "(TM)"@ + c;
    let tail = b + "(TM)"@ + c;
    let plain = a + b + c;
    assert(none + model + none =~= model);
    assert(model[0] == a[0] && model.last() == c.last());
    text::law_trim_between(none, model, none);
    assert(model =~= a + "(R)"@ + tail);
    text::law_replace_head(a, "(R)"@, tail, ""@);
    text::lemma_find(tail, "(R)"@);
    if text::find(tail, "(R)"@) is Some {
        let i = text::find(tail, "(R)"@)->0;
        assert(tail.subrange(i, i + 3)[0] == tail[i]);
        assert(tail.subrange(i, i + 3)[1] == tail[i + 1]);
        if i < b.len() {
            assert(tail[i] == b[i]);
        } else if i >= b.len() + 4 {
            assert(tail[i] == c[i - b.len() - 4]);
        } else {
            assert(i == b.len());
            assert(tail[i + 1] == 'T');
        }
    }
    assert(text::replace(tail, "(R)"@, ""@) == tail);
    let ab = a + b;
    assert(a + ""@ + tail =~= ab + "(TM)"@ + c);
    assert(forall|k: int|
        0 <= k < ab.len() ==> #[trigger] ab[k] == (if k < a.len() {
            a[k]
        } else {
            b[k - a.len()]
        }));
    text::law_replace_head(ab, "(TM)"@, c, ""@);
    text::law_replace_head(c, "(TM)"@, none, ""@);
    assert(ab + ""@ + c =~= plain);
    assert(text::replace(plain, "  "@, " "@) == plain);
    assert(plain[0] == a[0] && plain.last() == c.last());
    text::law_trim_between(none, plain, none);
    assert(none + plain + none =~= plain);
    text::law_trim_between(none, a, none);
    assert(none + a + none =~= a);
    text::law_replace_head(a, "(R)"@, none, ""@);
    text::law_replace_head(a, "(TM)"@, none, ""@);
}


/// The temperature of the processor is that of a zone: the first that holds, in
/// lower case, a part of the best rank that the name of any zone holds, or the
/// first of all where none holds any. That of the graphics is found likewise, and
/// is not known where no zone holds a part.
pub proof fn law_temperatures_of_zones(info: SystemInfo, files: SystemFiles)
    requires
        shows(info, files),
    ensures
        ({
            let zones = info.thermal_zones@;
            let names = Seq::new(zones.len(), |i: int| unicode::lowercase(zones[i].name@));
            let cpu = seq![
                "x86_pkg_temp"@,
                "package id 0"@,
                "coretemp"@,
                "tdie"@,
                "tctl"@,
                "k10temp"@,
                "acpitz"@,
            ];
            let gpu = seq!["nouveau"@, "amdgpu"@, "nvidia"@, "gpu"@];
            &&& zones.len() > 0 ==> {
                ||| exists|rank: int, i: int|
                    info.cpu_temp == Some(zones[i].temp) && #[trigger] ranks_best(
                        names,
                        cpu,
                        rank,
                        i,
                    )
                ||| info.cpu_temp == Some(zones[0].temp) && no_match_before(names, cpu, 7)
            }
            &&& zones.len() == 0 ==> info.cpu_temp is None && info.gpu_temp is None
            &&& info.gpu_temp is Some ==> exists|rank: int, i: int|
                info.gpu_temp == Some(zones[i].temp) && #[trigger] ranks_best(names, gpu, rank, i)
            &&& info.gpu_temp is None ==> no_match_before(names, gpu, 4)
        }),
{
    let zones = info.thermal_zones@;
    let names = Seq::new(zones.len(), |i: int| unicode::lowercase(zones[i].name@));
    assert(names =~= lower_names(zones));
    law_cpu_zone_ranked(names);
    law_gpu_zone_ranked(names);
    let cpu = seq![
        "x86_pkg_temp"@,
        "package id 0"@,
        "coretemp"@,
        "tdie"@,
        "tctl"@,
        "k10temp"@,
        "acpitz"@,
    ];
    let gpu = seq!["nouveau"@, "amdgpu"@, "nvidia"@, "gpu"@];
    if zones.len() > 0 {
        let i = cpu_zone(names)->0;
        if exists|rank: int| ranks_best(names, cpu, rank, i) {
            let rank = choose|rank: int| ranks_best(names, cpu, rank, i);
            assert(info.cpu_temp == Some(zones[i].temp) && ranks_best(names, cpu, rank, i));
        }
    }
    if gpu_zone(names) is Some {
        let i = gpu_zone(names)->0;
        let rank = choose|rank: int| ranks_best(names, gpu, rank, i);
        assert(info.gpu_temp == Some(zones[i].temp) && ranks_best(names, gpu, rank, i));
    }
}

} // verus!

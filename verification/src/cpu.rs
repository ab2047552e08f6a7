//! The processor: thermal profile, frequency and power limits.

use crate::number::{self, number_text, read_u32};
use crate::process;
use crate::sysutil::{self, prefixed, reads_as, write_asus, WriteRequest};
use crate::text::{self, chars_of, is_text, same_str, string_of, trimmed, words_of};
use vstd::prelude::*;
use vstd::string::*;

verus! {

/// The file that turns the boost of the processor on and off.
pub const BOOST_PATH: &'static str = "/sys/devices/system/cpu/cpufreq/boost";

/// Where the kernel keeps the files of each processor.
pub const CPU_PATH: &'static str = "/sys/devices/system/cpu/cpu";

/// The greatest power limit that can be chosen, in watts.
pub const MAX_WATTS: u32 = 150;

/// The greatest temperature target that can be chosen, in degrees Celsius.
pub const MAX_DEGREES: u32 = 100;

// ── Thermal profile ─────────────────────────────────────────────────────────

/// How the firmware trades noise for speed.
#[derive(Debug, Clone, Copy, PartialEq, Eq, Structural)]
pub enum ThermalProfile {
    Silent,
    Balanced,
    Turbo,
    Unknown,
}

/// The profile that the firmware's number for it means.
pub open spec fn profile_of(value: Seq<char>) -> ThermalProfile {
    if value == "0"@ {
        ThermalProfile::Silent
    } else if value == "1"@ {
        ThermalProfile::Balanced
    } else if value == "2"@ {
        ThermalProfile::Turbo
    } else {
        ThermalProfile::Unknown
    }
}

impl ThermalProfile {
    /// The name of the profile.
    pub open spec fn spec_label(self) -> Seq<char> {
        match self {
            ThermalProfile::Silent => "Silent"@,
            ThermalProfile::Balanced => "Balanced"@,
            ThermalProfile::Turbo => "Turbo"@,
            ThermalProfile::Unknown => "Unknown"@,
        }
    }

    /// What the profile does.
    pub open spec fn spec_description(self) -> Seq<char> {
        match self {
            ThermalProfile::Silent => "Quietest fans, lowest power, best battery"@,
            ThermalProfile::Balanced => "Adaptive fan curve for everyday use"@,
            ThermalProfile::Turbo => "Max fan + max power, use when plugged in"@,
            ThermalProfile::Unknown => ""@,
        }
    }

    /// The firmware's number for the profile.
    pub open spec fn spec_value(self) -> Seq<char> {
        match self {
            ThermalProfile::Silent => "0"@,
            ThermalProfile::Balanced => "1"@,
            ThermalProfile::Turbo => "2"@,
            ThermalProfile::Unknown => "1"@,
        }
    }

    /// The profiles that can be chosen.
    pub open spec fn spec_variants() -> Seq<ThermalProfile> {
        seq![ThermalProfile::Silent, ThermalProfile::Balanced, ThermalProfile::Turbo]
    }

    /// The position of the profile among those that can be chosen.
    pub open spec fn spec_index(self) -> int {
        match self {
            ThermalProfile::Silent => 0,
            ThermalProfile::Balanced => 1,
            ThermalProfile::Turbo => 2,
            ThermalProfile::Unknown => 1,
        }
    }

    /// The profile before this one, where there is one.
    pub open spec fn previous(self) -> ThermalProfile {
        Self::spec_variants()[if self.spec_index() > 0 {
            self.spec_index() - 1
        } else {
            0
        }]
    }

    /// The profile after this one, where there is one.
    pub open spec fn next(self) -> ThermalProfile {
        Self::spec_variants()[if self.spec_index() < 2 {
            self.spec_index() + 1
        } else {
            2
        }]
    }

    /// The name of the profile.
    pub fn label(self) -> (r: &'static str)
        ensures
            r@ == self.spec_label(),
    {
        match self {
            ThermalProfile::Silent => "Silent",
            ThermalProfile::Balanced => "Balanced",
            ThermalProfile::Turbo => "Turbo",
            ThermalProfile::Unknown => "Unknown",
        }
    }

    /// What the profile does.
    pub fn description(self) -> (r: &'static str)
        ensures
            r@ == self.spec_description(),
    {
        match self {
            ThermalProfile::Silent => "Quietest fans, lowest power, best battery",
            ThermalProfile::Balanced => "Adaptive fan curve for everyday use",
            ThermalProfile::Turbo => "Max fan + max power, use when plugged in",
            ThermalProfile::Unknown => "",
        }
    }

    /// The firmware's number for the profile.
    pub fn sysfs_value(self) -> (r: &'static str)
        ensures
            r@ == self.spec_value(),
    {
        match self {
            ThermalProfile::Silent => "0",
            ThermalProfile::Balanced => "1",
            ThermalProfile::Turbo => "2",
            ThermalProfile::Unknown => "1",
        }
    }

    /// The profile that the firmware's number for it means.
    pub fn from_sysfs(s: &str) -> (r: Self)
        ensures
            r == profile_of(text::trim(s@)),
    {
        let v = chars_of(s);
        let value = trimmed(v.as_slice());
        if is_text(value, "0") {
            ThermalProfile::Silent
        } else if is_text(value, "1") {
            ThermalProfile::Balanced
        } else if is_text(value, "2") {
            ThermalProfile::Turbo
        } else {
            ThermalProfile::Unknown
        }
    }

    /// The profiles that can be chosen.
    pub fn variants() -> (r: [Self; 3])
        ensures
            r@ == Self::spec_variants(),
    {
        let r = [ThermalProfile::Silent, ThermalProfile::Balanced, ThermalProfile::Turbo];
        assert(r@ =~= Self::spec_variants());
        r
    }

    /// The position of the profile among those that can be chosen.
    pub fn index(self) -> (r: usize)
        ensures
            r == self.spec_index(),
            r < 3,
    {
        match self {
            ThermalProfile::Silent => 0,
            ThermalProfile::Balanced => 1,
            ThermalProfile::Turbo => 2,
            ThermalProfile::Unknown => 1,
        }
    }
}

/// A profile that can be chosen stands at its position, and the firmware's
/// number for it means it.
pub proof fn law_profile_round_trip(p: ThermalProfile)
    requires
        ThermalProfile::spec_variants().contains(p),
    ensures
        ThermalProfile::spec_variants()[p.spec_index()] == p,
        profile_of(text::trim(p.spec_value())) == p,
{
    reveal_strlit("0");
    reveal_strlit("1");
    reveal_strlit("2");
    assert(text::trim(p.spec_value()) == p.spec_value());
    assert("0"@[0] == '0' && "1"@[0] == '1' && "2"@[0] == '2');
}

// ── Power limits ────────────────────────────────────────────────────────────

/// The limits that the firmware lets be set.
#[derive(Debug, Clone, Copy, PartialEq, Eq, Structural)]
pub enum PptKind {
    ApuSppt,
    Fppt,
    Pl1Spl,
    Pl2Sppt,
    NvBoost,
    NvTempTarget,
}

impl PptKind {
    /// The name of the limit.
    pub open spec fn spec_label(self) -> Seq<char> {
        match self {
            PptKind::ApuSppt => "sustained (APU)"@,
            PptKind::Fppt => "fast"@,
            PptKind::Pl1Spl => "PL1"@,
            PptKind::Pl2Sppt => "PL2"@,
            PptKind::NvBoost => "NVIDIA dynamic boost"@,
            PptKind::NvTempTarget => "NVIDIA temp target"@,
        }
    }

    /// What the limit bounds.
    pub open spec fn spec_description(self) -> Seq<char> {
        match self {
            PptKind::ApuSppt => "Sustained power limit of processor and integrated graphics"@,
            PptKind::Fppt => "Power limit of short bursts"@,
            PptKind::Pl1Spl => "Sustained power limit of the processor"@,
            PptKind::Pl2Sppt => "Power limit of the processor under changing load"@,
            PptKind::NvBoost => "Power that the NVIDIA GPU may take from the processor"@,
            PptKind::NvTempTarget => "Temperature at which the NVIDIA GPU throttles"@,
        }
    }

    /// The file of the limit.
    pub open spec fn spec_file(self) -> Seq<char> {
        match self {
            PptKind::ApuSppt => "ppt_apu_sppt"@,
            PptKind::Fppt => "ppt_fppt"@,
            PptKind::Pl1Spl => "ppt_pl1_spl"@,
            PptKind::Pl2Sppt => "ppt_pl2_sppt"@,
            PptKind::NvBoost => "nv_dynamic_boost"@,
            PptKind::NvTempTarget => "nv_temp_target"@,
        }
    }

    /// The greatest value of the limit that can be chosen.
    pub open spec fn spec_max(self) -> u32 {
        if self is NvTempTarget {
            MAX_DEGREES
        } else {
            MAX_WATTS
        }
    }

    /// The name of the limit.
    pub fn label(self) -> (r: &'static str)
        ensures
            r@ == self.spec_label(),
    {
        match self {
            PptKind::ApuSppt => "sustained (APU)",
            PptKind::Fppt => "fast",
            PptKind::Pl1Spl => "PL1",
            PptKind::Pl2Sppt => "PL2",
            PptKind::NvBoost => "NVIDIA dynamic boost",
            PptKind::NvTempTarget => "NVIDIA temp target",
        }
    }

    /// What the limit bounds.
    pub fn description(self) -> (r: &'static str)
        ensures
            r@ == self.spec_description(),
    {
        match self {
            PptKind::ApuSppt => "Sustained power limit of processor and integrated graphics",
            PptKind::Fppt => "Power limit of short bursts",
            PptKind::Pl1Spl => "Sustained power limit of the processor",
            PptKind::Pl2Sppt => "Power limit of the processor under changing load",
            PptKind::NvBoost => "Power that the NVIDIA GPU may take from the processor",
            PptKind::NvTempTarget => "Temperature at which the NVIDIA GPU throttles",
        }
    }

    /// The file of the limit.
    pub fn file(self) -> (r: &'static str)
        ensures
            r@ == self.spec_file(),
    {
        match self {
            PptKind::ApuSppt => "ppt_apu_sppt",
            PptKind::Fppt => "ppt_fppt",
            PptKind::Pl1Spl => "ppt_pl1_spl",
            PptKind::Pl2Sppt => "ppt_pl2_sppt",
            PptKind::NvBoost => "nv_dynamic_boost",
            PptKind::NvTempTarget => "nv_temp_target",
        }
    }

    /// The greatest value of the limit that can be chosen.
    pub fn max(self) -> (r: u32)
        ensures
            r == self.spec_max(),
    {
        match self {
            PptKind::NvTempTarget => MAX_DEGREES,
            _ => MAX_WATTS,
        }
    }
}

/// The values of the limits; none where the firmware has no such limit.
#[derive(Debug, Clone, Copy, PartialEq, Eq, Structural)]
pub struct PptLimits {
    pub apu_sppt: Option<u32>,
    pub fppt: Option<u32>,
    pub pl1_spl: Option<u32>,
    pub pl2_sppt: Option<u32>,
    pub nv_boost: Option<u32>,
    pub nv_temp_target: Option<u32>,
}

impl PptLimits {
    /// The value of a limit.
    pub open spec fn spec_get(self, kind: PptKind) -> Option<u32> {
        match kind {
            PptKind::ApuSppt => self.apu_sppt,
            PptKind::Fppt => self.fppt,
            PptKind::Pl1Spl => self.pl1_spl,
            PptKind::Pl2Sppt => self.pl2_sppt,
            PptKind::NvBoost => self.nv_boost,
            PptKind::NvTempTarget => self.nv_temp_target,
        }
    }

    /// The limits with one of them changed.
    pub open spec fn spec_with(self, kind: PptKind, v: Option<u32>) -> PptLimits {
        match kind {
            PptKind::ApuSppt => PptLimits { apu_sppt: v, ..self },
            PptKind::Fppt => PptLimits { fppt: v, ..self },
            PptKind::Pl1Spl => PptLimits { pl1_spl: v, ..self },
            PptKind::Pl2Sppt => PptLimits { pl2_sppt: v, ..self },
            PptKind::NvBoost => PptLimits { nv_boost: v, ..self },
            PptKind::NvTempTarget => PptLimits { nv_temp_target: v, ..self },
        }
    }

    /// The value of a limit.
    pub fn get(&self, kind: PptKind) -> (r: Option<u32>)
        ensures
            r == self.spec_get(kind),
    {
        match kind {
            PptKind::ApuSppt => self.apu_sppt,
            PptKind::Fppt => self.fppt,
            PptKind::Pl1Spl => self.pl1_spl,
            PptKind::Pl2Sppt => self.pl2_sppt,
            PptKind::NvBoost => self.nv_boost,
            PptKind::NvTempTarget => self.nv_temp_target,
        }
    }

    /// Changes one of the limits.
    pub fn set(&mut self, kind: PptKind, v: Option<u32>)
        ensures
            *final(self) == old(self).spec_with(kind, v),
    {
        match kind {
            PptKind::ApuSppt => {
                self.apu_sppt = v;
            },
            PptKind::Fppt => {
                self.fppt = v;
            },
            PptKind::Pl1Spl => {
                self.pl1_spl = v;
            },
            PptKind::Pl2Sppt => {
                self.pl2_sppt = v;
            },
            PptKind::NvBoost => {
                self.nv_boost = v;
            },
            PptKind::NvTempTarget => {
                self.nv_temp_target = v;
            },
        }
    }
}

/// A limit one lower, not below zero.
pub open spec fn lowered(v: Option<u32>) -> Option<u32> {
    match v {
        Some(n) if n > 0 => Some((n - 1) as u32),
        _ => v,
    }
}

/// A limit one higher, not above `max`.
pub open spec fn raised(v: Option<u32>, max: u32) -> Option<u32> {
    match v {
        Some(n) => if n < max {
            Some((n + 1) as u32)
        } else {
            Some(max)
        },
        None => None,
    }
}

/// A step keeps a limit within its bound, and a step down undoes a step up that
/// did not start at the bound.
pub proof fn law_limit_steps(v: u32, max: u32)
    requires
        v <= max,
    ensures
        lowered(Some(v)) matches Some(n) && n <= max,
        raised(Some(v), max) matches Some(n) && n <= max,
        v < max ==> lowered(raised(Some(v), max)) == Some(v),
{
}

// ── Choices ─────────────────────────────────────────────────────────────────

/// A setting of the kernel with the values that it can have.
pub struct Choice {
    pub current: String,
    pub available: Vec<String>,
}

/// The first position of a value among those available, zero where it is none
/// of them.
pub open spec fn choice_at(available: Seq<Seq<char>>, value: Seq<char>) -> int {
    match first_at(available, value) {
        Some(i) => i,
        None => 0,
    }
}

/// The first position of a value among those available.
pub open spec fn first_at(available: Seq<Seq<char>>, value: Seq<char>) -> Option<int>
    decreases available.len(),
{
    if available.len() == 0 {
        None
    } else if available[0] == value {
        Some(0)
    } else {
        match first_at(available.skip(1), value) {
            Some(i) => Some(i + 1),
            None => None,
        }
    }
}

impl Choice {
    /// The value before the given one, where there is one; the given one where
    /// none are available.
    pub open spec fn spec_previous(&self, value: String) -> String {
        if self.available@.len() == 0 {
            value
        } else {
            let i = choice_at(process::strings(self.available@), value@);
            self.available@[if i > 0 {
                i - 1
            } else {
                0
            }]
        }
    }

    /// The value after the given one, where there is one; the given one where
    /// none are available.
    pub open spec fn spec_next(&self, value: String) -> String {
        if self.available@.len() == 0 {
            value
        } else {
            let i = choice_at(process::strings(self.available@), value@);
            self.available@[if i + 1 < self.available@.len() {
                i + 1
            } else {
                self.available@.len() - 1
            }]
        }
    }

    /// The first position of a value among those available.
    fn position(&self, value: &String) -> (r: usize)
        ensures
            r == choice_at(process::strings(self.available@), value@),
            self.available@.len() > 0 ==> r < self.available@.len(),
    {
        let ghost all = process::strings(self.available@);
        let mut i: usize = 0;
        assert(all.skip(0) =~= all);
        while i < self.available.len()
            invariant
                i <= self.available@.len(),
                all == process::strings(self.available@),
                match first_at(all, value@) {
                    Some(k) => first_at(all.skip(i as int), value@) == Some(k - i),
                    None => first_at(all.skip(i as int), value@) is None,
                },
            decreases self.available@.len() - i,
        {
            assert(all.skip(i as int)[0] == self.available@[i as int]@);
            assert(all.skip(i as int).skip(1) =~= all.skip(i + 1));
            if same_str(self.available[i].as_str(), value.as_str()) {
                return i;
            }
            i += 1;
        }
        0
    }

    /// The value before the given one, where there is one.
    pub fn previous(&self, value: &String) -> (r: String)
        ensures
            r == self.spec_previous(*value),
    {
        if self.available.len() == 0 {
            return value.clone();
        }
        let i: usize = self.position(value);
        self.available[if i > 0 {
            i - 1
        } else {
            0
        }].clone()
    }

    /// The value after the given one, where there is one.
    pub fn next(&self, value: &String) -> (r: String)
        ensures
            r == self.spec_next(*value),
    {
        if self.available.len() == 0 {
            return value.clone();
        }
        let i: usize = self.position(value);
        self.available[if i + 1 < self.available.len() {
            i + 1
        } else {
            self.available.len() - 1
        }].clone()
    }
}

proof fn lemma_first_at(available: Seq<Seq<char>>, value: Seq<char>)
    ensures
        first_at(available, value) matches Some(i) ==> 0 <= i < available.len() && available[i]
            == value,
    decreases available.len(),
{
    if available.len() > 0 && available[0] != value {
        lemma_first_at(available.skip(1), value);
    }
}

proof fn lemma_first_of(available: Seq<Seq<char>>, i: int)
    requires
        0 <= i < available.len(),
        available.no_duplicates(),
    ensures
        first_at(available, available[i]) == Some(i),
    decreases available.len(),
{
    if i > 0 {
        assert(available.skip(1)[i - 1] == available[i]);
        lemma_first_of(available.skip(1), i - 1);
    }
}

/// Where a setting has values, a step down or up leads to one of them.
pub proof fn law_choice_available(c: Choice, value: String)
    requires
        c.available@.len() > 0,
    ensures
        c.available@.contains(c.spec_previous(value)),
        c.available@.contains(c.spec_next(value)),
{
    let all = process::strings(c.available@);
    lemma_first_at(all, value@);
    let i = choice_at(all, value@);
    let p = if i > 0 {
        i - 1
    } else {
        0
    };
    let n = if i + 1 < c.available@.len() {
        i + 1
    } else {
        c.available@.len() - 1
    };
    assert(c.spec_previous(value) == c.available@[p]);
    assert(c.spec_next(value) == c.available@[n]);
}

/// Among values of which none stands twice, a step down undoes a step up that
/// did not start at the last.
pub proof fn law_choice_step_undone(c: Choice, i: int)
    requires
        process::strings(c.available@).no_duplicates(),
        0 <= i,
        i + 1 < c.available@.len(),
    ensures
        c.spec_next(c.available@[i]) == c.available@[i + 1],
        c.spec_previous(c.available@[i + 1]) == c.available@[i],
{
    let all = process::strings(c.available@);
    assert(all[i] == c.available@[i]@);
    assert(all[i + 1] == c.available@[i + 1]@);
    lemma_first_of(all, i);
    lemma_first_of(all, i + 1);
}

/// `c` is what the two files of a setting say: its value, and those that it can
/// have; empty where they cannot be read.
pub open spec fn choice_shows(
    c: Choice,
    current: Option<String>,
    available: Option<String>,
) -> bool {
    &&& c.current@ == (match current {
        Some(s) => text::trim(s@),
        None => seq![],
    })
    &&& process::strings(c.available@) == (match available {
        Some(s) => text::words(s@),
        None => seq![],
    })
}

/// What the two files of a setting say.
pub fn read_choice(current: &Option<String>, available: &Option<String>) -> (r: Choice)
    ensures
        choice_shows(r, *current, *available),
{
    let current = match current {
        Some(s) => text::trimmed_string(s.as_str()),
        None => String::new(),
    };
    let mut values: Vec<String> = Vec::new();
    assert(process::strings(values@) =~= seq![]);
    if let Some(s) = available {
        let chars = chars_of(s.as_str());
        let words = words_of(chars.as_slice());
        let mut i: usize = 0;
        while i < words.len()
            invariant
                i <= words@.len(),
                values@.len() == i,
                forall|k: int| 0 <= k < i ==> (#[trigger] values@[k])@ == words@[k]@,
            decreases words@.len() - i,
        {
            values.push(string_of(words[i]));
            i += 1;
        }
        assert(process::strings(values@) =~= text::views(words@));
    }
    Choice { current, available: values }
}

// ── The processor ───────────────────────────────────────────────────────────

/// The processor that is managed.
pub struct CpuManager {
    pub thermal_profile: ThermalProfile,
    pub pending_thermal: ThermalProfile,
    pub governor: Choice,
    pub pending_governor: String,
    /// The energy performance preference.
    pub epp: Choice,
    pub pending_epp: String,
    pub boost_enabled: bool,
    pub pending_boost: bool,
    pub ppt: PptLimits,
    pub pending_ppt: PptLimits,
    /// The temperature in thousandths of a degree Celsius.
    pub cpu_temp: Option<i64>,
    pub fan_cpu_rpm: Option<u32>,
    pub fan_gpu_rpm: Option<u32>,
    pub asus_wmi_available: bool,
    pub boost_available: bool,
}

/// What the files of the two fans say; none where one cannot be read.
pub struct FanFiles {
    pub fan1_label: Option<String>,
    pub fan1_input: Option<String>,
    pub fan2_label: Option<String>,
    pub fan2_input: Option<String>,
}

/// What the files of the limits say; none where one cannot be read.
pub struct PptFiles {
    pub apu_sppt: Option<String>,
    pub fppt: Option<String>,
    pub pl1_spl: Option<String>,
    pub pl2_sppt: Option<String>,
    pub nv_boost: Option<String>,
    pub nv_temp_target: Option<String>,
}

/// What the files of the processor say; none where one cannot be read.
pub struct CpuFiles {
    pub thermal_policy: Option<String>,
    pub fans: Vec<FanFiles>,
    pub governor: Option<String>,
    pub governors: Option<String>,
    pub epp: Option<String>,
    pub epps: Option<String>,
    pub boost: Option<String>,
    pub ppt: PptFiles,
}

/// The `u32` that a file writes.
pub open spec fn u32_in(file: Option<String>) -> Option<u32> {
    match file {
        Some(s) => match number::parse_nat(text::trim(s@), u32::MAX as nat) {
            Some(n) => Some(n as u32),
            None => None,
        },
        None => None,
    }
}

/// The `u32` that a file writes.
fn read_u32_in(file: &Option<String>) -> (r: Option<u32>)
    ensures
        r == u32_in(*file),
{
    match file {
        Some(s) => {
            let v = chars_of(s.as_str());
            read_u32(trimmed(v.as_slice()))
        },
        None => None,
    }
}

/// The profile that the firmware's file shows.
pub open spec fn profile_in(file: Option<String>) -> ThermalProfile {
    match file {
        Some(s) => profile_of(text::trim(s@)),
        None => ThermalProfile::Unknown,
    }
}

/// The speed of the processor's fan: that which the last of the sensors with
/// such a fan gives, or `was` where there is none.
pub open spec fn cpu_fan(fans: Seq<FanFiles>, was: Option<u32>) -> Option<u32>
    decreases fans.len(),
{
    if fans.len() == 0 {
        was
    } else if sysutil::reads(fans.last().fan1_label, "cpu_fan"@) {
        u32_in(fans.last().fan1_input)
    } else {
        cpu_fan(fans.drop_last(), was)
    }
}

/// The speed of the graphics' fan: that which the last of the sensors with such
/// a fan gives, or `was` where there is none.
pub open spec fn gpu_fan(fans: Seq<FanFiles>, was: Option<u32>) -> Option<u32>
    decreases fans.len(),
{
    if fans.len() == 0 {
        was
    } else if sysutil::reads(fans.last().fan2_label, "gpu_fan"@) {
        u32_in(fans.last().fan2_input)
    } else {
        gpu_fan(fans.drop_last(), was)
    }
}

/// The limits that the files give.
pub open spec fn limits_in(f: PptFiles) -> PptLimits {
    PptLimits {
        apu_sppt: u32_in(f.apu_sppt),
        fppt: u32_in(f.fppt),
        pl1_spl: u32_in(f.pl1_spl),
        pl2_sppt: u32_in(f.pl2_sppt),
        nv_boost: u32_in(f.nv_boost),
        nv_temp_target: u32_in(f.nv_temp_target),
    }
}

/// `new` is `old` with what the files say taken over; what is chosen but not
/// yet set stays.
pub open spec fn refreshed(
    old: CpuManager,
    files: CpuFiles,
    cpu_temp: Option<i64>,
    new: CpuManager,
) -> bool {
    &&& new.thermal_profile == (if old.asus_wmi_available {
        profile_in(files.thermal_policy)
    } else {
        old.thermal_profile
    })
    &&& new.fan_cpu_rpm == (if old.asus_wmi_available {
        cpu_fan(files.fans@, old.fan_cpu_rpm)
    } else {
        old.fan_cpu_rpm
    })
    &&& new.fan_gpu_rpm == (if old.asus_wmi_available {
        gpu_fan(files.fans@, old.fan_gpu_rpm)
    } else {
        old.fan_gpu_rpm
    })
    &&& new.ppt == (if old.asus_wmi_available {
        limits_in(files.ppt)
    } else {
        old.ppt
    })
    &&& new.cpu_temp == cpu_temp
    &&& new.boost_enabled == (if old.boost_available {
        u32_in(files.boost) == Some(1u32)
    } else {
        old.boost_enabled
    })
    &&& choice_shows(new.governor, files.governor, files.governors)
    &&& choice_shows(new.epp, files.epp, files.epps)
    &&& new.pending_thermal == old.pending_thermal
    &&& new.pending_governor == old.pending_governor
    &&& new.pending_epp == old.pending_epp
    &&& new.pending_boost == old.pending_boost
    &&& new.pending_ppt == old.pending_ppt
    &&& new.asus_wmi_available == old.asus_wmi_available
    &&& new.boost_available == old.boost_available
}

/// The file of a setting of one processor.
pub open spec fn cpu_file(cpu: nat, file: Seq<char>) -> Seq<char> {
    CPU_PATH@ + number::dec(cpu) + "/cpufreq/"@ + file
}

/// The limit that a row of the processor's settings changes.
pub open spec fn kind_of_section(section: int) -> PptKind {
    if section == 4 {
        PptKind::ApuSppt
    } else if section == 5 {
        PptKind::Fppt
    } else if section == 6 {
        PptKind::Pl1Spl
    } else if section == 7 {
        PptKind::Pl2Sppt
    } else if section == 8 {
        PptKind::NvBoost
    } else {
        PptKind::NvTempTarget
    }
}

/// The limit that a row of the processor's settings changes.
pub fn section_kind(section: usize) -> (r: PptKind)
    requires
        4 <= section <= 9,
    ensures
        r == kind_of_section(section as int),
{
    if section == 4 {
        PptKind::ApuSppt
    } else if section == 5 {
        PptKind::Fppt
    } else if section == 6 {
        PptKind::Pl1Spl
    } else if section == 7 {
        PptKind::Pl2Sppt
    } else if section == 8 {
        PptKind::NvBoost
    } else {
        PptKind::NvTempTarget
    }
}

impl CpuManager {
    /// The processor, given which files exist and what they say. What is chosen
    /// at first is what is set.
    pub fn new(asus_wmi_available: bool, boost_available: bool, files: &CpuFiles) -> (r: Self)
        ensures
            r.asus_wmi_available == asus_wmi_available,
            r.boost_available == boost_available,
            r.thermal_profile == (if asus_wmi_available {
                profile_in(files.thermal_policy)
            } else {
                ThermalProfile::Unknown
            }),
            r.fan_cpu_rpm == (if asus_wmi_available {
                cpu_fan(files.fans@, None)
            } else {
                None
            }),
            r.fan_gpu_rpm == (if asus_wmi_available {
                gpu_fan(files.fans@, None)
            } else {
                None
            }),
            asus_wmi_available ==> r.ppt == limits_in(files.ppt),
            !asus_wmi_available ==> forall|k: PptKind| r.ppt.spec_get(k) is None,
            r.cpu_temp is None,
            r.boost_enabled == (boost_available && u32_in(files.boost) == Some(1u32)),
            choice_shows(r.governor, files.governor, files.governors),
            choice_shows(r.epp, files.epp, files.epps),
            r.pending_thermal == r.thermal_profile,
            r.pending_governor@ == r.governor.current@,
            r.pending_epp@ == r.epp.current@,
            r.pending_boost == r.boost_enabled,
            r.pending_ppt == r.ppt,
    {
        let none = PptLimits {
            apu_sppt: None,
            fppt: None,
            pl1_spl: None,
            pl2_sppt: None,
            nv_boost: None,
            nv_temp_target: None,
        };
        let mut r = CpuManager {
            thermal_profile: ThermalProfile::Unknown,
            pending_thermal: ThermalProfile::Unknown,
            governor: Choice { current: String::new(), available: Vec::new() },
            pending_governor: String::new(),
            epp: Choice { current: String::new(), available: Vec::new() },
            pending_epp: String::new(),
            boost_enabled: false,
            pending_boost: false,
            ppt: none,
            pending_ppt: none,
            cpu_temp: None,
            fan_cpu_rpm: None,
            fan_gpu_rpm: None,
            asus_wmi_available,
            boost_available,
        };
        r.refresh(files, None);
        r.pending_thermal = r.thermal_profile;
        r.pending_governor = r.governor.current.clone();
        r.pending_epp = r.epp.current.clone();
        r.pending_boost = r.boost_enabled;
        r.pending_ppt = r.ppt;
        r
    }

    /// Takes over what the files say, and the temperature.
    pub fn refresh(&mut self, files: &CpuFiles, cpu_temp: Option<i64>)
        ensures
            refreshed(*old(self), *files, cpu_temp, *final(self)),
    {
        if self.asus_wmi_available {
            self.thermal_profile = match &files.thermal_policy {
                Some(s) => ThermalProfile::from_sysfs(s.as_str()),
                None => ThermalProfile::Unknown,
            };
            self.read_fans(&files.fans);
            self.ppt = PptLimits {
                apu_sppt: read_u32_in(&files.ppt.apu_sppt),
                fppt: read_u32_in(&files.ppt.fppt),
                pl1_spl: read_u32_in(&files.ppt.pl1_spl),
                pl2_sppt: read_u32_in(&files.ppt.pl2_sppt),
                nv_boost: read_u32_in(&files.ppt.nv_boost),
                nv_temp_target: read_u32_in(&files.ppt.nv_temp_target),
            };
        }
        self.cpu_temp = cpu_temp;
        if self.boost_available {
            self.boost_enabled = match read_u32_in(&files.boost) {
                Some(v) => v == 1,
                None => false,
            };
        }
        self.governor = read_choice(&files.governor, &files.governors);
        self.epp = read_choice(&files.epp, &files.epps);
    }

    /// Takes over the speed of the fans.
    fn read_fans(&mut self, fans: &Vec<FanFiles>)
        ensures
            *final(self) == (CpuManager {
                fan_cpu_rpm: cpu_fan(fans@, old(self).fan_cpu_rpm),
                fan_gpu_rpm: gpu_fan(fans@, old(self).fan_gpu_rpm),
                ..*old(self)
            }),
    {
        let mut i: usize = 0;
        assert(fans@.take(0) =~= seq![]);
        while i < fans.len()
            invariant
                i <= fans@.len(),
                *self == (CpuManager {
                    fan_cpu_rpm: cpu_fan(fans@.take(i as int), old(self).fan_cpu_rpm),
                    fan_gpu_rpm: gpu_fan(fans@.take(i as int), old(self).fan_gpu_rpm),
                    ..*old(self)
                }),
            decreases fans@.len() - i,
        {
            assert(fans@.take(i + 1).drop_last() =~= fans@.take(i as int));
            assert(fans@.take(i + 1).last() == fans@[i as int]);
            if reads_as(&fans[i].fan1_label, "cpu_fan") {
                self.fan_cpu_rpm = read_u32_in(&fans[i].fan1_input);
            }
            if reads_as(&fans[i].fan2_label, "gpu_fan") {
                self.fan_gpu_rpm = read_u32_in(&fans[i].fan2_input);
            }
            i += 1;
        }
        assert(fans@.take(i as int) =~= fans@);
    }

    /// The processor after the chosen value of a setting went one down.
    pub open spec fn spec_lower(self, section: int) -> CpuManager {
        if section == 0 {
            CpuManager { pending_thermal: self.pending_thermal.previous(), ..self }
        } else if section == 1 {
            CpuManager {
                pending_governor: self.governor.spec_previous(self.pending_governor),
                ..self
            }
        } else if section == 2 {
            CpuManager { pending_epp: self.epp.spec_previous(self.pending_epp), ..self }
        } else if section == 3 {
            CpuManager { pending_boost: false, ..self }
        } else if 4 <= section <= 9 {
            let k = kind_of_section(section);
            CpuManager {
                pending_ppt: self.pending_ppt.spec_with(k, lowered(self.pending_ppt.spec_get(k))),
                ..self
            }
        } else {
            self
        }
    }

    /// The processor after the chosen value of a setting went one up.
    pub open spec fn spec_raise(self, section: int) -> CpuManager {
        if section == 0 {
            CpuManager { pending_thermal: self.pending_thermal.next(), ..self }
        } else if section == 1 {
            CpuManager {
                pending_governor: self.governor.spec_next(self.pending_governor),
                ..self
            }
        } else if section == 2 {
            CpuManager { pending_epp: self.epp.spec_next(self.pending_epp), ..self }
        } else if section == 3 {
            CpuManager { pending_boost: true, ..self }
        } else if 4 <= section <= 9 {
            let k = kind_of_section(section);
            CpuManager {
                pending_ppt: self.pending_ppt.spec_with(
                    k,
                    raised(self.pending_ppt.spec_get(k), k.spec_max()),
                ),
                ..self
            }
        } else {
            self
        }
    }

    /// Chooses the value before the chosen one of a setting: 0 the thermal
    /// profile, 1 the governor, 2 the energy preference, 3 the boost, 4 to 9
    /// the limits.
    pub fn lower(&mut self, section: usize)
        ensures
            *final(self) == old(self).spec_lower(section as int),
    {
        if section == 0 {
            let idx: usize = self.pending_thermal.index();
            self.pending_thermal = ThermalProfile::variants()[if idx > 0 {
                idx - 1
            } else {
                0
            }];
        } else if section == 1 {
            self.pending_governor = self.governor.previous(&self.pending_governor);
        } else if section == 2 {
            self.pending_epp = self.epp.previous(&self.pending_epp);
        } else if section == 3 {
            self.pending_boost = false;
        } else if 4 <= section && section <= 9 {
            let k = section_kind(section);
            let v: Option<u32> = match self.pending_ppt.get(k) {
                Some(n) => if n > 0 {
                    Some(n - 1)
                } else {
                    Some(n)
                },
                None => None,
            };
            self.pending_ppt.set(k, v);
        }
    }

    /// Chooses the value after the chosen one of a setting.
    pub fn raise(&mut self, section: usize)
        ensures
            *final(self) == old(self).spec_raise(section as int),
    {
        if section == 0 {
            let idx: usize = self.pending_thermal.index();
            self.pending_thermal = ThermalProfile::variants()[if idx < 2 {
                idx + 1
            } else {
                2
            }];
        } else if section == 1 {
            self.pending_governor = self.governor.next(&self.pending_governor);
        } else if section == 2 {
            self.pending_epp = self.epp.next(&self.pending_epp);
        } else if section == 3 {
            self.pending_boost = true;
        } else if 4 <= section && section <= 9 {
            let k = section_kind(section);
            let max: u32 = k.max();
            let v: Option<u32> = match self.pending_ppt.get(k) {
                Some(n) => if n < max {
                    Some(n + 1)
                } else {
                    Some(max)
                },
                None => None,
            };
            self.pending_ppt.set(k, v);
        }
    }

    /// The write that sets the chosen thermal profile.
    pub fn thermal_request(&self) -> (r: WriteRequest)
        ensures
            r.path@ == sysutil::ASUS_WMI@ + "/"@ + "throttle_thermal_policy"@,
            r.value@ == self.pending_thermal.spec_value(),
            self.pending_thermal !is Unknown ==> profile_in(Some(r.value)) == self.pending_thermal,
    {
        proof {
            if self.pending_thermal !is Unknown {
                law_profile_round_trip(self.pending_thermal);
            }
        }
        write_asus("throttle_thermal_policy", self.pending_thermal.sysfs_value())
    }

    /// Takes over what came of setting the chosen thermal profile.
    pub fn apply_thermal_profile(&mut self, written: Result<(), String>) -> (r: Result<(), String>)
        ensures
            r == written,
            *final(self) == (CpuManager {
                thermal_profile: if written is Ok {
                    old(self).pending_thermal
                } else {
                    old(self).thermal_profile
                },
                ..*old(self)
            }),
    {
        if written.is_ok() {
            self.thermal_profile = self.pending_thermal;
        }
        written
    }

    /// The write that turns the boost on or off as chosen.
    pub fn boost_request(&self) -> (r: WriteRequest)
        ensures
            r.path@ == BOOST_PATH@,
            r.value@ == (if self.pending_boost {
                "1"@
            } else {
                "0"@
            }),
            (u32_in(Some(r.value)) == Some(1u32)) == self.pending_boost,
    {
        let value: &str = if self.pending_boost {
            "1"
        } else {
            "0"
        };
        let r = WriteRequest { path: BOOST_PATH.to_owned(), value: value.to_owned() };
        proof {
            law_boost_read_back(*self, r.value);
        }
        r
    }

    /// Takes over what came of turning the boost on or off.
    pub fn apply_boost(&mut self, written: Result<(), String>) -> (r: Result<(), String>)
        ensures
            r == written,
            *final(self) == (CpuManager {
                boost_enabled: if written is Ok {
                    old(self).pending_boost
                } else {
                    old(self).boost_enabled
                },
                ..*old(self)
            }),
    {
        if written.is_ok() {
            self.boost_enabled = self.pending_boost;
        }
        written
    }

    /// The write that sets the chosen governor of one processor.
    pub fn governor_request(&self, cpu: usize) -> (r: WriteRequest)
        ensures
            r.path@ == cpu_file(cpu as nat, "scaling_governor"@),
            r.value@ == self.pending_governor@,
    {
        WriteRequest {
            path: cpu_path(cpu, "scaling_governor"),
            value: self.pending_governor.clone(),
        }
    }

    /// Takes over what came of setting the chosen governor.
    pub fn apply_governor(&mut self, written: Result<(), String>) -> (r: Result<(), String>)
        ensures
            r == written,
            final(self).governor.current == (if written is Ok {
                old(self).pending_governor
            } else {
                old(self).governor.current
            }),
            final(self).governor.available == old(self).governor.available,
            *final(self) == (CpuManager { governor: final(self).governor, ..*old(self) }),
    {
        if written.is_ok() {
            self.governor.current = self.pending_governor.clone();
        }
        written
    }

    /// The write that sets the chosen energy preference of one processor.
    pub fn epp_request(&self, cpu: usize) -> (r: WriteRequest)
        ensures
            r.path@ == cpu_file(cpu as nat, "energy_performance_preference"@),
            r.value@ == self.pending_epp@,
    {
        WriteRequest {
            path: cpu_path(cpu, "energy_performance_preference"),
            value: self.pending_epp.clone(),
        }
    }

    /// Takes over what came of setting the chosen energy preference.
    pub fn apply_epp(&mut self, written: Result<(), String>) -> (r: Result<(), String>)
        ensures
            r == written,
            final(self).epp.current == (if written is Ok {
                old(self).pending_epp
            } else {
                old(self).epp.current
            }),
            final(self).epp.available == old(self).epp.available,
            *final(self) == (CpuManager { epp: final(self).epp, ..*old(self) }),
    {
        if written.is_ok() {
            self.epp.current = self.pending_epp.clone();
        }
        written
    }

    /// The write that sets a limit as chosen; an error where the firmware has
    /// no such limit.
    pub fn ppt_request(&self, kind: PptKind) -> (r: Result<WriteRequest, String>)
        ensures
            match self.pending_ppt.spec_get(kind) {
                Some(v) => r matches Ok(w) && w.path@ == sysutil::ASUS_WMI@ + "/"@
                    + kind.spec_file() && w.value@ == number::dec(v as nat) && u32_in(
                    Some(w.value),
                ) == Some(v),
                None => r matches Err(e) && e@ == kind.spec_label() + " is not available"@,
            },
    {
        match self.pending_ppt.get(kind) {
            Some(v) => {
                let w = write_asus(kind.file(), number_text(v as u64).as_str());
                proof {
                    law_limit_read_back(v, w.value);
                }
                Ok(w)
            },
            None => Err(prefixed(kind.label(), " is not available")),
        }
    }

    /// Takes over what came of setting a limit.
    pub fn apply_ppt(&mut self, kind: PptKind, written: Result<(), String>) -> (r: Result<
        (),
        String,
    >)
        ensures
            r == written,
            *final(self) == (CpuManager {
                ppt: if written is Ok {
                    old(self).ppt.spec_with(kind, old(self).pending_ppt.spec_get(kind))
                } else {
                    old(self).ppt
                },
                ..*old(self)
            }),
    {
        if written.is_ok() {
            let v = self.pending_ppt.get(kind);
            self.ppt.set(kind, v);
        }
        written
    }
}

/// A profile that is written is the profile that is read back, where it can be
/// chosen.
pub proof fn law_profile_read_back(p: ThermalProfile, written: String)
    requires
        ThermalProfile::spec_variants().contains(p),
        written@ == p.spec_value(),
    ensures
        profile_in(Some(written)) == p,
{
    law_profile_round_trip(p);
}

/// The boost is read back as it was written.
pub proof fn law_boost_read_back(c: CpuManager, written: String)
    requires
        written@ == (if c.pending_boost {
            "1"@
        } else {
            "0"@
        }),
    ensures
        (u32_in(Some(written)) == Some(1u32)) == c.pending_boost,
{
    reveal_strlit("0");
    reveal_strlit("1");
    let n: nat = if c.pending_boost {
        1
    } else {
        0
    };
    assert(number::dec(n) =~= written@);
    number::lemma_dec(n);
    number::lemma_digits_trimmed(written@);
    number::law_parse_dec(n, u32::MAX as nat);
}

/// A limit that is written is the limit that is read back.
pub proof fn law_limit_read_back(v: u32, written: String)
    requires
        written@ == number::dec(v as nat),
    ensures
        u32_in(Some(written)) == Some(v),
{
    number::lemma_dec(v as nat);
    number::lemma_digits_trimmed(written@);
    number::law_parse_dec(v as nat, u32::MAX as nat);
}

/// The file of a setting of one processor.
fn cpu_path(cpu: usize, file: &str) -> (r: String)
    ensures
        r@ == cpu_file(cpu as nat, file@),
{
    let mut path: String = CPU_PATH.to_owned();
    path.append(number_text(cpu as u64).as_str());
    path.append("/cpufreq/");
    path.append(file);
    path
}

// ── Laws ────────────────────────────────────────────────────────────────────

/// The profiles go from the quietest to the fastest, numbered from zero on by
/// the firmware; left leads to the quieter one and right to the faster one, and
/// neither goes past an end. One that is unknown counts as the middle one.
pub proof fn law_profiles_ordered(p: ThermalProfile)
    ensures
        profile_of(number::dec(0)) == ThermalProfile::Silent,
        profile_of(number::dec(1)) == ThermalProfile::Balanced,
        profile_of(number::dec(2)) == ThermalProfile::Turbo,
        profile_of(p.spec_value()) == (if p is Unknown {
            ThermalProfile::Balanced
        } else {
            p
        }),
        p.previous() == (if p is Turbo {
            ThermalProfile::Balanced
        } else {
            ThermalProfile::Silent
        }),
        p.next() == (if p is Silent {
            ThermalProfile::Balanced
        } else {
            ThermalProfile::Turbo
        }),
        ThermalProfile::spec_variants().len() == 3,
        p !is Unknown ==> ThermalProfile::spec_variants()[p.spec_index()] == p,
{
    reveal_strlit("0");
    reveal_strlit("1");
    reveal_strlit("2");
    assert(number::dec(0) =~= "0"@);
    assert(number::dec(1) =~= "1"@);
    assert(number::dec(2) =~= "2"@);
    assert("0"@[0] == '0' && "1"@[0] == '1' && "2"@[0] == '2');
}

/// Only the numbers of the three profiles are read as one.
pub proof fn law_other_number_unknown(value: Seq<char>)
    requires
        value != number::dec(0),
        value != number::dec(1),
        value != number::dec(2),
    ensures
        profile_of(value) == ThermalProfile::Unknown,
{
    reveal_strlit("0");
    reveal_strlit("1");
    reveal_strlit("2");
    assert(number::dec(0) =~= "0"@);
    assert(number::dec(1) =~= "1"@);
    assert(number::dec(2) =~= "2"@);
}

/// A profile is told by its name and by what it does to fans and power.
pub proof fn law_profiles_described(p: ThermalProfile)
    ensures
        p is Silent ==> p.spec_label() == "Silent"@ && p.spec_description()
            == "Quietest fans, lowest power, best battery"@,
        p is Balanced ==> p.spec_label() == "Balanced"@ && p.spec_description()
            == "Adaptive fan curve for everyday use"@,
        p is Turbo ==> p.spec_label() == "Turbo"@ && p.spec_description()
            == "Max fan + max power, use when plugged in"@,
        p is Unknown ==> p.spec_label() == "Unknown"@ && p.spec_description() == ""@,
{
}

/// Each limit is stored in the file of the driver that is named after it, shown
/// under its own name, and bounded by degrees where it is a temperature, else by
/// watts.
pub proof fn law_limits_told_apart(k: PptKind)
    ensures
        k is ApuSppt ==> k.spec_file() == "ppt_apu_sppt"@ && k.spec_label() == "sustained (APU)"@,
        k is Fppt ==> k.spec_file() == "ppt_fppt"@ && k.spec_label() == "fast"@,
        k is Pl1Spl ==> k.spec_file() == "ppt_pl1_spl"@ && k.spec_label() == "PL1"@,
        k is Pl2Sppt ==> k.spec_file() == "ppt_pl2_sppt"@ && k.spec_label() == "PL2"@,
        k is NvBoost ==> k.spec_file() == "nv_dynamic_boost"@ && k.spec_label()
            == "NVIDIA dynamic boost"@,
        k is NvTempTarget ==> k.spec_file() == "nv_temp_target"@ && k.spec_label()
            == "NVIDIA temp target"@,
        k.spec_max() == (if k is NvTempTarget {
            100u32
        } else {
            150u32
        }),
{
}

/// What each limit is said to bound.
pub proof fn law_limits_described(k: PptKind)
    ensures
        k is ApuSppt ==> k.spec_description()
            == "Sustained power limit of processor and integrated graphics"@,
        k is Fppt ==> k.spec_description() == "Power limit of short bursts"@,
        k is Pl1Spl ==> k.spec_description() == "Sustained power limit of the processor"@,
        k is Pl2Sppt ==> k.spec_description() == "Power limit of the processor under changing load"@,
        k is NvBoost ==> k.spec_description()
            == "Power that the NVIDIA GPU may take from the processor"@,
        k is NvTempTarget ==> k.spec_description()
            == "Temperature at which the NVIDIA GPU throttles"@,
{
}

/// A limit that is changed has its new value, and every other limit keeps its
/// own.
pub proof fn law_limit_changed_alone(l: PptLimits, k: PptKind, v: Option<u32>, other: PptKind)
    ensures
        l.spec_with(k, v).spec_get(k) == v,
        other != k ==> l.spec_with(k, v).spec_get(other) == l.spec_get(other),
        l.spec_with(k, l.spec_get(k)) == l,
{
}

/// Each limit is the number in its own file, and is not there where that file
/// cannot be read or writes none.
pub proof fn law_limits_from_files(f: PptFiles, v: u32, text: String)
    requires
        text@ == number::dec(v as nat),
    ensures
        ({
            let l = limits_in(f);
            &&& limits_in(PptFiles { apu_sppt: Some(text), ..f }) == PptLimits {
                apu_sppt: Some(v),
                ..l
            }
            &&& limits_in(PptFiles { fppt: Some(text), ..f }) == PptLimits { fppt: Some(v), ..l }
            &&& limits_in(PptFiles { pl1_spl: Some(text), ..f }) == PptLimits {
                pl1_spl: Some(v),
                ..l
            }
            &&& limits_in(PptFiles { pl2_sppt: Some(text), ..f }) == PptLimits {
                pl2_sppt: Some(v),
                ..l
            }
            &&& limits_in(PptFiles { nv_boost: Some(text), ..f }) == PptLimits {
                nv_boost: Some(v),
                ..l
            }
            &&& limits_in(PptFiles { nv_temp_target: Some(text), ..f }) == PptLimits {
                nv_temp_target: Some(v),
                ..l
            }
            &&& f.apu_sppt is None ==> l.apu_sppt is None
            &&& f.fppt is None ==> l.fppt is None
            &&& f.pl1_spl is None ==> l.pl1_spl is None
            &&& f.pl2_sppt is None ==> l.pl2_sppt is None
            &&& f.nv_boost is None ==> l.nv_boost is None
            &&& f.nv_temp_target is None ==> l.nv_temp_target is None
        }),
{
    law_limit_read_back(v, text);
}

/// The speed of a fan is what the last sensor with that fan gives: the first
/// fan of a sensor may be the processor's and its second the graphics'. Where no
/// sensor has it, what was known stays.
pub proof fn law_fan_of_last_sensor(fans: Seq<FanFiles>, was: Option<u32>, i: int)
    ensures
        0 <= i < fans.len() && sysutil::reads(fans[i].fan1_label, "cpu_fan"@) && (forall|j: int|
            i < j < fans.len() ==> !sysutil::reads((#[trigger] fans[j]).fan1_label, "cpu_fan"@))
            ==> cpu_fan(fans, was) == u32_in(fans[i].fan1_input),
        0 <= i < fans.len() && sysutil::reads(fans[i].fan2_label, "gpu_fan"@) && (forall|j: int|
            i < j < fans.len() ==> !sysutil::reads((#[trigger] fans[j]).fan2_label, "gpu_fan"@))
            ==> gpu_fan(fans, was) == u32_in(fans[i].fan2_input),
        (forall|j: int|
            0 <= j < fans.len() ==> !sysutil::reads((#[trigger] fans[j]).fan1_label, "cpu_fan"@))
            ==> cpu_fan(fans, was) == was,
        (forall|j: int|
            0 <= j < fans.len() ==> !sysutil::reads((#[trigger] fans[j]).fan2_label, "gpu_fan"@))
            ==> gpu_fan(fans, was) == was,
    decreases fans.len(),
{
    if fans.len() > 0 {
        let front = fans.drop_last();
        let last = fans[fans.len() - 1];
        law_fan_of_last_sensor(front, was, i);
        assert(forall|j: int| 0 <= j < front.len() ==> #[trigger] front[j] == fans[j]);
        assert(fans.last() == last);
    }
}

/// What a setting is and what it can be is read from its two files: a value that
/// was written is the one in use, and each word of the other file is one that it
/// can have, in order.
pub proof fn law_choice_read(
    c: Choice,
    written: String,
    word: Seq<char>,
    gap: char,
    listed: String,
    d: Choice,
    rest: String,
)
    requires
        text::is_trimmed(written@),
        word.len() > 0,
        forall|i: int| 0 <= i < word.len() ==> !text::is_space(#[trigger] word[i]),
        text::is_space(gap),
        listed@ == word + seq![gap] + rest@,
        choice_shows(c, Some(written), Some(listed)),
        choice_shows(d, None, Some(rest)),
    ensures
        c.current@ == written@,
        process::strings(c.available@) == seq![word] + process::strings(d.available@),
        d.current@.len() == 0,
        rest@.len() == 0 ==> d.available@.len() == 0,
{
    let none = Seq::<char>::empty();
    text::law_trim_between(none, written@, none);
    assert(none + written@ + none =~= written@);
    text::law_words_head(word, gap, rest@);
    assert(process::strings(d.available@).len() == d.available@.len());
}

/// A setting of each processor is stored in a file of its own, named after the
/// setting.
pub proof fn law_cpu_files_apart(a: nat, b: nat, file: Seq<char>)
    ensures
        cpu_file(a, file) == cpu_file(b, file) ==> a == b,
        text::ends_with(cpu_file(a, file), "/cpufreq/"@ + file),
        text::starts_with(cpu_file(a, file), CPU_PATH@ + number::dec(a)),
{
    let pa = CPU_PATH@ + number::dec(a);
    let pb = CPU_PATH@ + number::dec(b);
    let rest = "/cpufreq/"@ + file;
    let fa = cpu_file(a, file);
    let fb = cpu_file(b, file);
    assert(fa =~= pa + rest);
    assert(fb =~= pb + rest);
    assert(fa.subrange(0, pa.len() as int) =~= pa);
    assert(fa.subrange(fa.len() - rest.len(), fa.len() as int) =~= rest);
    if fa == fb {
        assert(fb.take(pb.len() as int) =~= pb);
        assert(fa.take(pa.len() as int) =~= pa);
        assert(pa.skip(CPU_PATH@.len() as int) =~= number::dec(a));
        assert(pb.skip(CPU_PATH@.len() as int) =~= number::dec(b));
        number::law_dec_injective(a, b);
    }
}


/// Reading the files again leaves what is chosen, and leaves what the firmware
/// has no files for; the rest is what the files say.
pub proof fn law_reading_keeps_choice(
    old: CpuManager,
    files: CpuFiles,
    cpu_temp: Option<i64>,
    new: CpuManager,
)
    requires
        refreshed(old, files, cpu_temp, new),
    ensures
        new.pending_thermal == old.pending_thermal,
        new.pending_governor == old.pending_governor,
        new.pending_epp == old.pending_epp,
        new.pending_boost == old.pending_boost,
        new.pending_ppt == old.pending_ppt,
        new.cpu_temp == cpu_temp,
        !old.asus_wmi_available ==> new.thermal_profile == old.thermal_profile && new.ppt == old.ppt
            && new.fan_cpu_rpm == old.fan_cpu_rpm && new.fan_gpu_rpm == old.fan_gpu_rpm,
        !old.boost_available ==> new.boost_enabled == old.boost_enabled,
        old.boost_available && files.boost is None ==> !new.boost_enabled,
        old.asus_wmi_available && files.thermal_policy is None ==> new.thermal_profile is Unknown,
        files.governor matches Some(s) ==> new.governor.current@ == text::trim(s@),
        files.epp matches Some(s) ==> new.epp.current@ == text::trim(s@),
        files.governors matches Some(s) ==> process::strings(new.governor.available@)
            == text::words(s@),
        files.epps matches Some(s) ==> process::strings(new.epp.available@) == text::words(s@),
{
}

} // verus!

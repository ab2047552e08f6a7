//! The battery: what it reports, and the limit up to which it is charged.

use crate::number::{self, number_text, read_u32, read_u8};
use crate::process::{self, ProcessResult};
use crate::system::{self, read_int};
use crate::sysutil::{prefixed, FailureKind, PipedResult, WriteFailure, WriteRequest, WriteStep};
use crate::text::{self, chars_of, is_text, same_str, trimmed, trimmed_string};
use crate::unicode::{self, lossy};
use vstd::prelude::*;
use vstd::string::*;

verus! {

/// Where the kernel keeps the files of power supplies.
pub const POWER_SUPPLY: &'static str = "/sys/class/power_supply";

/// The file that holds the charge limit.
pub const THRESHOLD: &'static str = "charge_control_end_threshold";

/// The file that holds the limit that is set again at each start.
pub const PERSISTENT_LIMIT: &'static str = "/etc/zhelper/charge_limit";

/// The service that sets the limit again at each start.
pub const LIMIT_SERVICE: &'static str = "battery-charge-limit.service";

// ── Status ──────────────────────────────────────────────────────────────────

/// Whether the battery is charging.
#[derive(Debug, Clone, Copy, PartialEq, Eq, Structural)]
pub enum ChargeStatus {
    Charging,
    Discharging,
    Full,
    NotCharging,
    Unknown,
}

/// The status that the kernel's word for it means.
pub open spec fn status_of(word: Seq<char>) -> ChargeStatus {
    if word == "Charging"@ {
        ChargeStatus::Charging
    } else if word == "Discharging"@ {
        ChargeStatus::Discharging
    } else if word == "Full"@ {
        ChargeStatus::Full
    } else if word == "Not charging"@ || word == "Not Charging"@ {
        ChargeStatus::NotCharging
    } else {
        ChargeStatus::Unknown
    }
}

impl ChargeStatus {
    /// The name of the status.
    pub open spec fn spec_label(self) -> Seq<char> {
        match self {
            ChargeStatus::Charging => "Charging"@,
            ChargeStatus::Discharging => "Discharging"@,
            ChargeStatus::Full => "Full"@,
            ChargeStatus::NotCharging => "Not Charging"@,
            ChargeStatus::Unknown => "Unknown"@,
        }
    }

    /// Power comes from outside.
    pub open spec fn spec_plugged(self) -> bool {
        self is Charging || self is Full || self is NotCharging
    }

    /// The status that the kernel's word for it means.
    pub fn from_str(s: &str) -> (r: Self)
        ensures
            r == status_of(text::trim(s@)),
    {
        let v = chars_of(s);
        let word = trimmed(v.as_slice());
        if is_text(word, "Charging") {
            ChargeStatus::Charging
        } else if is_text(word, "Discharging") {
            ChargeStatus::Discharging
        } else if is_text(word, "Full") {
            ChargeStatus::Full
        } else if is_text(word, "Not charging") || is_text(word, "Not Charging") {
            ChargeStatus::NotCharging
        } else {
            ChargeStatus::Unknown
        }
    }

    /// The name of the status.
    pub fn label(&self) -> (r: &'static str)
        ensures
            r@ == self.spec_label(),
    {
        match self {
            ChargeStatus::Charging => "Charging",
            ChargeStatus::Discharging => "Discharging",
            ChargeStatus::Full => "Full",
            ChargeStatus::NotCharging => "Not Charging",
            ChargeStatus::Unknown => "Unknown",
        }
    }

    /// Whether power comes from outside.
    pub fn is_plugged(&self) -> (r: bool)
        ensures
            r == self.spec_plugged(),
    {
        match self {
            ChargeStatus::Charging | ChargeStatus::Full | ChargeStatus::NotCharging => true,
            ChargeStatus::Discharging | ChargeStatus::Unknown => false,
        }
    }
}

proof fn lemma_label_trimmed(s: ChargeStatus)
    ensures
        text::trim(s.spec_label()) == s.spec_label(),
{
    reveal_strlit("Charging");
    reveal_strlit("Discharging");
    reveal_strlit("Full");
    reveal_strlit("Not Charging");
    reveal_strlit("Unknown");
}

/// Reading the name of a status gives the status back.
pub proof fn law_status_label(s: ChargeStatus)
    ensures
        status_of(text::trim(s.spec_label())) == s,
{
    lemma_label_trimmed(s);
    reveal_strlit("Charging");
    reveal_strlit("Discharging");
    reveal_strlit("Full");
    reveal_strlit("Not charging");
    reveal_strlit("Not Charging");
    reveal_strlit("Unknown");
    assert("Charging"@[0] == 'C' && "Discharging"@[0] == 'D' && "Full"@[0] == 'F');
    assert("Not charging"@[0] == 'N' && "Not Charging"@[0] == 'N' && "Unknown"@[0] == 'U');
}

// ── Readings ────────────────────────────────────────────────────────────────

/// The power that the battery gives or takes.
#[derive(Debug, Clone, Copy, PartialEq, Eq, Structural)]
pub enum PowerDraw {
    /// Reported by the battery, in millionths of a watt.
    Reported(i64),
    /// To be computed from the voltage and the current, in millionths of a
    /// volt and an ampere.
    Derived { microvolts: i64, microamps: i64 },
}

/// What is known of the battery. Voltage, current and energy are in millionths
/// of a volt, an ampere and a watt hour.
#[derive(Debug, Clone)]
pub struct BatteryInfo {
    pub capacity: u8,
    pub status: ChargeStatus,
    pub charge_limit: u8,
    pub voltage: Option<i64>,
    pub current: Option<i64>,
    pub energy_full: Option<i64>,
    pub energy_now: Option<i64>,
    pub energy_full_design: Option<i64>,
    pub power: Option<PowerDraw>,
    pub cycle_count: Option<u32>,
    pub technology: Option<String>,
    pub manufacturer: Option<String>,
    pub model_name: Option<String>,
    /// Whether the limit can be written without further rights.
    pub can_write_limit: bool,
    /// Whether the battery has a limit at all.
    pub has_limit_support: bool,
    /// Whether the limit is set again at each start.
    pub persistent_enabled: bool,
}

/// What the files of a battery say; none where one cannot be read.
pub struct BatteryFiles {
    pub capacity: Option<String>,
    pub status: Option<String>,
    pub charge_limit: Option<String>,
    pub voltage_now: Option<String>,
    pub current_now: Option<String>,
    pub energy_now: Option<String>,
    pub energy_full: Option<String>,
    pub energy_full_design: Option<String>,
    pub power_now: Option<String>,
    pub cycle_count: Option<String>,
    pub technology: Option<String>,
    pub manufacturer: Option<String>,
    pub model_name: Option<String>,
    /// The file of the charge limit exists.
    pub limit_exists: bool,
    /// The file of the charge limit can be opened for writing.
    pub limit_opens: bool,
    /// The service that sets the limit again at each start is active.
    pub service_active: bool,
}

/// The unsigned number, at most `max`, that a file writes.
pub open spec fn nat_in(file: Option<String>, max: nat) -> Option<nat> {
    match file {
        Some(s) => number::parse_nat(text::trim(s@), max),
        None => None,
    }
}

/// The `u8` that a file writes, or `other`.
pub open spec fn u8_or(file: Option<String>, other: u8) -> u8 {
    match nat_in(file, u8::MAX as nat) {
        Some(n) => n as u8,
        None => other,
    }
}

/// The number that a file writes.
pub open spec fn i64_in(file: Option<String>) -> Option<i64> {
    match system::int_in(file) {
        Some(n) => Some(n as i64),
        None => None,
    }
}

/// What a file says without white space at either end.
pub open spec fn trimmed_in(file: Option<String>) -> Option<Seq<char>> {
    match file {
        Some(s) => Some(text::trim(s@)),
        None => None,
    }
}

/// The voltage that the files give, where it is above zero.
pub open spec fn voltage_in(f: BatteryFiles) -> Option<i64> {
    match i64_in(f.voltage_now) {
        Some(v) if v > 0 => Some(v),
        _ => None,
    }
}

/// The power that the files give: the reported one where it is not below zero,
/// else that of voltage and current.
pub open spec fn power_in(f: BatteryFiles) -> Option<PowerDraw> {
    match i64_in(f.power_now) {
        Some(p) if p >= 0 => Some(PowerDraw::Reported(p)),
        _ => match (voltage_in(f), i64_in(f.current_now)) {
            (Some(v), Some(i)) => Some(PowerDraw::Derived { microvolts: v, microamps: i }),
            _ => None,
        },
    }
}

/// `info` is what the files say of the battery.
pub open spec fn shows(info: BatteryInfo, f: BatteryFiles) -> bool {
    &&& info.capacity == u8_or(f.capacity, 0)
    &&& info.status == (match f.status {
        Some(s) => status_of(text::trim(s@)),
        None => ChargeStatus::Unknown,
    })
    &&& info.charge_limit == (if f.limit_exists {
        u8_or(f.charge_limit, 100)
    } else {
        100
    })
    &&& info.voltage == voltage_in(f)
    &&& info.current == i64_in(f.current_now)
    &&& info.energy_full == i64_in(f.energy_full)
    &&& info.energy_now == i64_in(f.energy_now)
    &&& info.energy_full_design == i64_in(f.energy_full_design)
    &&& info.power == power_in(f)
    &&& (match info.cycle_count {
        Some(n) => nat_in(f.cycle_count, u32::MAX as nat) == Some(n as nat),
        None => nat_in(f.cycle_count, u32::MAX as nat) is None,
    })
    &&& text::opt_view(info.technology) == trimmed_in(f.technology)
    &&& text::opt_view(info.manufacturer) == trimmed_in(f.manufacturer)
    &&& text::opt_view(info.model_name) == trimmed_in(f.model_name)
    &&& info.can_write_limit == (f.limit_exists && f.limit_opens)
    &&& info.has_limit_support == f.limit_exists
    &&& info.persistent_enabled == f.service_active
}

/// What is shown where there is no battery.
pub open spec fn is_unknown(info: BatteryInfo) -> bool {
    &&& info.capacity == 0
    &&& info.status is Unknown
    &&& info.charge_limit == 100
    &&& info.voltage is None
    &&& info.current is None
    &&& info.energy_full is None
    &&& info.energy_now is None
    &&& info.energy_full_design is None
    &&& info.power is None
    &&& info.cycle_count is None
    &&& info.technology is None
    &&& info.manufacturer is None
    &&& info.model_name is None
    &&& !info.can_write_limit
    &&& !info.has_limit_support
    &&& !info.persistent_enabled
}

impl Default for BatteryInfo {
    fn default() -> (r: Self)
        ensures
            is_unknown(r),
    {
        BatteryInfo {
            capacity: 0,
            status: ChargeStatus::Unknown,
            charge_limit: 100,
            voltage: None,
            current: None,
            energy_full: None,
            energy_now: None,
            energy_full_design: None,
            power: None,
            cycle_count: None,
            technology: None,
            manufacturer: None,
            model_name: None,
            can_write_limit: false,
            has_limit_support: false,
            persistent_enabled: false,
        }
    }
}

/// What the share of the design capacity that is left is computed from.
#[derive(Debug, Clone, Copy, PartialEq, Eq, Structural)]
pub struct Health {
    pub full: i64,
    pub design: i64,
}

/// What the time to an empty or a full battery is computed from.
#[derive(Debug, Clone, Copy, PartialEq, Eq, Structural)]
pub enum Remaining {
    /// The time in which the power uses up the energy.
    ToEmpty { now: i64, power: PowerDraw },
    /// The time in which the power brings the energy from now to full.
    ToFull { now: i64, full: i64, power: PowerDraw },
}

impl BatteryInfo {
    /// What the share of the design capacity that is left is computed from;
    /// nothing where a figure is unknown, or the design capacity not above
    /// zero.
    pub fn health_percent(&self) -> (r: Option<Health>)
        ensures
            r == self.spec_health(),
    {
        match (self.energy_full, self.energy_full_design) {
            (Some(full), Some(design)) => if design > 0 {
                Some(Health { full, design })
            } else {
                None
            },
            _ => None,
        }
    }

    /// What the share of the design capacity that is left is computed from.
    pub open spec fn spec_health(&self) -> Option<Health> {
        match (self.energy_full, self.energy_full_design) {
            (Some(full), Some(design)) if design > 0 => Some(Health { full, design }),
            _ => None,
        }
    }

    /// What the time to an empty or a full battery is computed from, given
    /// whether the power is above a tenth of a watt; nothing where it is not,
    /// where the battery neither charges nor discharges, or where a figure is
    /// unknown.
    pub fn time_remaining_h(&self, power_counts: bool) -> (r: Option<Remaining>)
        ensures
            r == self.spec_remaining(power_counts),
    {
        if !power_counts {
            return None;
        }
        let power = match self.power {
            Some(p) => p,
            None => return None,
        };
        match self.status {
            ChargeStatus::Discharging => match self.energy_now {
                Some(now) => Some(Remaining::ToEmpty { now, power }),
                None => None,
            },
            ChargeStatus::Charging => match (self.energy_full, self.energy_now) {
                (Some(full), Some(now)) => Some(Remaining::ToFull { now, full, power }),
                _ => None,
            },
            _ => None,
        }
    }

    /// What the time to an empty or a full battery is computed from.
    pub open spec fn spec_remaining(&self, power_counts: bool) -> Option<Remaining> {
        match (self.power, self.status, self.energy_now, self.energy_full) {
            _ if !power_counts => None,
            (Some(power), ChargeStatus::Discharging, Some(now), _) => Some(
                Remaining::ToEmpty { now, power },
            ),
            (Some(power), ChargeStatus::Charging, Some(now), Some(full)) => Some(
                Remaining::ToFull { now, full, power },
            ),
            _ => None,
        }
    }
}

/// The `u8` that a file writes, or `other`.
fn read_u8_or(file: &Option<String>, other: u8) -> (r: u8)
    ensures
        r == u8_or(*file, other),
{
    match file {
        Some(s) => {
            let v = chars_of(s.as_str());
            match read_u8(trimmed(v.as_slice())) {
                Some(n) => n,
                None => other,
            }
        },
        None => other,
    }
}

/// What a file says without white space at either end.
fn read_trimmed(file: &Option<String>) -> (r: Option<String>)
    ensures
        text::opt_view(r) == trimmed_in(*file),
{
    match file {
        Some(s) => Some(trimmed_string(s.as_str())),
        None => None,
    }
}

/// What the files say of the battery.
pub fn read_info(f: &BatteryFiles) -> (r: BatteryInfo)
    ensures
        shows(r, *f),
{
    let voltage = match read_int(&f.voltage_now) {
        Some(v) => if v > 0 {
            Some(v)
        } else {
            None
        },
        None => None,
    };
    let current = read_int(&f.current_now);
    let derived = match (voltage, current) {
        (Some(v), Some(i)) => Some(PowerDraw::Derived { microvolts: v, microamps: i }),
        _ => None,
    };
    let power = match read_int(&f.power_now) {
        Some(p) => if p >= 0 {
            Some(PowerDraw::Reported(p))
        } else {
            derived
        },
        None => derived,
    };
    let status = match &f.status {
        Some(s) => ChargeStatus::from_str(s.as_str()),
        None => ChargeStatus::Unknown,
    };
    let charge_limit: u8 = if f.limit_exists {
        read_u8_or(&f.charge_limit, 100)
    } else {
        100
    };
    let cycle_count = match &f.cycle_count {
        Some(s) => {
            let v = chars_of(s.as_str());
            read_u32(trimmed(v.as_slice()))
        },
        None => None,
    };
    BatteryInfo {
        capacity: read_u8_or(&f.capacity, 0),
        status,
        charge_limit,
        voltage,
        current,
        energy_full: read_int(&f.energy_full),
        energy_now: read_int(&f.energy_now),
        energy_full_design: read_int(&f.energy_full_design),
        power,
        cycle_count,
        technology: read_trimmed(&f.technology),
        manufacturer: read_trimmed(&f.manufacturer),
        model_name: read_trimmed(&f.model_name),
        can_write_limit: f.limit_exists && f.limit_opens,
        has_limit_support: f.limit_exists,
        persistent_enabled: f.service_active,
    }
}

// ── The battery ─────────────────────────────────────────────────────────────

/// The battery that is managed.
pub struct BatteryManager {
    /// The name of its directory; none where there is no battery.
    pub battery: Option<String>,
    pub info: BatteryInfo,
}

/// The directories that a battery may have, the first looked for first.
pub open spec fn candidates() -> Seq<Seq<char>> {
    seq!["BAT0"@, "BAT1"@, "BATC"@, "BATT"@]
}

/// The first of the names that is among the existing ones.
pub open spec fn first_existing(names: Seq<Seq<char>>, existing: Seq<Seq<char>>) -> Option<
    Seq<char>,
>
    decreases names.len(),
{
    if names.len() == 0 {
        None
    } else if existing.contains(names[0]) {
        Some(names[0])
    } else {
        first_existing(names.skip(1), existing)
    }
}

/// Whether a name is among the existing ones.
fn among(existing: &Vec<String>, name: &str) -> (r: bool)
    ensures
        r == process::strings(existing@).contains(name@),
{
    let ghost all = process::strings(existing@);
    let mut i: usize = 0;
    while i < existing.len()
        invariant
            i <= existing@.len(),
            all == process::strings(existing@),
            forall|k: int| 0 <= k < i ==> #[trigger] all[k] != name@,
        decreases existing@.len() - i,
    {
        if same_str(existing[i].as_str(), name) {
            assert(all[i as int] == name@);
            return true;
        }
        i += 1;
    }
    false
}

/// The directory of the battery among the existing ones.
pub fn find_battery(existing: &Vec<String>) -> (r: Option<String>)
    ensures
        text::opt_view(r) == first_existing(candidates(), process::strings(existing@)),
{
    let names: [&str; 4] = ["BAT0", "BAT1", "BATC", "BATT"];
    let ghost all = candidates();
    let mut i: usize = 0;
    assert(all.skip(0) =~= all);
    while i < 4
        invariant
            i <= 4,
            all == candidates(),
            names@.len() == 4,
            forall|k: int| 0 <= k < 4 ==> (#[trigger] names@[k])@ == all[k],
            first_existing(all, process::strings(existing@)) == first_existing(
                all.skip(i as int),
                process::strings(existing@),
            ),
        decreases 4 - i,
    {
        assert(all.skip(i as int)[0] == names@[i as int]@);
        assert(all.skip(i as int).skip(1) =~= all.skip(i + 1));
        if among(existing, names[i]) {
            return Some(names[i].to_owned());
        }
        i += 1;
    }
    None
}

/// The path of a file of a battery.
pub open spec fn battery_file(name: Seq<char>, file: Seq<char>) -> Seq<char> {
    POWER_SUPPLY@ + "/"@ + name + "/"@ + file
}

/// What is said where the battery has no charge limit.
pub open spec fn unsupported() -> Seq<char> {
    "Battery charge limit is not supported on this device.\nEnsure the asus-nb-wmi kernel module is loaded:\nsudo modprobe asus-nb-wmi"@
}

impl BatteryManager {
    /// The battery in the given directory and what its files say of it.
    pub fn new(battery: Option<String>, files: &BatteryFiles) -> (r: Self)
        ensures
            r.battery == battery,
            if battery is Some {
                shows(r.info, *files)
            } else {
                is_unknown(r.info)
            },
    {
        let info = if battery.is_some() {
            read_info(files)
        } else {
            BatteryInfo::default()
        };
        BatteryManager { battery, info }
    }

    /// Takes over what the files say of the battery, where there is one.
    pub fn refresh(&mut self, files: &BatteryFiles)
        ensures
            final(self).battery == old(self).battery,
            if old(self).battery is Some {
                shows(final(self).info, *files)
            } else {
                final(self).info == old(self).info
            },
    {
        if self.battery.is_some() {
            self.info = read_info(files);
        }
    }

    /// The write that sets the charge limit, given whether the battery has a
    /// file for it; an error where it has none or there is no battery.
    pub fn set_charge_limit(&self, limit_exists: bool, limit: u8) -> (r: Result<
        WriteRequest,
        String,
    >)
        ensures
            match self.battery {
                None => r matches Err(e) && e@ == "No battery found"@,
                Some(name) => if limit_exists {
                    r matches Ok(w) && w.path@ == battery_file(name@, THRESHOLD@) && w.value@
                        == number::dec(limit as nat) && u8_or(Some(w.value), 100) == limit
                } else {
                    r matches Err(e) && e@ == unsupported()
                },
            },
    {
        let name = match &self.battery {
            Some(n) => n,
            None => return Err("No battery found".to_owned()),
        };
        if !limit_exists {
            return Err(
                "Battery charge limit is not supported on this device.\nEnsure the asus-nb-wmi kernel module is loaded:\nsudo modprobe asus-nb-wmi".to_owned(),
            );
        }
        let mut path: String = POWER_SUPPLY.to_owned();
        path.append("/");
        path.append(name.as_str());
        path.append("/");
        path.append(THRESHOLD);
        let value = number_text(limit as u64);
        proof {
            lemma_limit_text(limit, value);
        }
        Ok(WriteRequest { path, value })
    }

    /// The script that makes the limit be set again at each start.
    pub fn run_setup(&self, limit: u8) -> (r: String)
        ensures
            r@ == setup_script(
                limit,
                (match self.battery {
                    Some(n) => n@,
                    None => "BAT0"@,
                }),
            ),
    {
        let mut r: String = SETUP_HEAD.to_owned();
        r.append(SETUP_RULE);
        r.append(SETUP_DIR);
        r.append(SETUP_ECHO);
        r.append(number_text(limit as u64).as_str());
        r.append(SETUP_STORE);
        r.append(SETUP_SERVICE);
        r.append(SETUP_EXEC);
        match &self.battery {
            Some(n) => r.append(n.as_str()),
            None => r.append("BAT0"),
        }
        r.append(SETUP_TARGET);
        r.append(SETUP_INSTALL);
        r.append(SETUP_ENABLE);
        r.append(SETUP_TRIGGER);
        r.append(SETUP_TAIL);
        let ghost name = match &self.battery {
            Some(n) => n@,
            None => "BAT0"@,
        };
        assert(r@ =~= setup_script(limit, name));
        r
    }

    /// The write of the limit that is set again at each start.
    pub fn update_persistent_limit(&self, limit: u8) -> (r: WriteRequest)
        ensures
            r.path@ == PERSISTENT_LIMIT@,
            r.value@ == number::dec(limit as nat),
            u8_or(Some(r.value), 100) == limit,
    {
        let value = number_text(limit as u64);
        proof {
            lemma_limit_text(limit, value);
        }
        WriteRequest { path: PERSISTENT_LIMIT.to_owned(), value }
    }

    /// The name of the battery.
    pub fn bat_name(&self) -> (r: &str)
        ensures
            r@ == self.spec_name(),
    {
        match &self.battery {
            Some(n) => n.as_str(),
            None => "Unknown",
        }
    }

    /// The name of the battery.
    pub open spec fn spec_name(&self) -> Seq<char> {
        match self.battery {
            Some(n) => n@,
            None => "Unknown"@,
        }
    }
}

proof fn lemma_limit_text(limit: u8, written: String)
    requires
        written@ == number::dec(limit as nat),
    ensures
        u8_or(Some(written), 100) == limit,
{
    number::lemma_dec(limit as nat);
    number::lemma_digits_trimmed(written@);
    number::law_parse_dec(limit as nat, u8::MAX as nat);
}

/// A limit that is written is the limit that is read back: the battery's file
/// of the limit, once it holds what `set_charge_limit` writes, shows that
/// limit.
pub proof fn law_limit_read_back(limit: u8, written: String, f: BatteryFiles, info: BatteryInfo)
    requires
        written@ == number::dec(limit as nat),
        f.limit_exists,
        f.charge_limit == Some(written),
        shows(info, f),
    ensures
        info.charge_limit == limit,
{
    lemma_limit_text(limit, written);
}

/// The setup script up to the limit.
pub open spec fn setup_storing() -> Seq<char> {
    SETUP_HEAD@ + SETUP_RULE@ + SETUP_DIR@ + SETUP_ECHO@
}

/// The setup script from the limit to the name of the battery.
pub open spec fn setup_serving() -> Seq<char> {
    SETUP_STORE@ + SETUP_SERVICE@ + SETUP_EXEC@
}

/// The setup script after the name of the battery.
pub open spec fn setup_ending() -> Seq<char> {
    SETUP_TARGET@ + SETUP_INSTALL@ + SETUP_ENABLE@ + SETUP_TRIGGER@ + SETUP_TAIL@
}

/// The script that makes the limit be set again at each start.
pub open spec fn setup_script(limit: u8, battery: Seq<char>) -> Seq<char> {
    setup_storing() + number::dec(limit as nat) + setup_serving() + battery + setup_ending()
}

/// What is to be done after the charge limit was written: ask for the rights
/// of the administrator where they are missing.
pub fn limit_written(outcome: Result<(), WriteFailure>) -> (r: WriteStep)
    ensures
        match outcome {
            Ok(_) => r is Done,
            Err(e) => if e.kind == FailureKind::PermissionDenied {
                r is Privileged
            } else {
                r matches WriteStep::Fail(m) && m@ == "Write error: "@ + e.message@
            },
        },
{
    match outcome {
        Ok(_) => WriteStep::Done,
        Err(e) => if e.kind == FailureKind::PermissionDenied {
            WriteStep::Privileged
        } else {
            WriteStep::Fail(prefixed("Write error: ", e.message.as_str()))
        },
    }
}

/// What is to be done after the limit that is set again at each start was
/// written: ask for the rights of the administrator where they are missing.
pub fn persistent_limit_written(outcome: Result<(), WriteFailure>) -> (r: WriteStep)
    ensures
        match outcome {
            Ok(_) => r is Done,
            Err(e) => if e.kind == FailureKind::PermissionDenied {
                r is Privileged
            } else {
                r matches WriteStep::Fail(m) && m@ == e.message@
            },
        },
{
    match outcome {
        Ok(_) => WriteStep::Done,
        Err(e) => if e.kind == FailureKind::PermissionDenied {
            WriteStep::Privileged
        } else {
            WriteStep::Fail(e.message)
        },
    }
}

/// What came of writing a limit with the rights of the administrator; an error
/// in place of it where the limit could not be handed over.
pub fn write_privileged(outcome: Result<PipedResult, String>) -> (r: Result<(), String>)
    ensures
        match outcome {
            Err(e) => r matches Err(m) && m@ == "Stdin write error: "@ + e@,
            Ok(PipedResult::LaunchFailed(e)) => r matches Err(m) && m@ == "Failed to launch pkexec: "@
                + e@ + "\nRun Setup to configure permissions."@,
            Ok(PipedResult::WaitFailed(e)) => r matches Err(m) && m@ == "pkexec wait failed: "@ + e@,
            Ok(PipedResult::Exited { success: true, .. }) => r is Ok,
            Ok(PipedResult::Exited { success: false, stderr }) => r matches Err(m) && m@
                == "Permission denied.\nRun Setup to configure passwordless battery control.\n"@
                + unicode::utf8_lossy(stderr@),
        },
{
    match outcome {
        Err(e) => Err(prefixed("Stdin write error: ", e.as_str())),
        Ok(PipedResult::LaunchFailed(e)) => {
            let mut m = prefixed("Failed to launch pkexec: ", e.as_str());
            m.append("\nRun Setup to configure permissions.");
            Err(m)
        },
        Ok(PipedResult::WaitFailed(e)) => Err(prefixed("pkexec wait failed: ", e.as_str())),
        Ok(PipedResult::Exited { success, stderr }) => if success {
            Ok(())
        } else {
            Err(
                prefixed(
                    "Permission denied.\nRun Setup to configure passwordless battery control.\n",
                    lossy(stderr.as_slice()).as_str(),
                ),
            )
        },
    }
}

/// The arguments with which `systemctl` says whether the service is active that
/// sets the limit again at each start.
pub fn service_command() -> (r: Vec<String>)
    ensures
        process::strings(r@) == seq!["is-active"@, "--quiet"@, LIMIT_SERVICE@],
{
    let mut r: Vec<String> = Vec::new();
    r.push("is-active".to_owned());
    r.push("--quiet".to_owned());
    r.push(LIMIT_SERVICE.to_owned());
    assert(process::strings(r@) =~= seq!["is-active"@, "--quiet"@, LIMIT_SERVICE@]);
    r
}

/// Whether the service is active: `systemctl` ran and succeeded.
pub fn service_active(outcome: ProcessResult) -> (r: bool)
    ensures
        r == (outcome matches ProcessResult::Done { success, .. } && success),
{
    match outcome {
        ProcessResult::Done { success, .. } => success,
        ProcessResult::Failed(_) => false,
    }
}

/// What came of running the setup script; an error in place of it where the
/// script could not be stored.
pub fn setup_result(outcome: Result<ProcessResult, String>) -> (r: Result<(), String>)
    ensures
        match outcome {
            Err(e) => r matches Err(m) && m@ == "Failed to write setup script: "@ + e@,
            Ok(ProcessResult::Failed(e)) => r matches Err(m) && m@ == "pkexec failed: "@ + e@,
            Ok(ProcessResult::Done { success: true, .. }) => r is Ok,
            Ok(ProcessResult::Done { success: false, stderr, .. }) => r matches Err(m) && m@
                == "Setup failed:\n"@ + unicode::utf8_lossy(stderr@),
        },
{
    match outcome {
        Err(e) => Err(prefixed("Failed to write setup script: ", e.as_str())),
        Ok(ProcessResult::Failed(e)) => Err(prefixed("pkexec failed: ", e.as_str())),
        Ok(ProcessResult::Done { success, stderr, .. }) => if success {
            Ok(())
        } else {
            Err(prefixed("Setup failed:\n", lossy(stderr.as_slice()).as_str()))
        },
    }
}

/// The setup script up to its first step: where its files are.
pub const SETUP_HEAD: &'static str = r#"#!/usr/bin/env bash
set -e

RULE_FILE="/etc/udev/rules.d/50-battery-charging-threshold.rules"
CONF_DIR="/etc/zhelper"
CONF_FILE="$CONF_DIR/charge_limit"
SERVICE_FILE="/etc/systemd/system/battery-charge-limit.service"
"#;

/// The step that lets the limit be written without further rights.
pub const SETUP_RULE: &'static str = r#"
# 1. udev rule — makes threshold file world-writable after each boot/resume
cat > "$RULE_FILE" << 'RULE_EOF'
SUBSYSTEM=="power_supply", KERNEL=="BAT[01CT]", ACTION=="add|change", \
    RUN+="/bin/chmod a+w /sys/class/power_supply/%k/charge_control_end_threshold"
RULE_EOF
"#;

/// The step that makes the directory of the settings.
pub const SETUP_DIR: &'static str = r#"
# 2. Config directory + initial charge limit value
mkdir -p "$CONF_DIR"
"#;

/// What stands before the limit that is stored.
pub const SETUP_ECHO: &'static str = r#"echo ""#;

/// What stands behind the limit that is stored.
pub const SETUP_STORE: &'static str = r#"" > "$CONF_FILE"
"#;

/// The step that describes the service, up to what it runs.
pub const SETUP_SERVICE: &'static str = r#"
# 3. Systemd service — re-applies limit after boot and resume
cat > "$SERVICE_FILE" << 'SVC_EOF'
[Unit]
Description=Set ASUS battery charge limit
After=multi-user.target
After=suspend.target
After=hibernate.target

[Service]
Type=oneshot
"#;

/// What the service runs, up to the name of the battery.
pub const SETUP_EXEC: &'static str = r#"ExecStart=/usr/bin/bash -c "cat /etc/zhelper/charge_limit | xargs -I{} bash -c 'echo {} | tee /sys/class/power_supply/"#;

/// What the service runs, after the name of the battery.
pub const SETUP_TARGET: &'static str = r#"/charge_control_end_threshold'"
"#;

/// The rest of the description of the service.
pub const SETUP_INSTALL: &'static str = r#"RemainAfterExit=yes

[Install]
WantedBy=multi-user.target suspend.target hibernate.target
SVC_EOF
"#;

/// The step that turns the service on.
pub const SETUP_ENABLE: &'static str = r#"
systemctl daemon-reload
systemctl enable --now battery-charge-limit.service
"#;

/// The step that brings the rule into force at once.
pub const SETUP_TRIGGER: &'static str = r#"
# 4. Trigger udev immediately (makes file writable right now without reboot)
udevadm control --reload-rules
udevadm trigger --subsystem-match=power_supply
"#;

/// The end of the setup script.
pub const SETUP_TAIL: &'static str = r#"
echo "ZHelper setup complete."
"#;

// ── Laws ────────────────────────────────────────────────────────────────────

/// A word of the kernel for the status of a battery means that status; any other
/// word means that it is unknown. Power comes from outside unless the battery
/// discharges or its status is unknown.
pub proof fn law_status_words(word: Seq<char>)
    ensures
        status_of(word) is Charging <==> word == "Charging"@,
        status_of(word) is Discharging <==> word == "Discharging"@,
        status_of(word) is Full <==> word == "Full"@,
        status_of(word) is NotCharging <==> word == "Not charging"@ || word == "Not Charging"@,
        !status_of(word).spec_plugged() <==> word != "Charging"@ && word != "Full"@ && word
            != "Not charging"@ && word != "Not Charging"@,
{
    reveal_strlit("Charging");
    reveal_strlit("Discharging");
    reveal_strlit("Full");
    reveal_strlit("Not charging");
    reveal_strlit("Not Charging");
    assert("Charging"@[0] == 'C' && "Discharging"@[0] == 'D' && "Full"@[0] == 'F');
    assert("Not charging"@[0] == 'N' && "Not Charging"@[0] == 'N');
}

/// A figure that a file writes in digits is the one that is shown, each from its
/// own file.
pub proof fn law_figures_read(f: BatteryFiles, info: BatteryInfo, n: nat, text: String)
    requires
        shows(info, f),
        text@ == number::dec(n),
    ensures
        f.capacity == Some(text) && n <= u8::MAX ==> info.capacity == n,
        f.cycle_count == Some(text) && n <= u32::MAX ==> info.cycle_count == Some(n as u32),
        f.current_now == Some(text) && n <= i64::MAX ==> info.current == Some(n as i64),
        f.energy_full == Some(text) && n <= i64::MAX ==> info.energy_full == Some(n as i64),
        f.energy_now == Some(text) && n <= i64::MAX ==> info.energy_now == Some(n as i64),
        f.energy_full_design == Some(text) && n <= i64::MAX ==> info.energy_full_design == Some(
            n as i64,
        ),
        f.voltage_now == Some(text) && 0 < n <= i64::MAX ==> info.voltage == Some(n as i64),
        f.power_now == Some(text) && n <= i64::MAX ==> info.power == Some(
            PowerDraw::Reported(n as i64),
        ),
        f.capacity is None ==> info.capacity == 0,
        f.voltage_now is None ==> info.voltage is None,
        f.current_now is None ==> info.current is None,
        f.energy_full is None ==> info.energy_full is None,
        f.energy_now is None ==> info.energy_now is None,
        f.energy_full_design is None ==> info.energy_full_design is None,
        f.cycle_count is None ==> info.cycle_count is None,
{
    number::lemma_dec(n);
    number::lemma_digits_trimmed(text@);
    number::law_parse_int(n);
    number::law_parse_dec(n, u8::MAX as nat);
    number::law_parse_dec(n, u32::MAX as nat);
}

/// The voltage that is shown is above zero and a reported power not below it.
/// Only where no such power is reported does it come from the voltage and the
/// current, which are then shown too; it is not known exactly where neither is.
pub proof fn law_power_known(f: BatteryFiles, info: BatteryInfo)
    requires
        shows(info, f),
    ensures
        info.voltage matches Some(v) ==> v > 0,
        info.power matches Some(PowerDraw::Reported(p)) ==> p >= 0,
        info.power matches Some(PowerDraw::Derived { microvolts, microamps }) ==> info.voltage
            == Some(microvolts) && info.current == Some(microamps),
        system::int_in(f.power_now) matches Some(p) && p >= 0 ==> info.power is Some
            && info.power->0 is Reported,
        info.power is None ==> info.voltage is None || info.current is None,
{
}

/// A battery without a file of the limit shows a limit of a hundred percent that
/// cannot be written; the limit can be written only where its file opens, and
/// persists exactly where the service is active.
pub proof fn law_limit_support(f: BatteryFiles, info: BatteryInfo)
    requires
        shows(info, f),
    ensures
        info.has_limit_support <==> f.limit_exists,
        !info.has_limit_support ==> info.charge_limit == 100 && !info.can_write_limit,
        info.can_write_limit <==> f.limit_exists && f.limit_opens,
        info.persistent_enabled <==> f.service_active,
        f.charge_limit is None ==> info.charge_limit == 100,
{
}

/// The time that is left is told while the battery discharges, and the time to a
/// full battery while it charges, each from the energy that it holds now; neither
/// is told in another state, or where the power does not count or is not known.
pub proof fn law_time_told(info: BatteryInfo, power_counts: bool)
    ensures
        match info.spec_remaining(power_counts) {
            Some(Remaining::ToEmpty { now, power }) => {
                &&& power_counts
                &&& info.status is Discharging
                &&& info.energy_now == Some(now)
                &&& info.power == Some(power)
            },
            Some(Remaining::ToFull { now, full, power }) => {
                &&& power_counts
                &&& info.status is Charging
                &&& info.energy_now == Some(now)
                &&& info.energy_full == Some(full)
                &&& info.power == Some(power)
            },
            None => {
                ||| !power_counts
                ||| info.power is None
                ||| info.energy_now is None
                ||| info.status is Charging && info.energy_full is None
                ||| !(info.status is Charging || info.status is Discharging)
            },
        },
        match info.spec_health() {
            Some(h) => info.energy_full == Some(h.full) && info.energy_full_design == Some(h.design)
                && h.design > 0,
            None => info.energy_full is None || info.energy_full_design is None
                || info.energy_full_design->0 <= 0,
        },
{
}

/// The battery is the first of `BAT0`, `BAT1`, `BATC` and `BATT` that exists;
/// there is none exactly where none of them exists.
pub proof fn law_battery_found(existing: Seq<Seq<char>>)
    ensures
        ({
            let found = first_existing(candidates(), existing);
            &&& existing.contains("BAT0"@) ==> found == Some("BAT0"@)
            &&& !existing.contains("BAT0"@) && existing.contains("BAT1"@) ==> found == Some(
                "BAT1"@,
            )
            &&& !existing.contains("BAT0"@) && !existing.contains("BAT1"@) && existing.contains(
                "BATC"@,
            ) ==> found == Some("BATC"@)
            &&& !existing.contains("BAT0"@) && !existing.contains("BAT1"@) && !existing.contains(
                "BATC"@,
            ) && existing.contains("BATT"@) ==> found == Some("BATT"@)
            &&& found matches Some(name) ==> existing.contains(name)
            &&& found is None ==> !existing.contains("BAT0"@) && !existing.contains("BAT1"@)
                && !existing.contains("BATC"@) && !existing.contains("BATT"@)
        }),
{
    reveal_with_fuel(first_existing, 5);
    let all = candidates();
    assert(all.skip(1)[0] == "BAT1"@);
    assert(all.skip(1).skip(1)[0] == "BATC"@);
    assert(all.skip(1).skip(1).skip(1)[0] == "BATT"@);
}

/// The script stores the limit that it is made for, and its service is for the
/// battery that it is made for: no two of either give the same script, where the
/// names of the batteries are as long.
pub proof fn law_setup_for_limit(limit: u8, battery: Seq<char>, other: u8, name: Seq<char>)
    requires
        number::dec(limit as nat).len() == number::dec(other as nat).len(),
        battery.len() == name.len(),
        setup_script(limit, battery) == setup_script(other, name),
    ensures
        limit == other,
        battery == name,
{
    let a = setup_storing();
    let b = setup_serving();
    let d = number::dec(limit as nat);
    let e = number::dec(other as nat);
    let s = setup_script(limit, battery);
    let t = setup_script(other, name);
    let i = a.len() as int;
    let j = i + d.len() + b.len();
    assert(s.subrange(i, i + d.len()) =~= d);
    assert(t.subrange(i, i + d.len()) =~= e);
    number::law_dec_injective(limit as nat, other as nat);
    assert(s.subrange(j, j + battery.len()) =~= battery);
    assert(t.subrange(j, j + battery.len()) =~= name);
}


/// The script lets everyone write the limit of a battery, stores the limit that
/// it is made for, describes a service that writes the stored limit to the
/// battery that it is made for, turns that service on and brings the rule into
/// force.
pub proof fn law_setup_steps(limit: u8, battery: Seq<char>)
    ensures
        ({
            let script = setup_script(limit, battery);
            &&& text::contains(
                script,
                r#"
# 1. udev rule — makes threshold file world-writable after each boot/resume
cat > "$RULE_FILE" << 'RULE_EOF'
SUBSYSTEM=="power_supply", KERNEL=="BAT[01CT]", ACTION=="add|change", \
    RUN+="/bin/chmod a+w /sys/class/power_supply/%k/charge_control_end_threshold"
RULE_EOF
"#@,
            )
            &&& text::contains(
                script,
                r#"echo ""#@ + number::dec(limit as nat) + r#"" > "$CONF_FILE"
"#@,
            )
            &&& text::contains(
                script,
                r#"ExecStart=/usr/bin/bash -c "cat /etc/zhelper/charge_limit | xargs -I{} bash -c 'echo {} | tee /sys/class/power_supply/"#@ + battery + r#"/charge_control_end_threshold'"
"#@,
            )
            &&& text::contains(
                script,
                r#"
systemctl daemon-reload
systemctl enable --now battery-charge-limit.service
"#@,
            )
            &&& text::contains(
                script,
                r#"
# 4. Trigger udev immediately (makes file writable right now without reboot)
udevadm control --reload-rules
udevadm trigger --subsystem-match=power_supply
"#@,
            )
        }),
{
    let script = setup_script(limit, battery);
    let n = number::dec(limit as nat);
    let storing = SETUP_HEAD@ + SETUP_RULE@ + SETUP_DIR@;
    let service = n + SETUP_STORE@ + SETUP_SERVICE@;
    let install = setup_storing() + n + setup_serving() + battery + SETUP_TARGET@ + SETUP_INSTALL@;
    lemma_holds(script, SETUP_HEAD@, SETUP_RULE@, SETUP_DIR@ + SETUP_ECHO@ + n + setup_serving()
        + battery + setup_ending());
    lemma_holds(
        script,
        storing,
        SETUP_ECHO@ + n + SETUP_STORE@,
        SETUP_SERVICE@ + SETUP_EXEC@ + battery + setup_ending(),
    );
    lemma_holds(
        script,
        setup_storing() + service,
        SETUP_EXEC@ + battery + SETUP_TARGET@,
        SETUP_INSTALL@ + SETUP_ENABLE@ + SETUP_TRIGGER@ + SETUP_TAIL@,
    );
    lemma_holds(script, install, SETUP_ENABLE@, SETUP_TRIGGER@ + SETUP_TAIL@);
    lemma_holds(script, install + SETUP_ENABLE@, SETUP_TRIGGER@, SETUP_TAIL@);
}

proof fn lemma_holds(s: Seq<char>, a: Seq<char>, p: Seq<char>, b: Seq<char>)
    requires
        s =~= a + p + b,
    ensures
        text::contains(s, p),
{
    text::law_contains(s, p);
}


/// A file of a battery lies in its directory among the power supplies.
pub proof fn law_battery_file(name: Seq<char>, file: Seq<char>)
    ensures
        battery_file(name, file) == "/sys/class/power_supply"@ + "/"@ + name + "/"@ + file,
        text::ends_with(battery_file(name, file), "/"@ + file),
{
    let path = battery_file(name, file);
    let end = "/"@ + file;
    assert(path.subrange(path.len() - end.len(), path.len() as int) =~= end);
}

/// Where there is no battery nothing is known of it, and no limit can be set.
pub proof fn law_no_battery(info: BatteryInfo)
    requires
        is_unknown(info),
    ensures
        info.capacity == 0,
        info.charge_limit == 100,
        info.status is Unknown,
        !info.status.spec_plugged(),
        !info.has_limit_support && !info.can_write_limit && !info.persistent_enabled,
        info.spec_health() is None,
        forall|power_counts: bool| #[trigger] info.spec_remaining(power_counts) is None,
{
}

} // verus!

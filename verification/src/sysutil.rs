//! Writing and reading the files through which the kernel is steered.

use crate::number::{self, float_text};
use crate::text::{
    self, begins, chars_of, holds, is_text, lines_of, string_of, trimmed,
};
use crate::unicode::{self, lossy};
use vstd::prelude::*;
use vstd::string::*;

verus! {

/// Where the ASUS platform driver keeps its files.
pub const ASUS_WMI: &'static str = "/sys/devices/platform/asus-nb-wmi";

/// The error number of a failed device access.
pub const EIO: i32 = 5;

/// How often a write to a busy device is tried.
pub const ATTEMPTS: u32 = 3;

// ── Types ───────────────────────────────────────────────────────────────────

/// A value to be written to a file.
pub struct WriteRequest {
    pub path: String,
    pub value: String,
}

/// Of what kind an input or output error is.
#[derive(Debug, Clone, Copy, PartialEq, Eq, Structural)]
pub enum FailureKind {
    PermissionDenied,
    Other,
    /// None of the kinds above.
    Different,
}

/// Why a write failed.
pub struct WriteFailure {
    pub kind: FailureKind,
    /// The error number of the operating system.
    pub os_code: Option<i32>,
    pub message: String,
}

/// What is to be done after a write was tried.
pub enum WriteStep {
    /// The value is written.
    Done,
    /// Write it with the rights of the administrator.
    Privileged,
    /// Wait half a second and try again.
    Retry,
    /// Give up, for the reason given.
    Fail(String),
}

/// What came of writing a value with the rights of the administrator.
pub enum PipedResult {
    /// The program that asks for the rights could not be started.
    LaunchFailed(String),
    /// Its end could not be waited for.
    WaitFailed(String),
    /// It ended.
    Exited { success: bool, stderr: Vec<u8> },
}

/// What the files of a power supply say; none where one cannot be read.
pub struct SupplyFiles {
    pub kind: Option<String>,
    pub online: Option<String>,
}

/// What the files of a thermal zone say; none where one cannot be read.
pub struct ZoneFiles {
    /// The name of its directory, where it is valid UTF-8.
    pub name: Option<String>,
    pub kind: Option<String>,
    pub temp: Option<String>,
}

// ── Writing ─────────────────────────────────────────────────────────────────

/// The write of a value to a file of the ASUS platform driver.
pub fn write_asus(file: &str, value: &str) -> (r: WriteRequest)
    ensures
        r.path@ == ASUS_WMI@ + "/"@ + file@,
        r.value@ == value@,
{
    let mut path: String = ASUS_WMI.to_owned();
    path.append("/");
    path.append(file);
    WriteRequest { path, value: value.to_owned() }
}

/// The device may be busy: trying again may help.
pub open spec fn is_busy(e: WriteFailure) -> bool {
    e.kind == FailureKind::Other || e.os_code == Some(EIO)
}

/// What is to be done after the given attempt, counted from zero, at writing a
/// value: with the rights of the administrator where they are missing, again
/// where the device may be busy and attempts are left.
pub fn write_sysfs(attempt: u32, outcome: Result<(), WriteFailure>) -> (r: WriteStep)
    requires
        attempt < ATTEMPTS,
    ensures
        match outcome {
            Ok(_) => r is Done,
            Err(e) => if e.kind == FailureKind::PermissionDenied {
                r is Privileged
            } else if is_busy(e) {
                if attempt + 1 < ATTEMPTS {
                    r is Retry
                } else {
                    r matches WriteStep::Fail(m) && m@ == "Write error (device may be busy): "@
                        + e.message@
                }
            } else {
                r matches WriteStep::Fail(m) && m@ == "Write error: "@ + e.message@
            },
        },
{
    match outcome {
        Ok(_) => WriteStep::Done,
        Err(e) => {
            if e.kind == FailureKind::PermissionDenied {
                return WriteStep::Privileged;
            }
            let eio: bool = match e.os_code {
                Some(code) => code == EIO,
                None => false,
            };
            if e.kind == FailureKind::Other || eio {
                if attempt + 1 < ATTEMPTS {
                    return WriteStep::Retry;
                }
                return WriteStep::Fail(
                    prefixed("Write error (device may be busy): ", e.message.as_str()),
                );
            }
            WriteStep::Fail(prefixed("Write error: ", e.message.as_str()))
        },
    }
}

/// One string after another.
pub fn prefixed(prefix: &str, s: &str) -> (r: String)
    ensures
        r@ == prefix@ + s@,
{
    let mut r: String = prefix.to_owned();
    r.append(s);
    r
}

/// The arguments of the program that writes its input to a file with the
/// rights of the administrator.
pub fn tee_command(path: &str) -> (r: Vec<String>)
    ensures
        crate::process::strings(r@) == seq!["tee"@, path@],
{
    let mut r: Vec<String> = Vec::new();
    r.push("tee".to_owned());
    r.push(path.to_owned());
    assert(crate::process::strings(r@) =~= seq!["tee"@, path@]);
    r
}

/// What came of writing a value with the rights of the administrator.
pub fn write_privileged(outcome: PipedResult) -> (r: Result<(), String>)
    ensures
        match outcome {
            PipedResult::LaunchFailed(e) => r matches Err(m) && m@ == "Failed to launch pkexec: "@
                + e@,
            PipedResult::WaitFailed(e) => r matches Err(m) && m@ == "pkexec wait failed: "@ + e@,
            PipedResult::Exited { success: true, .. } => r is Ok,
            PipedResult::Exited { success: false, stderr } => r matches Err(m) && m@
                == "Permission denied or write failed.\n"@ + unicode::utf8_lossy(stderr@),
        },
{
    match outcome {
        PipedResult::LaunchFailed(e) => Err(prefixed("Failed to launch pkexec: ", e.as_str())),
        PipedResult::WaitFailed(e) => Err(prefixed("pkexec wait failed: ", e.as_str())),
        PipedResult::Exited { success, stderr } => if success {
            Ok(())
        } else {
            Err(
                prefixed(
                    "Permission denied or write failed.\n",
                    lossy(stderr.as_slice()).as_str(),
                ),
            )
        },
    }
}

// ── Reading ─────────────────────────────────────────────────────────────────

/// `s` is there, and is `t` but for white space at either end.
pub open spec fn reads(s: Option<String>, t: Seq<char>) -> bool {
    s matches Some(s) && text::trim(s@) == t
}

/// Whether `s` is there, and is `t` but for white space at either end.
pub fn reads_as(s: &Option<String>, t: &str) -> (r: bool)
    ensures
        r == reads(*s, t@),
{
    match s {
        Some(s) => {
            let v = chars_of(s.as_str());
            is_text(trimmed(v.as_slice()), t)
        },
        None => false,
    }
}

/// The first of the supplies that is mains power and says whether it is
/// connected, says so.
pub open spec fn mains_online(supplies: Seq<SupplyFiles>) -> bool
    decreases supplies.len(),
{
    if supplies.len() == 0 {
        false
    } else if reads(supplies[0].kind, "Mains"@) && supplies[0].online is Some {
        reads(supplies[0].online, "1"@)
    } else {
        mains_online(supplies.skip(1))
    }
}

/// Whether mains power is connected.
pub fn ac_connected(supplies: &Vec<SupplyFiles>) -> (r: bool)
    ensures
        r == mains_online(supplies@),
{
    let ghost all = supplies@;
    let mut i: usize = 0;
    assert(all.skip(0) =~= all);
    while i < supplies.len()
        invariant
            i <= supplies@.len(),
            all == supplies@,
            mains_online(all) == mains_online(all.skip(i as int)),
        decreases supplies@.len() - i,
    {
        assert(all.skip(i as int)[0] == all[i as int]);
        assert(all.skip(i as int).skip(1) =~= all.skip(i + 1));
        if reads_as(&supplies[i].kind, "Mains") && supplies[i].online.is_some() {
            return reads_as(&supplies[i].online, "1");
        }
        i += 1;
    }
    false
}

/// A thermal zone of this kind measures the processor.
pub open spec fn is_cpu_zone(kind: Seq<char>) -> bool {
    ||| text::contains(kind, "x86_pkg_temp"@)
    ||| text::contains(kind, "coretemp"@)
    ||| text::contains(kind, "k10temp"@)
    ||| text::contains(kind, "Tdie"@)
    ||| text::contains(kind, "Tctl"@)
}

/// The temperature, in thousandths of a degree, that the first zone of the
/// processor writes; nothing where a zone before it cannot be read, or where
/// that zone writes no number.
pub open spec fn cpu_temp_text(zones: Seq<ZoneFiles>) -> Option<Seq<char>>
    decreases zones.len(),
{
    if zones.len() == 0 {
        None
    } else {
        match zones[0].name {
            None => None,
            Some(name) => if !text::starts_with(name@, "thermal_zone"@) {
                cpu_temp_text(zones.skip(1))
            } else {
                match zones[0].kind {
                    None => None,
                    Some(kind) => if is_cpu_zone(text::trim(kind@)) {
                        match zones[0].temp {
                            Some(t) if number::is_float(text::trim(t@)) => Some(text::trim(t@)),
                            _ => None,
                        }
                    } else {
                        cpu_temp_text(zones.skip(1))
                    },
                }
            },
        }
    }
}

/// The temperature that the first zone of the processor writes.
pub fn read_cpu_temp(zones: &Vec<ZoneFiles>) -> (r: Option<String>)
    ensures
        text::opt_view(r) == cpu_temp_text(zones@),
{
    let ghost all = zones@;
    let mut i: usize = 0;
    assert(all.skip(0) =~= all);
    while i < zones.len()
        invariant
            i <= zones@.len(),
            all == zones@,
            cpu_temp_text(all) == cpu_temp_text(all.skip(i as int)),
        decreases zones@.len() - i,
    {
        assert(all.skip(i as int)[0] == all[i as int]);
        assert(all.skip(i as int).skip(1) =~= all.skip(i + 1));
        let name = match &zones[i].name {
            Some(n) => chars_of(n.as_str()),
            None => return None,
        };
        if begins(name.as_slice(), "thermal_zone") {
            let kind_chars = match &zones[i].kind {
                Some(k) => chars_of(k.as_str()),
                None => return None,
            };
            let kind = trimmed(kind_chars.as_slice());
            if holds(kind, "x86_pkg_temp") || holds(kind, "coretemp") || holds(kind, "k10temp")
                || holds(kind, "Tdie") || holds(kind, "Tctl") {
                let temp_chars = match &zones[i].temp {
                    Some(t) => chars_of(t.as_str()),
                    None => return None,
                };
                let temp = trimmed(temp_chars.as_slice());
                return if float_text(temp) {
                    Some(string_of(temp))
                } else {
                    None
                };
            }
        }
        i += 1;
    }
    None
}

/// How many of the lines describe a processor.
pub open spec fn processor_lines(lines: Seq<Seq<char>>) -> nat
    decreases lines.len(),
{
    if lines.len() == 0 {
        0
    } else {
        processor_lines(lines.drop_last()) + if text::starts_with(lines.last(), "processor"@) {
            1nat
        } else {
            0nat
        }
    }
}

/// How many processors the kernel describes; one where it describes nothing.
pub fn count_cpus(cpuinfo: &Option<String>) -> (r: usize)
    ensures
        r == (match *cpuinfo {
            Some(s) => processor_lines(text::lines(s@)),
            None => 1,
        }),
{
    let chars = match cpuinfo {
        Some(s) => chars_of(s.as_str()),
        None => return 1,
    };
    let lines = lines_of(chars.as_slice());
    let ghost all = text::views(lines@);
    let mut n: usize = 0;
    let mut i: usize = 0;
    assert(all.take(0) =~= seq![]);
    while i < lines.len()
        invariant
            n <= i <= lines@.len(),
            all == text::views(lines@),
            n == processor_lines(all.take(i as int)),
        decreases lines@.len() - i,
    {
        assert(all[i as int] == lines@[i as int]@);
        assert(all.take(i + 1).drop_last() =~= all.take(i as int));
        if begins(lines[i], "processor") {
            n += 1;
        }
        i += 1;
    }
    assert(all.take(i as int) =~= all);
    n
}

// ── Laws ────────────────────────────────────────────────────────────────────

/// A supply is mains power and says whether it is connected.
pub open spec fn tells_mains(s: SupplyFiles) -> bool {
    reads(s.kind, "Mains"@) && s.online is Some
}

/// Mains power is connected exactly where the first supply that is mains power
/// and can be read says so: any other supply, and any after it, is ignored.
pub proof fn law_mains_decided_by_first(supplies: Seq<SupplyFiles>)
    ensures
        mains_online(supplies) <==> exists|i: int|
            0 <= i < supplies.len() && tells_mains(#[trigger] supplies[i]) && reads(
                supplies[i].online,
                "1"@,
            ) && forall|j: int| 0 <= j < i ==> !tells_mains(#[trigger] supplies[j]),
    decreases supplies.len(),
{
    if supplies.len() > 0 && !tells_mains(supplies[0]) {
        let rest = supplies.skip(1);
        law_mains_decided_by_first(rest);
        if mains_online(rest) {
            let i = choose|i: int|
                0 <= i < rest.len() && tells_mains(#[trigger] rest[i]) && reads(rest[i].online, "1"@)
                    && forall|j: int| 0 <= j < i ==> !tells_mains(#[trigger] rest[j]);
            assert(supplies[i + 1] == rest[i]);
            assert forall|j: int| 0 <= j < i + 1 implies !tells_mains(#[trigger] supplies[j]) by {
                if j > 0 {
                    assert(supplies[j] == rest[j - 1]);
                }
            }
        }
        if exists|i: int|
            0 <= i < supplies.len() && tells_mains(#[trigger] supplies[i]) && reads(
                supplies[i].online,
                "1"@,
            ) && forall|j: int| 0 <= j < i ==> !tells_mains(#[trigger] supplies[j]) {
            let i = choose|i: int|
                0 <= i < supplies.len() && tells_mains(#[trigger] supplies[i]) && reads(
                    supplies[i].online,
                    "1"@,
                ) && forall|j: int| 0 <= j < i ==> !tells_mains(#[trigger] supplies[j]);
            assert(rest[i - 1] == supplies[i]);
            assert forall|j: int| 0 <= j < i - 1 implies !tells_mains(#[trigger] rest[j]) by {
                assert(rest[j] == supplies[j + 1]);
            }
        }
    }
}

/// A thermal zone whose kind is that of a sensor of the processor.
pub open spec fn measures_cpu(z: ZoneFiles) -> bool {
    &&& z.name matches Some(n) && text::starts_with(n@, "thermal_zone"@)
    &&& z.kind matches Some(k) && (text::contains(text::trim(k@), "x86_pkg_temp"@)
        || text::contains(text::trim(k@), "coretemp"@) || text::contains(
        text::trim(k@),
        "k10temp"@,
    ) || text::contains(text::trim(k@), "Tdie"@) || text::contains(text::trim(k@), "Tctl"@))
}

/// A zone can be read, or need not be: its directory is known, and its kind
/// where it is a thermal zone.
pub open spec fn can_be_told(z: ZoneFiles) -> bool {
    z.name matches Some(n) && (text::starts_with(n@, "thermal_zone"@) ==> z.kind is Some)
}

/// The temperature of the processor is what its first zone writes, where every
/// zone before it could be told from one.
pub proof fn law_cpu_temp_of_first_zone(zones: Seq<ZoneFiles>, i: int)
    requires
        0 <= i < zones.len(),
        measures_cpu(zones[i]),
        forall|j: int|
            0 <= j < i ==> can_be_told(#[trigger] zones[j]) && !measures_cpu(zones[j]),
    ensures
        cpu_temp_text(zones) == (match zones[i].temp {
            Some(t) if number::is_float(text::trim(t@)) => Some(text::trim(t@)),
            _ => None,
        }),
    decreases zones.len(),
{
    if i > 0 {
        let rest = zones.skip(1);
        assert(can_be_told(zones[0]) && !measures_cpu(zones[0]));
        assert(forall|j: int| 0 <= j < rest.len() ==> #[trigger] rest[j] == zones[j + 1]);
        law_cpu_temp_of_first_zone(rest, i - 1);
    }
}

/// A zone that cannot be told from one of the processor, before any that is one,
/// leaves the temperature unknown.
pub proof fn law_cpu_temp_unknown_after(zones: Seq<ZoneFiles>, i: int)
    requires
        0 <= i < zones.len(),
        !can_be_told(zones[i]),
        forall|j: int|
            0 <= j < i ==> can_be_told(#[trigger] zones[j]) && !measures_cpu(zones[j]),
    ensures
        cpu_temp_text(zones) is None,
    decreases zones.len(),
{
    if i > 0 {
        let rest = zones.skip(1);
        assert(can_be_told(zones[0]) && !measures_cpu(zones[0]));
        assert(forall|j: int| 0 <= j < rest.len() ==> #[trigger] rest[j] == zones[j + 1]);
        law_cpu_temp_unknown_after(rest, i - 1);
    }
}

/// No zone of the processor gives no temperature.
pub proof fn law_no_cpu_zone_no_temp(zones: Seq<ZoneFiles>)
    requires
        forall|j: int| 0 <= j < zones.len() ==> !measures_cpu(#[trigger] zones[j]),
    ensures
        cpu_temp_text(zones) is None,
    decreases zones.len(),
{
    if zones.len() > 0 {
        let rest = zones.skip(1);
        assert(!measures_cpu(zones[0]));
        assert(forall|j: int| 0 <= j < rest.len() ==> #[trigger] rest[j] == zones[j + 1]);
        law_no_cpu_zone_no_temp(rest);
    }
}

/// The processors are as many as the lines that begin with `processor`.
pub proof fn law_processors_counted(lines: Seq<Seq<char>>)
    ensures
        processor_lines(lines) == lines.filter(
            |l: Seq<char>| text::starts_with(l, "processor"@),
        ).len(),
    decreases lines.len(),
{
    reveal(Seq::filter);
    if lines.len() > 0 {
        law_processors_counted(lines.drop_last());
    }
}


/// A write is tried again only where the device may be busy: an input or output
/// error, or one of no kind of its own.
pub proof fn law_busy(e: WriteFailure)
    ensures
        is_busy(e) <==> e.kind == FailureKind::Other || e.os_code == Some(5i32),
{
}

} // verus!

//! Audio devices as `pactl` reports them, and the row that is looked at.

pub mod report;

use crate::number::{self, number_text, only_digits, read_unsigned};
use crate::process::{self, err_msg, ProcessResult};
use crate::text::{
    self, begins, chars_of, finishes, head, holds, is_text, lines_of, part_before, position,
    replaced, rest_after, same_str, split_on, string_of, tail, trimmed, trimmed_string,
};
use crate::unicode::{self, numeric_char};
use vstd::prelude::*;
use vstd::string::*;

verus! {

// ── Types ───────────────────────────────────────────────────────────────────

/// A port of an audio device.
#[derive(Debug, Clone)]
pub struct AudioPort {
    pub port_name: String,
    pub display_name: String,
    pub available: bool,
    pub is_active: bool,
}

/// An audio device.
#[derive(Debug, Clone)]
pub struct AudioDevice {
    pub pactl_name: String,
    pub display_name: String,
    /// The volume in percent.
    pub volume: u32,
    pub muted: bool,
    pub is_default: bool,
    pub ports: Vec<AudioPort>,
    pub active_port: Option<String>,
}

/// The audio devices and the row that is looked at.
#[derive(Debug, Clone)]
pub struct AudioManager {
    pub sinks: Vec<AudioDevice>,
    pub sources: Vec<AudioDevice>,
    /// Zero for output, anything else for input.
    pub section: usize,
    /// The row that is looked at: each device takes one row, and each of its
    /// ports one below it.
    pub cursor: usize,
}

/// What an `AudioPort` holds.
pub struct PortView {
    pub port_name: Seq<char>,
    pub display_name: Seq<char>,
    pub available: bool,
    pub is_active: bool,
}

/// What an `AudioDevice` holds.
pub struct DeviceView {
    pub pactl_name: Seq<char>,
    pub display_name: Seq<char>,
    pub volume: u32,
    pub muted: bool,
    pub is_default: bool,
    pub ports: Seq<PortView>,
    pub active_port: Option<Seq<char>>,
}

impl View for AudioPort {
    type V = PortView;

    open spec fn view(&self) -> PortView {
        PortView {
            port_name: self.port_name@,
            display_name: self.display_name@,
            available: self.available,
            is_active: self.is_active,
        }
    }
}

impl View for AudioDevice {
    type V = DeviceView;

    open spec fn view(&self) -> DeviceView {
        DeviceView {
            pactl_name: self.pactl_name@,
            display_name: self.display_name@,
            volume: self.volume,
            muted: self.muted,
            is_default: self.is_default,
            ports: port_views(self.ports@),
            active_port: text::opt_view(self.active_port),
        }
    }
}

/// What a list of ports holds.
pub open spec fn port_views(s: Seq<AudioPort>) -> Seq<PortView> {
    s.map_values(|p: AudioPort| p@)
}

/// What a list of devices holds.
pub open spec fn device_views(s: Seq<AudioDevice>) -> Seq<DeviceView> {
    s.map_values(|d: AudioDevice| d@)
}

// ── Reading the report of a device ──────────────────────────────────────────

/// What has been read of the report of one device.
pub struct ReportView {
    pub name: Seq<char>,
    pub description: Seq<char>,
    pub volume: u32,
    pub muted: bool,
    pub ports: Seq<PortView>,
    pub active_port: Option<Seq<char>>,
    /// The lines that follow name ports.
    pub in_ports: bool,
}

/// The report of a device before its first line.
pub open spec fn empty_report() -> ReportView {
    ReportView {
        name: seq![],
        description: seq![],
        volume: 0,
        muted: false,
        ports: seq![],
        active_port: None,
        in_ports: false,
    }
}

/// How many characters of `s`, from the left, are numeric.
pub open spec fn numeric_len(s: Seq<char>) -> nat
    decreases s.len(),
{
    if s.len() > 0 && unicode::numeric(s[0]) {
        1 + numeric_len(s.skip(1))
    } else {
        0
    }
}

/// The percentage that a volume line gives after its first slash; `was` where
/// it gives none.
pub open spec fn volume_of(line: Seq<char>, was: u32) -> u32 {
    match text::find(line, "/"@) {
        None => was,
        Some(i) => {
            let t = text::trim(line.skip(i + 1));
            let d = t.take(numeric_len(t) as int);
            if d.len() == 0 || !number::all_digits(d) {
                was
            } else if number::decimal(d) > u32::MAX {
                u32::MAX
            } else {
                number::decimal(d) as u32
            }
        },
    }
}

/// `line` names a port: `NAME: DESCRIPTION`.
pub open spec fn is_port_line(line: Seq<char>) -> bool {
    &&& text::contains(line, ": "@)
    &&& !text::starts_with(line, "Part of"@)
    &&& !text::starts_with(line, "Properties"@)
}

/// The port that a line names.
pub open spec fn port_of(line: Seq<char>) -> PortView {
    let colon = text::find(line, ": "@).unwrap();
    let rest = line.skip(colon + 2);
    PortView {
        port_name: text::trim(line.take(colon)),
        display_name: text::trim(text::before(rest, " (type:"@)),
        available: text::contains(rest, "available"@) && !text::contains(rest, "not available"@),
        is_active: false,
    }
}

/// The report of a device after one more line.
pub open spec fn after_line(r: ReportView, raw_line: Seq<char>) -> ReportView {
    let line = text::trim(raw_line);
    if text::starts_with(line, "Name:"@) {
        ReportView { name: text::trim(text::after(line, "Name:"@)), in_ports: false, ..r }
    } else if text::starts_with(line, "Description:"@) {
        ReportView { description: text::trim(text::after(line, "Description:"@)), ..r }
    } else if text::starts_with(line, "Mute:"@) {
        ReportView { muted: text::trim(text::after(line, "Mute:"@)) == "yes"@, ..r }
    } else if text::starts_with(line, "Volume:"@) {
        ReportView { volume: volume_of(line, r.volume), ..r }
    } else if line == "Ports:"@ {
        ReportView { in_ports: true, ..r }
    } else if text::starts_with(line, "Active Port:"@) {
        ReportView {
            active_port: Some(text::trim(text::after(line, "Active Port:"@))),
            in_ports: false,
            ..r
        }
    } else if r.in_ports && is_port_line(line) {
        ReportView { ports: r.ports.push(port_of(line)), ..r }
    } else {
        ReportView { in_ports: false, ..r }
    }
}

/// The report of a device after the given lines.
pub open spec fn after_lines(lines: Seq<Seq<char>>) -> ReportView
    decreases lines.len(),
{
    if lines.len() == 0 {
        empty_report()
    } else {
        after_line(after_lines(lines.drop_last()), lines.last())
    }
}

/// A device's description with the vendor's phrases shortened.
pub open spec fn spec_clean_name(name: Seq<char>) -> Seq<char> {
    text::trim(
        text::replace(
            text::replace(
                text::replace(name, "Family 17h/19h HD Audio Controller "@, ""@),
                "Rembrandt Radeon High Definition Audio Controller "@,
                "AMD Audio "@,
            ),
            "HDA NVidia"@,
            "NVIDIA Audio"@,
        ),
    )
}

/// The ports of a report, the one in use marked.
pub open spec fn marked(ports: Seq<PortView>, active: Option<Seq<char>>) -> Seq<PortView> {
    match active {
        None => ports,
        Some(name) => ports.map_values(
            |p: PortView| PortView { is_active: p.port_name == name, ..p },
        ),
    }
}

/// The device that a report describes: none where it has no name, or where it
/// is an input that monitors an output.
pub open spec fn device_of(
    block: Seq<char>,
    is_source: bool,
    default_name: Option<Seq<char>>,
) -> Option<DeviceView> {
    let r = after_lines(text::lines(block));
    if r.name.len() == 0 || (is_source && text::ends_with(r.name, ".monitor"@)) {
        None
    } else {
        Some(
            DeviceView {
                pactl_name: r.name,
                display_name: spec_clean_name(r.description),
                volume: r.volume,
                muted: r.muted,
                is_default: default_name == Some(r.name),
                ports: marked(r.ports, r.active_port),
                active_port: r.active_port,
            },
        )
    }
}

/// The devices that some reports describe.
pub open spec fn devices_of(
    blocks: Seq<Seq<char>>,
    is_source: bool,
    default_name: Option<Seq<char>>,
) -> Seq<DeviceView>
    decreases blocks.len(),
{
    if blocks.len() == 0 {
        seq![]
    } else {
        let front = devices_of(blocks.drop_last(), is_source, default_name);
        match device_of(blocks.last(), is_source, default_name) {
            Some(d) => front.push(d),
            None => front,
        }
    }
}

/// What the report of a device begins with.
pub open spec fn block_prefix(is_source: bool) -> Seq<char> {
    if is_source {
        "Source #"@
    } else {
        "Sink #"@
    }
}

/// The devices that the output of `pactl list` describes.
pub open spec fn devices_in(
    raw: Seq<char>,
    is_source: bool,
    default_name: Option<Seq<char>>,
) -> Seq<DeviceView> {
    devices_of(text::split(raw, block_prefix(is_source)).skip(1), is_source, default_name)
}

// ── Rows ────────────────────────────────────────────────────────────────────

/// How many rows some devices take.
pub open spec fn rows(devices: Seq<AudioDevice>) -> nat
    decreases devices.len(),
{
    if devices.len() == 0 {
        0
    } else {
        rows(devices.drop_last()) + 1 + devices.last().ports@.len()
    }
}

/// How many rows some devices take.
pub open spec fn view_rows(devices: Seq<DeviceView>) -> nat
    decreases devices.len(),
{
    if devices.len() == 0 {
        0
    } else {
        view_rows(devices.drop_last()) + 1 + devices.last().ports.len()
    }
}

proof fn lemma_rows_views(devices: Seq<AudioDevice>)
    ensures
        rows(devices) == view_rows(device_views(devices)),
    decreases devices.len(),
{
    if devices.len() > 0 {
        lemma_rows_views(devices.drop_last());
        assert(device_views(devices).drop_last() =~= device_views(devices.drop_last()));
    }
}

proof fn lemma_ports_len(lines: Seq<Seq<char>>)
    ensures
        after_lines(lines).ports.len() <= lines.len(),
    decreases lines.len(),
{
    if lines.len() > 0 {
        lemma_ports_len(lines.drop_last());
    }
}

proof fn lemma_devices_rows(
    blocks: Seq<Seq<char>>,
    is_source: bool,
    default_name: Option<Seq<char>>,
)
    ensures
        view_rows(devices_of(blocks, is_source, default_name)) <= text::weight(blocks),
    decreases blocks.len(),
{
    if blocks.len() > 0 {
        let front = devices_of(blocks.drop_last(), is_source, default_name);
        lemma_devices_rows(blocks.drop_last(), is_source, default_name);
        lemma_ports_len(text::lines(blocks.last()));
        text::lemma_lines_len(blocks.last());
        match device_of(blocks.last(), is_source, default_name) {
            Some(d) => {
                assert(front.push(d).drop_last() =~= front);
            },
            None => {},
        }
    }
}

/// The devices that a text describes take no more rows than the text has
/// characters.
pub proof fn law_rows_bounded(raw: Seq<char>, is_source: bool, default_name: Option<Seq<char>>)
    ensures
        view_rows(devices_in(raw, is_source, default_name)) <= raw.len(),
{
    reveal_strlit("Source #");
    reveal_strlit("Sink #");
    text::lemma_split_weight(raw, block_prefix(is_source));
    lemma_devices_rows(
        text::split(raw, block_prefix(is_source)).skip(1),
        is_source,
        default_name,
    );
}

// ── Parsing ─────────────────────────────────────────────────────────────────

/// What has been read of the report of one device.
struct Report {
    name: String,
    description: String,
    volume: u32,
    muted: bool,
    ports: Vec<AudioPort>,
    active_port: Option<String>,
    in_ports: bool,
}

impl View for Report {
    type V = ReportView;

    closed spec fn view(&self) -> ReportView {
        ReportView {
            name: self.name@,
            description: self.description@,
            volume: self.volume,
            muted: self.muted,
            ports: port_views(self.ports@),
            active_port: text::opt_view(self.active_port),
            in_ports: self.in_ports,
        }
    }
}

/// The percentage that a volume line gives, or `was`.
fn read_volume(line: &[char], was: u32) -> (r: u32)
    ensures
        r == volume_of(line@, was),
{
    proof {
        reveal_strlit("/");
    }
    let i: usize = match position(line, "/") {
        Some(i) => i,
        None => return was,
    };
    let len: usize = line.len();
    let t = trimmed(tail(line, i + 1));
    let mut n: usize = 0;
    assert(t@.skip(0) =~= t@);
    while n < t.len() && numeric_char(t[n])
        invariant
            n <= t@.len(),
            numeric_len(t@) == n + numeric_len(t@.skip(n as int)),
        decreases t@.len() - n,
    {
        assert(t@.skip(n as int).skip(1) =~= t@.skip(n + 1));
        n += 1;
    }
    let d = head(t, n);
    if n == 0 || !only_digits(d) {
        return was;
    }
    assert(number::unsigned_part(d@) == d@) by {
        assert(number::is_digit(d@[0]));
    }
    match read_unsigned(d, 0xffff_ffff) {
        Some(v) => v as u32,
        None => 0xffff_ffff,
    }
}

/// The port that a line names; none where it names none.
fn read_port(line: &[char]) -> (r: Option<AudioPort>)
    ensures
        match r {
            Some(p) => is_port_line(line@) && p@ == port_of(line@),
            None => !is_port_line(line@),
        },
{
    if begins(line, "Part of") || begins(line, "Properties") {
        return None;
    }
    proof {
        reveal_strlit(": ");
    }
    let colon: usize = match position(line, ": ") {
        Some(i) => i,
        None => return None,
    };
    let len: usize = line.len();
    let rest = tail(line, colon + 2);
    Some(
        AudioPort {
            port_name: string_of(trimmed(head(line, colon))),
            display_name: string_of(trimmed(part_before(rest, " (type:"))),
            available: holds(rest, "available") && !holds(rest, "not available"),
            is_active: false,
        },
    )
}

impl Report {
    /// Takes in one more line.
    fn read_line(&mut self, raw_line: &[char])
        ensures
            final(self)@ == after_line(old(self)@, raw_line@),
    {
        let line = trimmed(raw_line);
        if let Some(rest) = rest_after(line, "Name:") {
            self.name = string_of(trimmed(rest));
            self.in_ports = false;
        } else if let Some(rest) = rest_after(line, "Description:") {
            self.description = string_of(trimmed(rest));
        } else if let Some(rest) = rest_after(line, "Mute:") {
            self.muted = is_text(trimmed(rest), "yes");
        } else if begins(line, "Volume:") {
            self.volume = read_volume(line, self.volume);
        } else if is_text(line, "Ports:") {
            self.in_ports = true;
        } else if let Some(rest) = rest_after(line, "Active Port:") {
            self.active_port = Some(string_of(trimmed(rest)));
            self.in_ports = false;
        } else if self.in_ports {
            match read_port(line) {
                Some(p) => {
                    let ghost before = self.ports@;
                    self.ports.push(p);
                    assert(port_views(self.ports@) =~= port_views(before).push(p@));
                },
                None => {
                    self.in_ports = false;
                },
            }
        }
    }
}

/// Reads the report of one device.
fn read_report(block: &[char]) -> (r: Report)
    ensures
        r@ == after_lines(text::lines(block@)),
{
    let mut r = Report {
        name: String::new(),
        description: String::new(),
        volume: 0,
        muted: false,
        ports: Vec::new(),
        active_port: None,
        in_ports: false,
    };
    let lines = lines_of(block);
    let ghost all = text::lines(block@);
    let mut i: usize = 0;
    assert(port_views(r.ports@) =~= seq![]);
    assert(all.take(0) =~= seq![]);
    while i < lines.len()
        invariant
            i <= lines@.len(),
            text::views(lines@) == all,
            lines@.len() == all.len(),
            r@ == after_lines(all.take(i as int)),
        decreases lines@.len() - i,
    {
        assert(all[i as int] == lines@[i as int]@);
        assert(all.take(i + 1).drop_last() =~= all.take(i as int));
        r.read_line(lines[i]);
        i += 1;
    }
    assert(all.take(i as int) =~= all);
    r
}

/// A device's description with the vendor's phrases shortened.
pub fn clean_name(name: &str) -> (r: String)
    ensures
        r@ == spec_clean_name(name@),
{
    proof {
        reveal_strlit("Family 17h/19h HD Audio Controller ");
        reveal_strlit("Rembrandt Radeon High Definition Audio Controller ");
        reveal_strlit("HDA NVidia");
    }
    let v = chars_of(name);
    let v = replaced(v.as_slice(), "Family 17h/19h HD Audio Controller ", "");
    let v = replaced(
        v.as_slice(),
        "Rembrandt Radeon High Definition Audio Controller ",
        "AMD Audio ",
    );
    let v = replaced(v.as_slice(), "HDA NVidia", "NVIDIA Audio");
    string_of(trimmed(v.as_slice()))
}

/// Marks the port in use.
fn mark_active(ports: &mut Vec<AudioPort>, active: &Option<String>)
    ensures
        port_views(final(ports)@) == marked(port_views(old(ports)@), text::opt_view(*active)),
{
    let ghost was = ports@;
    if let Some(name) = active {
        let mut i: usize = 0;
        while i < ports.len()
            invariant
                i <= ports@.len(),
                ports@.len() == was.len(),
                forall|k: int| i <= k < was.len() ==> ports@[k] == was[k],
                forall|k: int|
                    0 <= k < i ==> (#[trigger] ports@[k])@ == (PortView {
                        is_active: was[k].port_name@ == name@,
                        ..was[k]@
                    }),
            decreases ports@.len() - i,
        {
            let active_here: bool = same_str(ports[i].port_name.as_str(), name.as_str());
            ports[i].is_active = active_here;
            i += 1;
        }
        assert(port_views(ports@) =~= marked(port_views(was), Some(name@)));
    }
}

/// The device that a report describes.
fn read_device(block: &[char], is_source: bool, default_name: &Option<String>) -> (r: Option<
    AudioDevice,
>)
    ensures
        match r {
            Some(d) => device_of(block@, is_source, text::opt_view(*default_name)) == Some(d@),
            None => device_of(block@, is_source, text::opt_view(*default_name)) is None,
        },
{
    let r = read_report(block);
    let name = chars_of(r.name.as_str());
    if name.len() == 0 || (is_source && finishes(name.as_slice(), ".monitor")) {
        return None;
    }
    let is_default: bool = match default_name {
        Some(d) => same_str(d.as_str(), r.name.as_str()),
        None => false,
    };
    let mut ports = r.ports;
    mark_active(&mut ports, &r.active_port);
    Some(
        AudioDevice {
            display_name: clean_name(r.description.as_str()),
            pactl_name: r.name,
            volume: r.volume,
            muted: r.muted,
            is_default,
            ports,
            active_port: r.active_port,
        },
    )
}

/// The devices that the output of `pactl list` describes.
pub fn parse_pactl_devices(raw: &str, is_source: bool, default_name: &Option<String>) -> (r: Vec<
    AudioDevice,
>)
    ensures
        device_views(r@) == devices_in(raw@, is_source, text::opt_view(*default_name)),
        rows(r@) <= usize::MAX,
{
    let chars = chars_of(raw);
    let len: usize = chars.len();
    let prefix: &str = if is_source {
        "Source #"
    } else {
        "Sink #"
    };
    proof {
        reveal_strlit("Source #");
        reveal_strlit("Sink #");
        text::lemma_split_weight(raw@, block_prefix(is_source));
    }
    let blocks = split_on(chars.as_slice(), prefix);
    let ghost default_view = text::opt_view(*default_name);
    let ghost all = text::split(raw@, block_prefix(is_source)).skip(1);
    assert(text::views(blocks@) == text::split(raw@, block_prefix(is_source)));
    let mut devices: Vec<AudioDevice> = Vec::new();
    let mut i: usize = 1;
    assert(blocks@.len() == all.len() + 1);
    assert(device_views(devices@) =~= seq![]);
    assert(all.take(0) =~= seq![]);
    while i < blocks.len()
        invariant
            1 <= i <= blocks@.len(),
            blocks@.len() == all.len() + 1,
            text::views(blocks@).skip(1) == all,
            default_view == text::opt_view(*default_name),
            device_views(devices@) == devices_of(all.take(i - 1), is_source, default_view),
        decreases blocks@.len() - i,
    {
        assert(all[i - 1] == blocks@[i as int]@);
        assert(all.take(i as int).drop_last() =~= all.take(i - 1));
        assert(all.take(i as int).last() == blocks@[i as int]@);
        let ghost before = devices@;
        if let Some(d) = read_device(blocks[i], is_source, default_name) {
            devices.push(d);
            assert(device_views(devices@) =~= device_views(before).push(d@));
        }
        i += 1;
    }
    assert(all.take(i - 1) =~= all);
    proof {
        law_rows_bounded(raw@, is_source, default_view);
        lemma_rows_views(devices@);
    }
    devices
}

// ── The row that is looked at ───────────────────────────────────────────────

/// The device, and the port of it, that the given row shows, the devices being
/// counted from `first`; the first device where there is no such row.
pub open spec fn locate(devices: Seq<AudioDevice>, row: int, first: int) -> (int, Option<int>)
    decreases devices.len(),
{
    if devices.len() == 0 {
        (0, None)
    } else if row == 0 {
        (first, None)
    } else if row <= devices[0].ports@.len() {
        (first, Some(row - 1))
    } else {
        locate(devices.skip(1), row - 1 - devices[0].ports@.len(), first + 1)
    }
}

/// The row that shows a device, or a port of it.
pub open spec fn row_of(devices: Seq<AudioDevice>, device: int, port: Option<int>) -> int {
    rows(devices.take(device)) + (match port {
        None => 0,
        Some(p) => p + 1,
    })
}

/// `port`, where it is one, is a port of the device.
pub open spec fn is_place(devices: Seq<AudioDevice>, device: int, port: Option<int>) -> bool {
    &&& 0 <= device < devices.len()
    &&& port matches Some(p) ==> 0 <= p < devices[device].ports@.len()
}

proof fn lemma_rows_front(devices: Seq<AudioDevice>)
    requires
        devices.len() > 0,
    ensures
        rows(devices) == 1 + devices[0].ports@.len() + rows(devices.skip(1)),
    decreases devices.len(),
{
    if devices.len() == 1 {
        assert(devices.drop_last() =~= seq![]);
        assert(devices.skip(1) =~= seq![]);
        assert(rows(Seq::<AudioDevice>::empty()) == 0);
    } else {
        lemma_rows_front(devices.drop_last());
        assert(devices.drop_last().skip(1) =~= devices.skip(1).drop_last());
    }
}

proof fn lemma_locate(devices: Seq<AudioDevice>, row: int, first: int)
    requires
        0 <= row < rows(devices),
    ensures
        ({
            let (d, p) = locate(devices, row, first);
            is_place(devices, d - first, p) && row_of(devices, d - first, p) == row
        }),
    decreases devices.len(),
{
    if devices.len() > 0 {
        lemma_rows_front(devices);
        assert(devices.take(0) =~= seq![]);
        assert(rows(Seq::<AudioDevice>::empty()) == 0);
        let skipped = 1 + devices[0].ports@.len();
        if row >= skipped {
            let rest = devices.skip(1);
            lemma_locate(rest, row - skipped, first + 1);
            let (d, p) = locate(rest, row - skipped, first + 1);
            let k = d - first - 1;
            lemma_rows_front(devices.take(k + 1));
            assert(devices.take(k + 1).skip(1) =~= rest.take(k));
        }
    }
}

/// Every row shows one place, and it is the row of that place.
pub proof fn law_locate_row(devices: Seq<AudioDevice>, row: int)
    requires
        0 <= row < rows(devices),
    ensures
        ({
            let (d, p) = locate(devices, row, 0);
            is_place(devices, d, p) && row_of(devices, d, p) == row
        }),
{
    lemma_locate(devices, row, 0);
}

proof fn lemma_row_located(devices: Seq<AudioDevice>, device: int, port: Option<int>, first: int)
    requires
        is_place(devices, device, port),
    ensures
        0 <= row_of(devices, device, port) < rows(devices),
        locate(devices, row_of(devices, device, port), first) == (first + device, port),
    decreases devices.len(),
{
    lemma_rows_front(devices);
    assert(devices.take(0) =~= seq![]);
    assert(rows(Seq::<AudioDevice>::empty()) == 0);
    if device > 0 {
        let rest = devices.skip(1);
        lemma_row_located(rest, device - 1, port, first + 1);
        lemma_rows_front(devices.take(device));
        assert(devices.take(device).skip(1) =~= rest.take(device - 1));
    }
}

/// The row of a place shows that place.
pub proof fn law_row_located(devices: Seq<AudioDevice>, device: int, port: Option<int>)
    requires
        is_place(devices, device, port),
    ensures
        0 <= row_of(devices, device, port) < rows(devices),
        locate(devices, row_of(devices, device, port), 0) == (device, port),
{
    lemma_row_located(devices, device, port, 0);
}

impl Default for AudioManager {
    fn default() -> (r: Self)
        ensures
            r.sinks@ == Seq::<AudioDevice>::empty(),
            r.sources@ == Seq::<AudioDevice>::empty(),
            r.section == 0,
            r.cursor == 0,
    {
        AudioManager { sinks: Vec::new(), sources: Vec::new(), section: 0, cursor: 0 }
    }
}

/// The command that acts on an output, or on an input.
pub open spec fn command_for(section: usize, output: Seq<char>, input: Seq<char>) -> Seq<char> {
    if section == 0 {
        output
    } else {
        input
    }
}

/// The volume, in percent, after a change by `delta`: between 0 and 150.
pub open spec fn volume_after(volume: u32, delta: int) -> int {
    if volume + delta < 0 {
        0
    } else if volume + delta > 150 {
        150
    } else {
        volume + delta
    }
}

/// A volume that is set lies between 0 and 150 percent, and is the wanted one
/// where that does.
pub proof fn law_volume_in_range(volume: u32, delta: int)
    ensures
        0 <= volume_after(volume, delta) <= 150,
        0 <= volume + delta <= 150 ==> volume_after(volume, delta) == volume + delta,
{
}

impl AudioManager {
    /// The devices of the section that is looked at.
    pub open spec fn devices(&self) -> Seq<AudioDevice> {
        if self.section == 0 {
            self.sinks@
        } else {
            self.sources@
        }
    }

    /// The rows of either section can be counted.
    pub open spec fn countable(&self) -> bool {
        rows(self.sinks@) <= usize::MAX && rows(self.sources@) <= usize::MAX
    }

    /// The row that is looked at is one of the section's rows, or the first
    /// where it has none.
    pub open spec fn cursor_on_row(&self) -> bool {
        self.cursor == 0 || self.cursor < rows(self.devices())
    }

    /// The device that is looked at.
    pub open spec fn spec_device(&self) -> Option<AudioDevice> {
        if self.devices().len() == 0 {
            None
        } else {
            Some(self.devices()[locate(self.devices(), self.cursor as int, 0).0])
        }
    }

    /// The port that is looked at; none where a device is.
    pub open spec fn spec_port(&self) -> Option<AudioPort> {
        let (d, p) = locate(self.devices(), self.cursor as int, 0);
        match p {
            Some(p) => Some(self.devices()[d].ports@[p]),
            None => None,
        }
    }

    /// The manager with the given devices.
    pub fn new(sinks: Vec<AudioDevice>, sources: Vec<AudioDevice>) -> (r: Self)
        requires
            rows(sinks@) <= usize::MAX,
            rows(sources@) <= usize::MAX,
        ensures
            r.sinks == sinks,
            r.sources == sources,
            r.section == 0,
            r.cursor == 0,
    {
        let mut r = Self::default();
        r.refresh(sinks, sources);
        r
    }

    /// Takes over the devices. The row that is looked at stays, unless there is
    /// none of that number any more: then it is the first.
    pub fn refresh(&mut self, sinks: Vec<AudioDevice>, sources: Vec<AudioDevice>)
        requires
            rows(sinks@) <= usize::MAX,
            rows(sources@) <= usize::MAX,
        ensures
            final(self).sinks == sinks,
            final(self).sources == sources,
            final(self).section == old(self).section,
            final(self).cursor == (if old(self).cursor < rows(final(self).devices()) {
                old(self).cursor
            } else {
                0
            }),
            final(self).cursor_on_row(),
    {
        self.sinks = sinks;
        self.sources = sources;
        let total: usize = self.total_rows();
        let max: usize = if total > 0 {
            total - 1
        } else {
            0
        };
        if self.cursor > max {
            self.cursor = 0;
        }
    }

    /// The devices of the section that is looked at.
    pub fn current_devices(&self) -> (r: &[AudioDevice])
        ensures
            r@ == self.devices(),
    {
        if self.section == 0 {
            self.sinks.as_slice()
        } else {
            self.sources.as_slice()
        }
    }

    /// The positions of the device that is looked at and of its port; no port
    /// where the row is that of a device.
    pub fn cursor_info(&self) -> (r: (usize, Option<usize>))
        ensures
            r.0 == locate(self.devices(), self.cursor as int, 0).0,
            match r.1 {
                Some(p) => {
                    &&& locate(self.devices(), self.cursor as int, 0).1 == Some(p as int)
                    &&& r.0 < self.devices().len()
                    &&& p < self.devices()[r.0 as int].ports@.len()
                },
                None => locate(self.devices(), self.cursor as int, 0).1 is None,
            },
            self.devices().len() > 0 ==> r.0 < self.devices().len(),
    {
        let devices = self.current_devices();
        let ghost all = self.devices();
        let mut left: usize = self.cursor;
        let mut i: usize = 0;
        assert(all.skip(0) =~= all);
        while i < devices.len()
            invariant
                i <= devices@.len(),
                devices@ == all,
                all == self.devices(),
                locate(all, self.cursor as int, 0) == locate(
                    all.skip(i as int),
                    left as int,
                    i as int,
                ),
            decreases devices@.len() - i,
        {
            assert(all.skip(i as int)[0] == all[i as int]);
            assert(all.skip(i as int).skip(1) =~= all.skip(i + 1));
            if left == 0 {
                return (i, None);
            }
            let n: usize = devices[i].ports.len();
            if left <= n {
                return (i, Some(left - 1));
            }
            left = left - 1 - n;
            i += 1;
        }
        (0, None)
    }

    /// How many rows the section that is looked at has.
    pub fn total_rows(&self) -> (r: usize)
        requires
            rows(self.devices()) <= usize::MAX,
        ensures
            r == rows(self.devices()),
    {
        let devices = self.current_devices();
        let ghost all = self.devices();
        let mut total: usize = 0;
        let mut i: usize = 0;
        assert(all.take(0) =~= seq![]);
        while i < devices.len()
            invariant
                i <= devices@.len(),
                devices@ == all,
                rows(all) <= usize::MAX,
                total == rows(all.take(i as int)),
            decreases devices@.len() - i,
        {
            proof {
                lemma_rows_prefix(all, i + 1);
                assert(all.take(i + 1).drop_last() =~= all.take(i as int));
            }
            total = total + 1 + devices[i].ports.len();
            i += 1;
        }
        assert(all.take(i as int) =~= all);
        total
    }

    /// The arguments with which `pactl` mutes the device that is looked at, or
    /// lets it sound again; an error where there is no device.
    pub fn toggle_mute(&self) -> (r: Result<Vec<String>, String>)
        ensures
            match self.spec_device() {
                None => r matches Err(e) && e@ == "No device"@,
                Some(d) => r matches Ok(args) && process::strings(args@) == seq![
                    command_for(self.section, "set-sink-mute"@, "set-source-mute"@),
                    d.pactl_name@,
                    "toggle"@,
                ],
            },
    {
        let cmd: &str = if self.section == 0 {
            "set-sink-mute"
        } else {
            "set-source-mute"
        };
        let (di, _) = self.cursor_info();
        let devices = self.current_devices();
        if di >= devices.len() {
            return Err("No device".to_owned());
        }
        let mut args: Vec<String> = Vec::new();
        args.push(cmd.to_owned());
        args.push(devices[di].pactl_name.clone());
        args.push("toggle".to_owned());
        assert(process::strings(args@) =~= seq![cmd@, devices@[di as int].pactl_name@, "toggle"@]);
        Ok(args)
    }

    /// The arguments with which `pactl` changes the volume of the device that
    /// is looked at by `delta` percent; an error where there is no device.
    pub fn set_volume(&self, delta: i32) -> (r: Result<Vec<String>, String>)
        ensures
            match self.spec_device() {
                None => r matches Err(e) && e@ == "No device"@,
                Some(d) => r matches Ok(args) && process::strings(args@) == seq![
                    command_for(self.section, "set-sink-volume"@, "set-source-volume"@),
                    d.pactl_name@,
                    number::dec(volume_after(d.volume, delta as int) as nat) + "%"@,
                ],
            },
    {
        let cmd: &str = if self.section == 0 {
            "set-sink-volume"
        } else {
            "set-source-volume"
        };
        let (di, _) = self.cursor_info();
        let devices = self.current_devices();
        if di >= devices.len() {
            return Err("No device".to_owned());
        }
        let wanted: i64 = devices[di].volume as i64 + delta as i64;
        let pct: u64 = if wanted < 0 {
            0
        } else if wanted > 150 {
            150
        } else {
            wanted as u64
        };
        let mut vol = number_text(pct);
        vol.append("%");
        let mut args: Vec<String> = Vec::new();
        args.push(cmd.to_owned());
        args.push(devices[di].pactl_name.clone());
        args.push(vol);
        assert(process::strings(args@) =~= seq![cmd@, devices@[di as int].pactl_name@, vol@]);
        Ok(args)
    }

    /// The arguments with which `pactl` makes the device that is looked at the
    /// default one; an error where there is no device.
    pub fn set_default(&self) -> (r: Result<Vec<String>, String>)
        ensures
            match self.spec_device() {
                None => r matches Err(e) && e@ == "No device"@,
                Some(d) => r matches Ok(args) && process::strings(args@) == seq![
                    command_for(self.section, "set-default-sink"@, "set-default-source"@),
                    d.pactl_name@,
                ],
            },
    {
        let cmd: &str = if self.section == 0 {
            "set-default-sink"
        } else {
            "set-default-source"
        };
        let (di, _) = self.cursor_info();
        let devices = self.current_devices();
        if di >= devices.len() {
            return Err("No device".to_owned());
        }
        let mut args: Vec<String> = Vec::new();
        args.push(cmd.to_owned());
        args.push(devices[di].pactl_name.clone());
        assert(process::strings(args@) =~= seq![cmd@, devices@[di as int].pactl_name@]);
        Ok(args)
    }

    /// The arguments with which `pactl` puts the port that is looked at into
    /// use; an error where a device is looked at, or nothing.
    pub fn activate_port(&self) -> (r: Result<Vec<String>, String>)
        ensures
            match (self.spec_device(), self.spec_port()) {
                (Some(d), Some(p)) => r matches Ok(args) && process::strings(args@) == seq![
                    command_for(self.section, "set-sink-port"@, "set-source-port"@),
                    d.pactl_name@,
                    p.port_name@,
                ],
                _ => r matches Err(e) && e@ == "Select a port, not the device header"@,
            },
    {
        let cmd: &str = if self.section == 0 {
            "set-sink-port"
        } else {
            "set-source-port"
        };
        let (di, pi) = self.cursor_info();
        let pi: usize = match pi {
            Some(p) => p,
            None => return Err("Select a port, not the device header".to_owned()),
        };
        let devices = self.current_devices();
        let mut args: Vec<String> = Vec::new();
        args.push(cmd.to_owned());
        args.push(devices[di].pactl_name.clone());
        args.push(devices[di].ports[pi].port_name.clone());
        assert(process::strings(args@) =~= seq![
            cmd@,
            devices@[di as int].pactl_name@,
            devices@[di as int].ports@[pi as int].port_name@,
        ]);
        Ok(args)
    }
}

pub proof fn lemma_rows_prefix(devices: Seq<AudioDevice>, k: int)
    requires
        0 <= k <= devices.len(),
    ensures
        rows(devices.take(k)) <= rows(devices),
    decreases devices.len() - k,
{
    if k < devices.len() {
        lemma_rows_prefix(devices, k + 1);
        assert(devices.take(k + 1).drop_last() =~= devices.take(k));
    } else {
        assert(devices.take(k) =~= devices);
    }
}

// ── Running pactl ───────────────────────────────────────────────────────────

/// What came of an action of `pactl`.
pub fn pactl_result(outcome: ProcessResult) -> (r: Result<(), String>)
    ensures
        match outcome {
            ProcessResult::Failed(e) => r matches Err(m) && m@ == "pactl failed: "@ + e@,
            ProcessResult::Done { success: true, .. } => r is Ok,
            ProcessResult::Done { success: false, stderr, .. } => r matches Err(m) && m@
                == text::trim(unicode::utf8_lossy(stderr@)),
        },
{
    match outcome {
        ProcessResult::Failed(e) => {
            let mut m: String = "pactl failed: ".to_owned();
            m.append(e.as_str());
            Err(m)
        },
        ProcessResult::Done { success, stderr, .. } => if success {
            Ok(())
        } else {
            Err(err_msg(stderr.as_slice()))
        },
    }
}

/// The arguments with which `pactl` lists the devices of a kind.
pub fn list_command(is_source: bool) -> (r: Vec<String>)
    ensures
        process::strings(r@) == seq![
            "list"@,
            if is_source {
                "sources"@
            } else {
                "sinks"@
            },
        ],
{
    let kind: &str = if is_source {
        "sources"
    } else {
        "sinks"
    };
    let mut r: Vec<String> = Vec::new();
    r.push("list".to_owned());
    r.push(kind.to_owned());
    assert(process::strings(r@) =~= seq!["list"@, kind@]);
    r
}

/// The argument with which `pactl` names the default device of a kind.
pub fn default_command(is_source: bool) -> (r: Vec<String>)
    ensures
        process::strings(r@) == seq![
            if is_source {
                "get-default-source"@
            } else {
                "get-default-sink"@
            },
        ],
{
    let cmd: &str = if is_source {
        "get-default-source"
    } else {
        "get-default-sink"
    };
    let mut r: Vec<String> = Vec::new();
    r.push(cmd.to_owned());
    assert(process::strings(r@) =~= seq![cmd@]);
    r
}

/// The default device that `pactl` named.
pub open spec fn default_in(outcome: ProcessResult) -> Option<Seq<char>> {
    match outcome.spec_stdout() {
        Some(s) => Some(text::trim(s)),
        None => None,
    }
}

/// The default device that `pactl` named.
pub fn get_default_device(outcome: ProcessResult) -> (r: Option<String>)
    ensures
        text::opt_view(r) == default_in(outcome),
{
    match outcome.into_stdout() {
        Some(s) => Some(trimmed_string(s.as_str())),
        None => None,
    }
}

/// The devices that `pactl` listed, given the default device that it named;
/// none where it could not be run, failed or wrote no valid UTF-8.
pub fn read_pactl(listing: ProcessResult, default_device: ProcessResult, is_source: bool) -> (r: Vec<
    AudioDevice,
>)
    ensures
        device_views(r@) == devices_in(
            (match listing.spec_stdout() {
                Some(s) => s,
                None => seq![],
            }),
            is_source,
            default_in(default_device),
        ),
        rows(r@) <= usize::MAX,
{
    let out: String = match listing.into_stdout() {
        Some(s) => s,
        None => String::new(),
    };
    let name = get_default_device(default_device);
    parse_pactl_devices(out.as_str(), is_source, &name)
}

// ── Laws ────────────────────────────────────────────────────────────────────

/// The devices that the reports of `pactl` describe have a name, and no input is
/// the monitor of an output. Of the ports of a device exactly those are in use
/// that bear the name of its active port, wherever they stand; none is where it
/// has no active port. It is the default device exactly where it bears that name.
pub proof fn law_devices_listed(
    blocks: Seq<Seq<char>>,
    is_source: bool,
    default_name: Option<Seq<char>>,
    i: int,
)
    requires
        0 <= i < devices_of(blocks, is_source, default_name).len(),
    ensures
        ({
            let d = devices_of(blocks, is_source, default_name)[i];
            &&& d.pactl_name.len() > 0
            &&& is_source ==> !text::ends_with(d.pactl_name, ".monitor"@)
            &&& d.is_default == (default_name == Some(d.pactl_name))
            &&& forall|k: int|
                0 <= k < d.ports.len() ==> (#[trigger] d.ports[k]).is_active == (d.active_port
                    == Some(d.ports[k].port_name))
        }),
    decreases blocks.len(),
{
    let front = devices_of(blocks.drop_last(), is_source, default_name);
    if i < front.len() {
        law_devices_listed(blocks.drop_last(), is_source, default_name, i);
    } else {
        lemma_ports_idle(text::lines(blocks.last()));
    }
}

/// No port is marked as being in use while the lines are read.
pub proof fn lemma_ports_idle(lines: Seq<Seq<char>>)
    ensures
        forall|k: int|
            0 <= k < after_lines(lines).ports.len() ==> !(#[trigger] after_lines(
                lines,
            ).ports[k]).is_active,
    decreases lines.len(),
{
    if lines.len() > 0 {
        lemma_ports_idle(lines.drop_last());
        let before = after_lines(lines.drop_last());
        let after = after_lines(lines);
        assert forall|k: int| 0 <= k < after.ports.len() implies !(
        #[trigger] after.ports[k]).is_active by {
            if k < before.ports.len() {
                assert(after.ports[k] == before.ports[k]);
            }
        }
    }
}


/// The device that is looked at, and its port where a port is, are those of the
/// row that is looked at, among the outputs in the first section and among the
/// inputs in the other.
pub proof fn law_looked_at(m: AudioManager, device: int, port: Option<int>)
    requires
        is_place(m.devices(), device, port),
        m.cursor == row_of(m.devices(), device, port),
    ensures
        m.devices() == (if m.section == 0 {
            m.sinks@
        } else {
            m.sources@
        }),
        m.spec_device() == Some(m.devices()[device]),
        m.spec_port() == (match port {
            Some(p) => Some(m.devices()[device].ports@[p]),
            None => None,
        }),
{
    law_row_located(m.devices(), device, port);
}

/// A device stands in one row, its ports in the rows after it, and the next
/// device in the row after those.
pub proof fn law_rows_follow(devices: Seq<AudioDevice>, device: int)
    requires
        0 <= device < devices.len(),
    ensures
        row_of(devices, 0, None) == 0,
        forall|p: int|
            #![trigger devices[device].ports@[p]]
            0 <= p < devices[device].ports@.len() ==> row_of(devices, device, Some(p)) == row_of(
                devices,
                device,
                None,
            ) + 1 + p,
        device + 1 < devices.len() ==> row_of(devices, device + 1, None) == row_of(
            devices,
            device,
            None,
        ) + 1 + devices[device].ports@.len(),
        device + 1 == devices.len() ==> rows(devices) == row_of(devices, device, None) + 1
            + devices[device].ports@.len(),
{
    assert(devices.take(0) =~= seq![]);
    assert(rows(Seq::<AudioDevice>::empty()) == 0);
    assert(devices.take(device + 1).drop_last() =~= devices.take(device));
    assert(devices.take(devices.len() as int) =~= devices);
}


/// The default device is the one that `pactl` names, white space aside; it is
/// not known exactly where the output of the program does not count.
pub proof fn law_default_named(outcome: ProcessResult)
    ensures
        default_in(outcome) matches Some(name) ==> {
            &&& outcome.spec_stdout() matches Some(out)
            &&& name == text::trim(out)
        },
        outcome.spec_stdout() is None <==> default_in(outcome) is None,
{
}

} // verus!

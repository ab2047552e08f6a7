//! The graphics: which of the two adapters is in use, and what they are called.

use crate::number::{self, number_text, read_u8};
use crate::process::ProcessResult;
use crate::sysutil::{prefixed, FailureKind, WriteFailure, WriteRequest, WriteStep};
use crate::text::{
    self, chars_of, head, holds, last_position, lines_of, part, position, replaced, split_on,
    string_of, tail, trimmed, words_of,
};
use crate::unicode::{self, lowercased};
use vstd::prelude::*;
use vstd::string::*;

verus! {

/// The file that turns the dedicated adapter off.
pub const DGPU_DISABLE: &'static str = "/sys/devices/platform/asus-nb-wmi/dgpu_disable";

/// The file that chooses the adapter of the display.
pub const GPU_MUX_MODE: &'static str = "/sys/devices/platform/asus-nb-wmi/gpu_mux_mode";

/// The file that holds the mode for the next start.
pub const PENDING_FILE: &'static str = "/etc/zhelper/gpu_pending";

// ── Modes ───────────────────────────────────────────────────────────────────

/// Which of the two adapters is in use.
#[derive(Debug, Clone, Copy, PartialEq, Eq, Structural)]
pub enum GpuMode {
    Integrated,
    Hybrid,
    Ultimate,
    Unknown,
}

impl GpuMode {
    /// The name of the mode.
    pub open spec fn spec_label(self) -> Seq<char> {
        match self {
            GpuMode::Integrated => "Integrated"@,
            GpuMode::Hybrid => "Hybrid"@,
            GpuMode::Ultimate => "Ultimate"@,
            GpuMode::Unknown => "Unknown"@,
        }
    }

    /// What the mode does.
    pub open spec fn spec_description(self) -> Seq<char> {
        match self {
            GpuMode::Integrated => "iGPU only, dGPU powered off - best battery life"@,
            GpuMode::Hybrid => "iGPU + dGPU both active, on-demand rendering"@,
            GpuMode::Ultimate => "dGPU as primary via MUX - best performance"@,
            GpuMode::Unknown => ""@,
        }
    }

    /// The modes that can be chosen, with a switch for the display's adapter
    /// or without.
    pub open spec fn spec_variants(has_mux: bool) -> Seq<GpuMode> {
        if has_mux {
            seq![GpuMode::Integrated, GpuMode::Hybrid, GpuMode::Ultimate]
        } else {
            seq![GpuMode::Integrated, GpuMode::Hybrid]
        }
    }

    /// The position of the mode among those that can be chosen.
    pub open spec fn spec_index(self, has_mux: bool) -> int {
        match self {
            GpuMode::Integrated => 0,
            GpuMode::Hybrid => 1,
            GpuMode::Ultimate => if has_mux {
                2
            } else {
                1
            },
            GpuMode::Unknown => 0,
        }
    }

    /// What the two files of the firmware hold in the mode: that which turns
    /// the dedicated adapter off, and that which chooses the display's.
    pub open spec fn spec_firmware(self) -> (u8, u8) {
        match self {
            GpuMode::Integrated => (1, 1),
            GpuMode::Hybrid => (0, 1),
            GpuMode::Ultimate => (0, 0),
            GpuMode::Unknown => (0, 1),
        }
    }

    /// The name of the mode.
    pub fn label(self) -> (r: &'static str)
        ensures
            r@ == self.spec_label(),
    {
        match self {
            GpuMode::Integrated => "Integrated",
            GpuMode::Hybrid => "Hybrid",
            GpuMode::Ultimate => "Ultimate",
            GpuMode::Unknown => "Unknown",
        }
    }

    /// What the mode does.
    pub fn description(self) -> (r: &'static str)
        ensures
            r@ == self.spec_description(),
    {
        match self {
            GpuMode::Integrated => "iGPU only, dGPU powered off - best battery life",
            GpuMode::Hybrid => "iGPU + dGPU both active, on-demand rendering",
            GpuMode::Ultimate => "dGPU as primary via MUX - best performance",
            GpuMode::Unknown => "",
        }
    }

    /// The modes that can be chosen.
    pub fn variants(has_mux: bool) -> (r: &'static [Self])
        ensures
            r@ == Self::spec_variants(has_mux),
    {
        if has_mux {
            &[GpuMode::Integrated, GpuMode::Hybrid, GpuMode::Ultimate]
        } else {
            &[GpuMode::Integrated, GpuMode::Hybrid]
        }
    }

    /// The position of the mode among those that can be chosen.
    pub fn index(self, has_mux: bool) -> (r: usize)
        ensures
            r == self.spec_index(has_mux),
            r < Self::spec_variants(has_mux).len(),
    {
        match self {
            GpuMode::Integrated => 0,
            GpuMode::Hybrid => 1,
            GpuMode::Ultimate => if has_mux {
                2
            } else {
                1
            },
            GpuMode::Unknown => 0,
        }
    }

    /// What the two files of the firmware hold in the mode.
    pub fn firmware_values(self) -> (r: (u8, u8))
        ensures
            r == self.spec_firmware(),
    {
        match self {
            GpuMode::Integrated => (1, 1),
            GpuMode::Hybrid => (0, 1),
            GpuMode::Ultimate => (0, 0),
            GpuMode::Unknown => (0, 1),
        }
    }
}

/// A mode that can be chosen stands at its position.
pub proof fn law_variant_at_index(mode: GpuMode, has_mux: bool)
    requires
        GpuMode::spec_variants(has_mux).contains(mode),
    ensures
        GpuMode::spec_variants(has_mux)[mode.spec_index(has_mux)] == mode,
{
}

// ── Reading the mode ────────────────────────────────────────────────────────

/// The `u8` that a text writes, white space at either end aside.
pub open spec fn u8_text(s: Seq<char>) -> Option<nat> {
    number::parse_nat(text::trim(s), u8::MAX as nat)
}

/// The `u8` that a file writes.
pub open spec fn u8_file(file: Option<String>) -> Option<nat> {
    match file {
        Some(s) => u8_text(s@),
        None => None,
    }
}

/// The mode that the two files of the firmware show. Without a switch for the
/// display's adapter only the first of them counts.
pub open spec fn mode_of(has_mux: bool, dgpu: Option<nat>, mux: Option<nat>) -> GpuMode {
    if dgpu == Some(1nat) {
        GpuMode::Integrated
    } else if has_mux {
        if mux == Some(0nat) {
            GpuMode::Ultimate
        } else {
            GpuMode::Hybrid
        }
    } else if dgpu == Some(0nat) {
        GpuMode::Hybrid
    } else {
        GpuMode::Unknown
    }
}

/// The mode for the next start that a text such as `0,1` gives.
pub open spec fn queued_in(data: Seq<char>, has_mux: bool) -> Option<GpuMode> {
    let parts = text::split(text::trim(data), ","@);
    if parts.len() != 2 {
        None
    } else {
        match (u8_text(parts[0]), u8_text(parts[1])) {
            (Some(dgpu), Some(mux)) => match mode_of(has_mux, Some(dgpu), Some(mux)) {
                GpuMode::Unknown => None,
                mode => Some(mode),
            },
            _ => None,
        }
    }
}

/// The mode for the next start.
pub open spec fn queued_of(pending: Option<String>, has_mux: bool) -> Option<GpuMode> {
    match pending {
        Some(s) => queued_in(s@, has_mux),
        None => None,
    }
}

/// The `u8` that a text writes, white space at either end aside.
fn read_u8_text(s: &[char]) -> (r: Option<u8>)
    ensures
        match r {
            Some(n) => u8_text(s@) == Some(n as nat),
            None => u8_text(s@) is None,
        },
{
    read_u8(trimmed(s))
}

/// The `u8` that a file writes.
fn read_u8_file(file: &Option<String>) -> (r: Option<u8>)
    ensures
        match r {
            Some(n) => u8_file(*file) == Some(n as nat),
            None => u8_file(*file) is None,
        },
{
    match file {
        Some(s) => {
            let v = chars_of(s.as_str());
            read_u8_text(v.as_slice())
        },
        None => None,
    }
}

/// The mode that the two numbers show.
fn show_mode(has_mux: bool, dgpu: Option<u8>, mux: Option<u8>) -> (r: GpuMode)
    ensures
        r == mode_of(
            has_mux,
            (match dgpu {
                Some(n) => Some(n as nat),
                None => None,
            }),
            (match mux {
                Some(n) => Some(n as nat),
                None => None,
            }),
        ),
{
    match dgpu {
        Some(1) => return GpuMode::Integrated,
        _ => {},
    }
    if has_mux {
        match mux {
            Some(0) => GpuMode::Ultimate,
            _ => GpuMode::Hybrid,
        }
    } else {
        match dgpu {
            Some(0) => GpuMode::Hybrid,
            _ => GpuMode::Unknown,
        }
    }
}

/// The mode that the files of the firmware show.
pub fn read_mode(has_mux: bool, dgpu_disable: &Option<String>, mux_mode: &Option<String>) -> (r:
    GpuMode)
    ensures
        r == mode_of(has_mux, u8_file(*dgpu_disable), u8_file(*mux_mode)),
{
    show_mode(has_mux, read_u8_file(dgpu_disable), read_u8_file(mux_mode))
}

/// The mode for the next start.
pub fn read_queued_mode(has_mux: bool, pending: &Option<String>) -> (r: Option<GpuMode>)
    ensures
        r == queued_of(*pending, has_mux),
{
    let chars = match pending {
        Some(s) => chars_of(s.as_str()),
        None => return None,
    };
    proof {
        reveal_strlit(",");
    }
    let parts = split_on(trimmed(chars.as_slice()), ",");
    assert(text::views(parts@).len() == parts@.len());
    if parts.len() != 2 {
        return None;
    }
    assert(text::views(parts@)[0] == parts@[0]@ && text::views(parts@)[1] == parts@[1]@);
    let dgpu = read_u8_text(parts[0]);
    let mux = read_u8_text(parts[1]);
    if dgpu.is_none() || mux.is_none() {
        return None;
    }
    match show_mode(has_mux, dgpu, mux) {
        GpuMode::Unknown => None,
        mode => Some(mode),
    }
}

/// What is stored for the next start.
pub open spec fn queued_data(mode: GpuMode) -> Seq<char> {
    number::dec(mode.spec_firmware().0 as nat) + ","@ + number::dec(mode.spec_firmware().1 as nat)
        + "\n"@
}

proof fn lemma_trim_digit(a: char)
    requires
        number::is_digit(a),
    ensures
        text::trim(seq![a]) == seq![a],
{
    assert(!text::is_space(seq![a][0]));
    assert(!text::is_space(seq![a].last()));
}

proof fn lemma_trim_pair(a: char, b: char)
    requires
        number::is_digit(a),
        number::is_digit(b),
    ensures
        text::trim(seq![a, ',', b, '\n']) == seq![a, ',', b],
{
    let data = seq![a, ',', b, '\n'];
    let t = seq![a, ',', b];
    assert(!text::is_space(data[0]));
    assert(text::is_space(data.last()));
    assert(data.drop_last() =~= t);
    assert(!text::is_space(t.last()));
    assert(text::trim_end(t) == t);
}

proof fn lemma_split_pair(a: char, b: char)
    requires
        number::is_digit(a),
        number::is_digit(b),
    ensures
        text::split(seq![a, ',', b], seq![',']) == seq![seq![a], seq![b]],
{
    let t = seq![a, ',', b];
    let comma = seq![','];
    assert(t.subrange(1, 2) =~= comma);
    assert(t.subrange(0, 1)[0] == a);
    assert(!text::occurs_at(t, comma, 0));
    assert(text::occurs_at(t, comma, 1));
    text::lemma_find(t, comma);
    assert(t.take(1) =~= seq![a]);
    assert(t.skip(2) =~= seq![b]);
    text::lemma_find(seq![b], comma);
    if let Some(i) = text::find(seq![b], comma) {
        assert(seq![b].subrange(i, i + 1)[0] == seq![b][i]);
        assert(false);
    }
    assert(text::split(seq![b], comma) =~= seq![seq![b]]);
    assert(text::split(t, comma) =~= seq![seq![a], seq![b]]);
}

/// A mode that can be chosen, once stored for the next start, is read back.
pub proof fn law_queued_read_back(mode: GpuMode, has_mux: bool)
    requires
        GpuMode::spec_variants(has_mux).contains(mode),
    ensures
        queued_in(queued_data(mode), has_mux) == Some(mode),
{
    reveal_strlit(",");
    reveal_strlit("\n");
    let (d, m) = mode.spec_firmware();
    let a = number::digit(d as nat);
    let b = number::digit(m as nat);
    number::lemma_dec(d as nat);
    number::lemma_dec(m as nat);
    number::law_parse_dec(d as nat, u8::MAX as nat);
    number::law_parse_dec(m as nat, u8::MAX as nat);
    assert(number::is_digit(number::dec(d as nat)[0]) && number::is_digit(number::dec(m as nat)[0]));
    assert(","@ =~= seq![',']);
    assert(queued_data(mode) =~= seq![a, ',', b, '\n']);
    lemma_trim_pair(a, b);
    lemma_split_pair(a, b);
    lemma_trim_digit(a);
    lemma_trim_digit(b);
}

// ── Names of the adapters ───────────────────────────────────────────────────

/// Which of the two adapters a name is of.
#[derive(Debug, Clone, Copy, PartialEq, Eq, Structural)]
pub enum Slot {
    Integrated,
    Dedicated,
}

/// A line, given in lower case, describes a graphics adapter.
pub open spec fn is_adapter(lower_line: Seq<char>) -> bool {
    ||| text::contains(lower_line, "vga"@)
    ||| text::contains(lower_line, "3d controller"@)
    ||| text::contains(lower_line, "display controller"@)
}

/// The name in a line such as `01:00.0 VGA compatible controller: NAME (rev
/// a1)`.
pub open spec fn adapter_name(line: Seq<char>) -> Option<Seq<char>> {
    match text::find(line, " "@) {
        None => None,
        Some(i) => {
            let after_addr = line.skip(i + 1);
            match text::find(after_addr, ": "@) {
                None => None,
                Some(j) => {
                    let name = after_addr.skip(j + 2);
                    match text::rfind(name, " (rev "@) {
                        Some(k) => Some(text::trim(name.take(k))),
                        None => Some(text::trim(name)),
                    }
                },
            }
        },
    }
}

/// Which of the two adapters a name, given in lower case, is of.
pub open spec fn slot_of(lower_name: Seq<char>) -> Option<Slot> {
    if text::contains(lower_name, "intel"@) {
        Some(Slot::Integrated)
    } else if text::contains(lower_name, "nvidia"@) {
        Some(Slot::Dedicated)
    } else if text::contains(lower_name, "amd"@) || text::contains(lower_name, "advanced micro"@) {
        if text::contains(lower_name, " rx "@) || text::contains(lower_name, "radeon pro"@) {
            Some(Slot::Dedicated)
        } else {
            Some(Slot::Integrated)
        }
    } else {
        None
    }
}

/// A name with the vendors' names shortened.
pub open spec fn short_vendor(name: Seq<char>) -> Seq<char> {
    text::replace(
        text::replace(
            text::replace(
                text::replace(name, "Intel Corporation "@, "Intel "@),
                "NVIDIA Corporation "@,
                "NVIDIA "@,
            ),
            "Advanced Micro Devices, Inc. [AMD/ATI] "@,
            "AMD "@,
        ),
        "Advanced Micro Devices, Inc. "@,
        "AMD "@,
    )
}

/// A name shortened to the vendor and what stands in its brackets, where there
/// are any.
pub open spec fn short_name(full: Seq<char>) -> Seq<char> {
    let name = short_vendor(full);
    match (text::find(name, "["@), text::rfind(name, "]"@)) {
        (Some(start), Some(end)) if end > start => {
            let w = text::words(name);
            (if w.len() > 0 {
                w[0]
            } else {
                seq![]
            }) + " "@ + text::trim(name.subrange(start + 1, end))
        },
        _ => name,
    }
}

/// The names of the integrated and of the dedicated adapter.
pub struct NamesView {
    pub igpu: Option<Seq<char>>,
    pub dgpu: Option<Seq<char>>,
}

/// The names after one more line.
pub open spec fn names_after(n: NamesView, line: Seq<char>) -> NamesView {
    if !is_adapter(unicode::lowercase(line)) {
        n
    } else {
        match adapter_name(line) {
            None => n,
            Some(name) => match slot_of(unicode::lowercase(name)) {
                Some(Slot::Integrated) => NamesView { igpu: Some(short_name(name)), ..n },
                Some(Slot::Dedicated) => NamesView { dgpu: Some(short_name(name)), ..n },
                None => n,
            },
        }
    }
}

/// The names that some lines give, later ones in place of earlier ones.
pub open spec fn names_in(lines: Seq<Seq<char>>) -> NamesView
    decreases lines.len(),
{
    if lines.len() == 0 {
        NamesView { igpu: None, dgpu: None }
    } else {
        names_after(names_in(lines.drop_last()), lines.last())
    }
}

/// Whether a line, given in lower case, describes a graphics adapter.
pub fn is_adapter_line(lower_line: &str) -> (r: bool)
    ensures
        r == is_adapter(lower_line@),
{
    let v = chars_of(lower_line);
    let s = v.as_slice();
    holds(s, "vga") || holds(s, "3d controller") || holds(s, "display controller")
}

/// The name in a line that describes a graphics adapter.
pub fn read_adapter_name(line: &[char]) -> (r: Option<String>)
    ensures
        text::opt_view(r) == adapter_name(line@),
{
    proof {
        reveal_strlit(" ");
        reveal_strlit(": ");
    }
    let len: usize = line.len();
    let after_addr = match position(line, " ") {
        Some(i) => tail(line, i + 1),
        None => return None,
    };
    let name = match position(after_addr, ": ") {
        Some(j) => {
            let rest_len: usize = after_addr.len();
            tail(after_addr, j + 2)
        },
        None => return None,
    };
    match last_position(name, " (rev ") {
        Some(k) => Some(string_of(trimmed(head(name, k)))),
        None => Some(string_of(trimmed(name))),
    }
}

/// Which of the two adapters a name, given in lower case, is of.
pub fn adapter_slot(lower_name: &str) -> (r: Option<Slot>)
    ensures
        r == slot_of(lower_name@),
{
    let v = chars_of(lower_name);
    let s = v.as_slice();
    if holds(s, "intel") {
        Some(Slot::Integrated)
    } else if holds(s, "nvidia") {
        Some(Slot::Dedicated)
    } else if holds(s, "amd") || holds(s, "advanced micro") {
        if holds(s, " rx ") || holds(s, "radeon pro") {
            Some(Slot::Dedicated)
        } else {
            Some(Slot::Integrated)
        }
    } else {
        None
    }
}

/// A name shortened to the vendor and what stands in its brackets.
pub fn shorten_gpu_name(name: &str) -> (r: String)
    ensures
        r@ == short_name(name@),
{
    proof {
        reveal_strlit("Intel Corporation ");
        reveal_strlit("NVIDIA Corporation ");
        reveal_strlit("Advanced Micro Devices, Inc. [AMD/ATI] ");
        reveal_strlit("Advanced Micro Devices, Inc. ");
        reveal_strlit("[");
        reveal_strlit("");
        assert(""@ =~= seq![]);
    }
    let v = chars_of(name);
    let v = replaced(v.as_slice(), "Intel Corporation ", "Intel ");
    let v = replaced(v.as_slice(), "NVIDIA Corporation ", "NVIDIA ");
    let v = replaced(v.as_slice(), "Advanced Micro Devices, Inc. [AMD/ATI] ", "AMD ");
    let v = replaced(v.as_slice(), "Advanced Micro Devices, Inc. ", "AMD ");
    let short = v.as_slice();
    if let (Some(start), Some(end)) = (position(short, "["), last_position(short, "]")) {
        if end > start {
            let w = words_of(short);
            assert(text::views(w@).len() == w@.len());
            let mut r: String = if w.len() > 0 {
                assert(text::views(w@)[0] == w@[0]@);
                string_of(w[0])
            } else {
                String::new()
            };
            r.append(" ");
            r.append(string_of(trimmed(part(short, start + 1, end))).as_str());
            return r;
        }
    }
    string_of(short)
}

/// The names of the integrated and of the dedicated adapter that the listing of
/// the devices gives; none where it could not be made.
pub fn read_gpu_names(listing: ProcessResult) -> (r: (Option<String>, Option<String>))
    ensures
        (NamesView { igpu: text::opt_view(r.0), dgpu: text::opt_view(r.1) }) == names_in(
            text::lines(
                match listing.spec_stdout() {
                    Some(s) => s,
                    None => seq![],
                },
            ),
        ),
{
    let out: String = match listing.into_stdout() {
        Some(s) => s,
        None => String::new(),
    };
    let chars = chars_of(out.as_str());
    let lines = lines_of(chars.as_slice());
    let ghost all = text::views(lines@);
    let mut igpu: Option<String> = None;
    let mut dgpu: Option<String> = None;
    let mut i: usize = 0;
    assert(all.take(0) =~= seq![]);
    while i < lines.len()
        invariant
            i <= lines@.len(),
            all == text::views(lines@),
            (NamesView { igpu: text::opt_view(igpu), dgpu: text::opt_view(dgpu) }) == names_in(
                all.take(i as int),
            ),
        decreases lines@.len() - i,
    {
        assert(all[i as int] == lines@[i as int]@);
        assert(all.take(i + 1).drop_last() =~= all.take(i as int));
        let line = lines[i];
        if is_adapter_line(lowercased(string_of(line).as_str()).as_str()) {
            if let Some(name) = read_adapter_name(line) {
                match adapter_slot(lowercased(name.as_str()).as_str()) {
                    Some(Slot::Integrated) => {
                        igpu = Some(shorten_gpu_name(name.as_str()));
                    },
                    Some(Slot::Dedicated) => {
                        dgpu = Some(shorten_gpu_name(name.as_str()));
                    },
                    None => {},
                }
            }
        }
        i += 1;
    }
    assert(all.take(i as int) =~= all);
    (igpu, dgpu)
}

// ── The graphics ────────────────────────────────────────────────────────────

/// The graphics that are managed.
pub struct GpuManager {
    pub mode: GpuMode,
    pub pending_mode: GpuMode,
    pub queued_mode: Option<GpuMode>,
    pub has_mux: bool,
    pub asus_wmi_available: bool,
    pub igpu_name: Option<String>,
    pub dgpu_name: Option<String>,
}

/// What the files of the graphics say; none where one cannot be read.
pub struct GpuFiles {
    pub dgpu_disable: Option<String>,
    pub gpu_mux_mode: Option<String>,
    pub pending: Option<String>,
}

impl GpuManager {
    /// The graphics, given which files of the firmware exist, what they say and
    /// how the adapters are listed. The mode that is chosen at first is the one
    /// for the next start, or else the one in use.
    pub fn new(
        asus_wmi_available: bool,
        has_mux: bool,
        files: &GpuFiles,
        listing: ProcessResult,
    ) -> (r: Self)
        ensures
            r.asus_wmi_available == asus_wmi_available,
            r.has_mux == has_mux,
            r.mode == (if asus_wmi_available {
                mode_of(has_mux, u8_file(files.dgpu_disable), u8_file(files.gpu_mux_mode))
            } else {
                GpuMode::Unknown
            }),
            r.queued_mode == queued_of(files.pending, has_mux),
            r.pending_mode == (match r.queued_mode {
                Some(m) => m,
                None => r.mode,
            }),
            (NamesView { igpu: text::opt_view(r.igpu_name), dgpu: text::opt_view(r.dgpu_name) })
                == names_in(
                text::lines(
                    match listing.spec_stdout() {
                        Some(s) => s,
                        None => seq![],
                    },
                ),
            ),
    {
        let mode = if asus_wmi_available {
            read_mode(has_mux, &files.dgpu_disable, &files.gpu_mux_mode)
        } else {
            GpuMode::Unknown
        };
        let queued_mode = read_queued_mode(has_mux, &files.pending);
        let (igpu_name, dgpu_name) = read_gpu_names(listing);
        let pending_mode = match queued_mode {
            Some(m) => m,
            None => mode,
        };
        GpuManager {
            mode,
            pending_mode,
            queued_mode,
            has_mux,
            asus_wmi_available,
            igpu_name,
            dgpu_name,
        }
    }

    /// Takes over what the files say; the mode in use stays where the firmware
    /// has no files for it.
    pub fn refresh(&mut self, files: &GpuFiles)
        ensures
            *final(self) == (GpuManager {
                mode: if old(self).asus_wmi_available {
                    mode_of(
                        old(self).has_mux,
                        u8_file(files.dgpu_disable),
                        u8_file(files.gpu_mux_mode),
                    )
                } else {
                    old(self).mode
                },
                queued_mode: queued_of(files.pending, old(self).has_mux),
                ..*old(self)
            }),
    {
        if self.asus_wmi_available {
            self.mode = read_mode(self.has_mux, &files.dgpu_disable, &files.gpu_mux_mode);
        }
        self.queued_mode = read_queued_mode(self.has_mux, &files.pending);
    }

    /// The graphics with the mode before the chosen one chosen, where there is
    /// one.
    pub open spec fn spec_previous(self) -> GpuManager {
        let i = self.pending_mode.spec_index(self.has_mux);
        GpuManager {
            pending_mode: GpuMode::spec_variants(self.has_mux)[if i > 0 {
                i - 1
            } else {
                0
            }],
            ..self
        }
    }

    /// The graphics with the mode after the chosen one chosen, where there is
    /// one.
    pub open spec fn spec_next(self) -> GpuManager {
        let i = self.pending_mode.spec_index(self.has_mux);
        let n = GpuMode::spec_variants(self.has_mux).len();
        GpuManager {
            pending_mode: GpuMode::spec_variants(self.has_mux)[if i + 1 < n {
                i + 1
            } else {
                n - 1
            }],
            ..self
        }
    }

    /// Chooses the mode before the chosen one, where there is one.
    pub fn choose_previous(&mut self)
        ensures
            *final(self) == old(self).spec_previous(),
    {
        let variants = GpuMode::variants(self.has_mux);
        let idx: usize = self.pending_mode.index(self.has_mux);
        self.pending_mode = variants[if idx > 0 {
            idx - 1
        } else {
            0
        }];
    }

    /// Chooses the mode after the chosen one, where there is one.
    pub fn choose_next(&mut self)
        ensures
            *final(self) == old(self).spec_next(),
    {
        let variants = GpuMode::variants(self.has_mux);
        let idx: usize = self.pending_mode.index(self.has_mux);
        self.pending_mode = variants[if idx + 1 < variants.len() {
            idx + 1
        } else {
            variants.len() - 1
        }];
    }

    /// The write that stores the chosen mode for the next start; an error where
    /// the firmware has no files for the mode.
    pub fn queue_request(&self) -> (r: Result<WriteRequest, String>)
        ensures
            if self.asus_wmi_available {
                r matches Ok(w) && w.path@ == PENDING_FILE@ && w.value@ == queued_data(
                    self.pending_mode,
                ) && (GpuMode::spec_variants(self.has_mux).contains(self.pending_mode)
                    ==> queued_of(Some(w.value), self.has_mux) == Some(self.pending_mode))
            } else {
                r matches Err(e) && e@ == "ASUS WMI not available on this device"@
            },
    {
        if !self.asus_wmi_available {
            return Err("ASUS WMI not available on this device".to_owned());
        }
        let (dgpu, mux) = self.pending_mode.firmware_values();
        let mut value = number_text(dgpu as u64);
        value.append(",");
        value.append(number_text(mux as u64).as_str());
        value.append("\n");
        proof {
            if GpuMode::spec_variants(self.has_mux).contains(self.pending_mode) {
                law_queued_read_back(self.pending_mode, self.has_mux);
            }
        }
        Ok(WriteRequest { path: PENDING_FILE.to_owned(), value })
    }

    /// Takes over what came of storing the chosen mode for the next start,
    /// where the firmware sets it.
    pub fn queue_gpu_mode(&mut self, stored: Result<(), String>) -> (r: Result<(), String>)
        ensures
            r == stored,
            *final(self) == (GpuManager {
                queued_mode: if stored is Ok {
                    Some(old(self).pending_mode)
                } else {
                    old(self).queued_mode
                },
                ..*old(self)
            }),
    {
        if stored.is_ok() {
            self.queued_mode = Some(self.pending_mode);
        }
        stored
    }
}

/// A step down or up leads to a mode that can be chosen, and a step down undoes
/// a step up that did not start at the last mode.
pub proof fn law_mode_steps(m: GpuManager)
    ensures
        GpuMode::spec_variants(m.has_mux).contains(m.spec_previous().pending_mode),
        GpuMode::spec_variants(m.has_mux).contains(m.spec_next().pending_mode),
        GpuMode::spec_variants(m.has_mux).contains(m.pending_mode) && m.pending_mode
            != GpuMode::spec_variants(m.has_mux).last() ==> m.spec_next().spec_previous() == m,
{
    let all = GpuMode::spec_variants(m.has_mux);
    let i = m.pending_mode.spec_index(m.has_mux);
    assert(0 <= i < all.len());
    assert(m.spec_previous().pending_mode == all[if i > 0 {
        i - 1
    } else {
        0
    }]);
    assert(m.spec_next().pending_mode == all[if i + 1 < all.len() {
        i + 1
    } else {
        all.len() - 1
    }]);
    if all.contains(m.pending_mode) {
        law_variant_at_index(m.pending_mode, m.has_mux);
    }
}

/// What is to be done after the mode for the next start was written: ask for
/// the rights of the administrator where they are missing.
pub fn mode_written(outcome: Result<(), WriteFailure>) -> (r: WriteStep)
    ensures
        match outcome {
            Ok(_) => r is Done,
            Err(e) => if e.kind == FailureKind::PermissionDenied {
                r is Privileged
            } else {
                r matches WriteStep::Fail(m) && m@ == "Failed to write GPU config: "@ + e.message@
            },
        },
{
    match outcome {
        Ok(_) => WriteStep::Done,
        Err(e) => if e.kind == FailureKind::PermissionDenied {
            WriteStep::Privileged
        } else {
            WriteStep::Fail(prefixed("Failed to write GPU config: ", e.message.as_str()))
        },
    }
}

// ── Laws ────────────────────────────────────────────────────────────────────

/// An adapter of Intel is the integrated one and one of NVIDIA the dedicated
/// one. One of AMD, whichever way its vendor is spelt, is the dedicated one
/// where its name holds ` rx ` or `radeon pro`, and else the integrated one. An
/// adapter of nobody else is neither.
pub proof fn law_slot_by_vendor(lower_name: Seq<char>)
    ensures
        ({
            let intel = text::contains(lower_name, "intel"@);
            let nvidia = text::contains(lower_name, "nvidia"@);
            let amd = text::contains(lower_name, "amd"@);
            let micro = text::contains(lower_name, "advanced micro"@);
            let card = text::contains(lower_name, " rx "@) || text::contains(
                lower_name,
                "radeon pro"@,
            );
            let slot = slot_of(lower_name);
            &&& intel ==> slot == Some(Slot::Integrated)
            &&& nvidia && !intel ==> slot == Some(Slot::Dedicated)
            &&& amd && card && !intel && !nvidia ==> slot == Some(Slot::Dedicated)
            &&& micro && card && !intel && !nvidia ==> slot == Some(Slot::Dedicated)
            &&& amd && !card && !intel && !nvidia ==> slot == Some(Slot::Integrated)
            &&& micro && !card && !intel && !nvidia ==> slot == Some(Slot::Integrated)
            &&& slot is Some ==> intel || nvidia || amd || micro
        }),
{
}

/// A line about an adapter changes the name of the slot that the adapter belongs
/// to, and leaves the other; a line about anything else changes neither.
pub proof fn law_names_by_slot(lines: Seq<Seq<char>>, line: Seq<char>)
    ensures
        ({
            let old = names_in(lines);
            let new = names_in(lines.push(line));
            let lower = unicode::lowercase(line);
            let about = text::contains(lower, "vga"@) || text::contains(lower, "3d controller"@)
                || text::contains(lower, "display controller"@);
            &&& !about ==> new == old
            &&& about && adapter_name(line) is None ==> new == old
            &&& about ==> (adapter_name(line) matches Some(name) ==> {
                let slot = slot_of(unicode::lowercase(name));
                &&& slot == Some(Slot::Integrated) ==> new.igpu == Some(short_name(name)) && new.dgpu
                    == old.dgpu
                &&& slot == Some(Slot::Dedicated) ==> new.dgpu == Some(short_name(name)) && new.igpu
                    == old.igpu
                &&& slot is None ==> new == old
            })
        }),
{
    assert(lines.push(line).drop_last() =~= lines);
}


/// In a line about an adapter the name stands after the address, which holds no
/// space, and the kind of the adapter, which ends at a colon; a revision after
/// the name is left out.
pub proof fn law_adapter_name(
    address: Seq<char>,
    class: Seq<char>,
    name: Seq<char>,
    revision: Seq<char>,
)
    requires
        text::lacks(address, ' '),
        text::lacks(class, ':'),
        text::is_trimmed(name),
        !text::contains(name, " (rev "@),
        text::lacks(revision, '('),
    ensures
        adapter_name(address + " "@ + class + ": "@ + name) == Some(name),
        adapter_name(address + " "@ + class + ": "@ + name + " (rev "@ + revision) == Some(name),
{
    reveal_strlit(" (rev ");
    let none = Seq::<char>::empty();
    let rest = name + " (rev "@ + revision;
    lemma_adapter_text(address, class, name);
    lemma_adapter_text(address, class, rest);
    assert(address + " "@ + class + ": "@ + name + " (rev "@ + revision =~= address + " "@ + class
        + ": "@ + rest);
    text::law_trim_between(none, name, none);
    assert(none + name + none =~= name);
    text::lemma_find(name, " (rev "@);
    text::law_rfind(name, " (rev "@);
    text::law_rfind(rest, " (rev "@);
    let k = name.len() as int;
    assert(rest.subrange(k, k + 6) =~= " (rev "@);
    assert(text::occurs_at(rest, " (rev "@, k));
    let i = text::rfind(rest, " (rev "@)->0;
    assert(i >= k);
    if i > k {
        assert(rest.subrange(i, i + 6)[1] == rest[i + 1]);
        assert(rest[i + 1] == '(');
        if i + 1 >= k + 6 {
            assert(rest[i + 1] == revision[i + 1 - k - 6]);
        }
    }
    assert(rest.take(k) =~= name);
}

proof fn lemma_adapter_text(address: Seq<char>, class: Seq<char>, rest: Seq<char>)
    requires
        text::lacks(address, ' '),
        text::lacks(class, ':'),
    ensures
        adapter_name(address + " "@ + class + ": "@ + rest) == Some(
            match text::rfind(rest, " (rev "@) {
                Some(k) => text::trim(rest.take(k)),
                None => text::trim(rest),
            },
        ),
{
    reveal_strlit(" ");
    reveal_strlit(": ");
    let line = address + " "@ + class + ": "@ + rest;
    let i = address.len() as int;
    let j = class.len() as int;
    let after = class + ": "@ + rest;
    assert(line.subrange(i, i + 1) =~= " "@);
    assert(forall|k: int| 0 <= k < i ==> #[trigger] line[k] == address[k]);
    text::lemma_found_by_head(line, " "@, i);
    assert(line.skip(i + 1) =~= after);
    assert(after.subrange(j, j + 2) =~= ": "@);
    assert(forall|k: int| 0 <= k < j ==> #[trigger] after[k] == class[k]);
    text::lemma_found_by_head(after, ": "@, j);
    assert(after.skip(j + 2) =~= rest);
}

/// A name in which no vendor is spelt out is shortened to its first word and
/// what stands in its brackets; one without brackets stays.
pub proof fn law_short_name(vendor: Seq<char>, chip: Seq<char>, model: Seq<char>)
    requires
        vendor.len() > 0,
        forall|i: int| 0 <= i < vendor.len() ==> !text::is_space(#[trigger] vendor[i]),
        text::lacks(vendor, '[') && text::lacks(vendor, ']'),
        text::lacks(chip, '[') && text::lacks(chip, ']'),
        text::lacks(model, ']'),
        text::is_trimmed(model),
        no_vendor_in(vendor + " "@ + chip + "["@ + model + "]"@),
        no_vendor_in(vendor + " "@ + chip),
    ensures
        short_name(vendor + " "@ + chip + "["@ + model + "]"@) == vendor + " "@ + model,
        short_name(vendor + " "@ + chip) == vendor + " "@ + chip,
{
    reveal_strlit(" ");
    reveal_strlit("[");
    reveal_strlit("]");
    let none = Seq::<char>::empty();
    let plain = vendor + " "@ + chip;
    let full = plain + "["@ + model + "]"@;
    lemma_vendor_kept(plain);
    lemma_vendor_kept(full);
    assert forall|k: int| 0 <= k < plain.len() implies #[trigger] plain[k] != '[' && plain[k]
        != ']' by {
        if k < vendor.len() {
            assert(plain[k] == vendor[k]);
        } else if k > vendor.len() {
            assert(plain[k] == chip[k - vendor.len() - 1]);
        }
    }
    text::lemma_find(plain, "["@);
    if text::find(plain, "["@) is Some {
        let i = text::find(plain, "["@)->0;
        assert(plain.subrange(i, i + 1)[0] == plain[i]);
    }
    let start = plain.len() as int;
    let end = full.len() - 1;
    assert(full.subrange(start, start + 1) =~= "["@);
    assert(full.subrange(end, end + 1) =~= "]"@);
    assert(forall|k: int| 0 <= k < start ==> #[trigger] full[k] == plain[k]);
    text::lemma_found_by_head(full, "["@, start);
    text::law_rfind(full, "]"@);
    assert(text::occurs_at(full, "]"@, end));
    assert(text::rfind(full, "]"@) == Some(end));
    assert(full.subrange(start + 1, end) =~= model);
    text::law_trim_between(none, model, none);
    assert(none + model + none =~= model);
    assert(full =~= vendor + seq![' '] + (chip + "["@ + model + "]"@));
    text::law_words_head(vendor, ' ', chip + "["@ + model + "]"@);
}

/// No vendor is spelt out in a name.
pub open spec fn no_vendor_in(name: Seq<char>) -> bool {
    &&& !text::contains(name, "Intel Corporation "@)
    &&& !text::contains(name, "NVIDIA Corporation "@)
    &&& !text::contains(name, "Advanced Micro Devices, Inc. [AMD/ATI] "@)
    &&& !text::contains(name, "Advanced Micro Devices, Inc. "@)
}

proof fn lemma_vendor_kept(name: Seq<char>)
    requires
        no_vendor_in(name),
    ensures
        short_vendor(name) == name,
{
}

/// A vendor that a name begins with, and that is spelt out nowhere else, is
/// shortened to its usual name.
pub proof fn law_vendor_shortened(rest: Seq<char>)
    requires
        no_vendor_in(rest),
        no_vendor_in("Intel "@ + rest),
        no_vendor_in("NVIDIA "@ + rest),
        no_vendor_in("AMD "@ + rest),
        !text::contains("NVIDIA Corporation "@ + rest, "Intel Corporation "@),
        !text::contains("Advanced Micro Devices, Inc. "@ + rest, "Intel Corporation "@),
        !text::contains("Advanced Micro Devices, Inc. "@ + rest, "NVIDIA Corporation "@),
        !text::contains(
            "Advanced Micro Devices, Inc. "@ + rest,
            "Advanced Micro Devices, Inc. [AMD/ATI] "@,
        ),
        !text::contains("Advanced Micro Devices, Inc. [AMD/ATI] "@ + rest, "Intel Corporation "@),
        !text::contains("Advanced Micro Devices, Inc. [AMD/ATI] "@ + rest, "NVIDIA Corporation "@),
    ensures
        short_vendor("Intel Corporation "@ + rest) == "Intel "@ + rest,
        short_vendor("NVIDIA Corporation "@ + rest) == "NVIDIA "@ + rest,
        short_vendor("Advanced Micro Devices, Inc. "@ + rest) == "AMD "@ + rest,
        short_vendor("Advanced Micro Devices, Inc. [AMD/ATI] "@ + rest) == "AMD "@ + rest,
{
    reveal_strlit("Intel Corporation ");
    reveal_strlit("NVIDIA Corporation ");
    reveal_strlit("Advanced Micro Devices, Inc. [AMD/ATI] ");
    reveal_strlit("Advanced Micro Devices, Inc. ");
    lemma_prefix_replaced("Intel Corporation "@, rest, "Intel "@);
    lemma_prefix_replaced("NVIDIA Corporation "@, rest, "NVIDIA "@);
    lemma_prefix_replaced("Advanced Micro Devices, Inc. "@, rest, "AMD "@);
    lemma_prefix_replaced("Advanced Micro Devices, Inc. [AMD/ATI] "@, rest, "AMD "@);
}

proof fn lemma_prefix_replaced(long: Seq<char>, rest: Seq<char>, short: Seq<char>)
    requires
        long.len() > 0,
        !text::contains(rest, long),
    ensures
        text::replace(long + rest, long, short) == short + rest,
{
    let none = Seq::<char>::empty();
    text::law_replace_head(none, long, rest, short);
    assert(none + long + rest =~= long + rest);
    assert(none + short + rest =~= short + rest);
}

/// The dedicated adapter is off exactly in the integrated mode, and it drives
/// the display exactly in the ultimate one, which needs a switch for that. What
/// the firmware holds in a mode that can be chosen shows that mode. Without a
/// switch, whatever it says does not matter.
pub proof fn law_mode_shown(has_mux: bool, dgpu: Option<nat>, mux: Option<nat>)
    ensures
        mode_of(has_mux, dgpu, mux) == GpuMode::Integrated <==> dgpu == Some(1nat),
        mode_of(has_mux, dgpu, mux) == GpuMode::Ultimate <==> has_mux && dgpu != Some(1nat) && mux
            == Some(0nat),
        mode_of(has_mux, dgpu, mux) == GpuMode::Unknown <==> !has_mux && dgpu != Some(0nat) && dgpu
            != Some(1nat),
        mode_of(false, dgpu, mux) == mode_of(false, dgpu, None),
        forall|mode: GpuMode|
            #[trigger] GpuMode::spec_variants(has_mux).contains(mode) ==> mode_of(
                has_mux,
                Some(mode.spec_firmware().0 as nat),
                Some(mode.spec_firmware().1 as nat),
            ) == mode,
        forall|mode: GpuMode| mode != GpuMode::Unknown ==> (#[trigger] mode.spec_firmware().0 == 1
            <==> mode == GpuMode::Integrated),
        forall|mode: GpuMode|
            #[trigger] mode.spec_firmware().1 == 0 <==> mode == GpuMode::Ultimate,
{
}

/// The modes are offered from the one that saves most power on, the ultimate one
/// only with a switch; each is called by its name and told apart by what it does.
pub proof fn law_modes_offered(has_mux: bool)
    ensures
        GpuMode::spec_variants(has_mux)[0] == GpuMode::Integrated,
        GpuMode::spec_variants(has_mux)[1] == GpuMode::Hybrid,
        GpuMode::spec_variants(has_mux).contains(GpuMode::Ultimate) <==> has_mux,
        !GpuMode::spec_variants(has_mux).contains(GpuMode::Unknown),
        forall|mode: GpuMode|
            mode == GpuMode::Integrated ==> #[trigger] mode.spec_label() == "Integrated"@
                && mode.spec_description() == "iGPU only, dGPU powered off - best battery life"@,
        forall|mode: GpuMode|
            mode == GpuMode::Hybrid ==> #[trigger] mode.spec_label() == "Hybrid"@
                && mode.spec_description() == "iGPU + dGPU both active, on-demand rendering"@,
        forall|mode: GpuMode|
            mode == GpuMode::Ultimate ==> #[trigger] mode.spec_label() == "Ultimate"@
                && mode.spec_description() == "dGPU as primary via MUX - best performance"@,
{
    let all = GpuMode::spec_variants(has_mux);
    if has_mux {
        assert(all[2] == GpuMode::Ultimate);
    }
}

} // verus!

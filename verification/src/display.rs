//! Displays as the GNOME compositor reports them, and the choice of a mode.

pub mod entries;
pub mod reply;

use crate::number::{self, float_text, number_text, only_digits, read_u32};
use crate::order;
use crate::process::{self, ProcessResult};
use crate::text::{
    self, chars_of, head, holds, part, part_before, position, same_str, shorter_than, split_on, string_of, tail, trimmed, without_leading,
};
use crate::unicode::{self, lossy};
use vstd::prelude::*;
use vstd::string::*;

verus! {

/// The bus name of the compositor's display service.
pub const DBUS_DEST: &'static str = "org.gnome.Mutter.DisplayConfig";

/// The object path of the compositor's display service.
pub const DBUS_PATH: &'static str = "/org/gnome/Mutter/DisplayConfig";

// ── Types ───────────────────────────────────────────────────────────────────

/// One mode of a display.
pub struct DisplayMode {
    pub mode_id: String,
    pub width: u32,
    pub height: u32,
    /// The refresh rate as the compositor writes it.
    pub refresh_rate: String,
    /// An integer by which refresh rates are ordered: of two modes the one with
    /// the greater rank has the greater rate. The parser sets it to zero.
    pub rank: i64,
    pub is_current: bool,
    pub is_preferred: bool,
}

/// One display with its modes.
pub struct DisplayMonitor {
    pub connector: String,
    pub display_name: String,
    pub modes: Vec<DisplayMode>,
}

/// What the compositor reports of the displays.
pub struct CurrentState {
    pub serial: u32,
    pub monitors: Vec<DisplayMonitor>,
    /// The scale of the first logical display as the compositor writes it;
    /// none where it reports no number there, which stands for a scale of one.
    pub scale: Option<String>,
}

/// The displays and the one that is looked at.
pub struct DisplayManager {
    pub serial: u32,
    pub monitors: Vec<DisplayMonitor>,
    pub current_monitor_idx: usize,
    pub current_scale: Option<String>,
    pub pending_mode_idx: usize,
    pub available: bool,
}

/// What a `DisplayMode` holds.
pub struct ModeView {
    pub mode_id: Seq<char>,
    pub width: u32,
    pub height: u32,
    pub refresh_rate: Seq<char>,
    pub rank: i64,
    pub is_current: bool,
    pub is_preferred: bool,
}

/// What a `DisplayMonitor` holds.
pub struct MonitorView {
    pub connector: Seq<char>,
    pub display_name: Seq<char>,
    pub modes: Seq<ModeView>,
}

impl View for DisplayMode {
    type V = ModeView;

    open spec fn view(&self) -> ModeView {
        ModeView {
            mode_id: self.mode_id@,
            width: self.width,
            height: self.height,
            refresh_rate: self.refresh_rate@,
            rank: self.rank,
            is_current: self.is_current,
            is_preferred: self.is_preferred,
        }
    }
}

impl View for DisplayMonitor {
    type V = MonitorView;

    open spec fn view(&self) -> MonitorView {
        MonitorView {
            connector: self.connector@,
            display_name: self.display_name@,
            modes: mode_views(self.modes@),
        }
    }
}

/// What a list of modes holds.
pub open spec fn mode_views(s: Seq<DisplayMode>) -> Seq<ModeView> {
    s.map_values(|m: DisplayMode| m@)
}

/// What a list of displays holds.
pub open spec fn monitor_views(s: Seq<DisplayMonitor>) -> Seq<MonitorView> {
    s.map_values(|m: DisplayMonitor| m@)
}

// ── Modes ───────────────────────────────────────────────────────────────────

/// The length of the mode identifier `WxH@RATE` that `rest` begins with, up to
/// the quote that closes it: digits, `x`, digits, then `@` within the first
/// twenty bytes.
pub open spec fn mode_id_len(rest: Seq<char>) -> Option<int> {
    match text::find(rest, "@"@) {
        Some(at) if text::byte_len(rest.take(at)) < 20 => {
            let size = rest.take(at);
            match text::find(size, "x"@) {
                Some(x) if number::all_digits(size.take(x)) && number::all_digits(size.skip(x + 1))
                    => match text::find(rest.skip(at), "'"@) {
                    Some(p) => Some(at + p),
                    None => None,
                },
                _ => None,
            }
        },
        _ => None,
    }
}

/// Where the entry of the mode at `start` ends in `block`.
pub open spec fn mode_end(block: Seq<char>, start: int) -> int {
    let rest = block.skip(start);
    match text::find(rest, "}), ('"@) {
        Some(i) => start + i,
        None => match text::find(rest, "})], {"@) {
            Some(i) => start + i,
            None => match text::find(rest, "})])"@) {
                Some(i) => start + i,
                None => block.len() as int,
            },
        },
    }
}

/// The numbers that follow a mode identifier.
pub open spec fn mode_numbers(after_id: Seq<char>) -> Seq<Seq<char>> {
    text::split(text::trim_start_matches(after_id, ", "@), ", "@)
}

/// The mode whose identifier, of length `len`, stands at `start` in `block`:
/// width, height and rate follow it as numbers, with something after them.
pub open spec fn mode_at(block: Seq<char>, start: int, len: int) -> Option<ModeView> {
    let nums = mode_numbers(block.skip(start + len + 1));
    if nums.len() < 4 {
        None
    } else {
        match (
            number::parse_nat(nums[0], u32::MAX as nat),
            number::parse_nat(nums[1], u32::MAX as nat),
        ) {
            (Some(width), Some(height)) if number::is_float(nums[2]) => {
                let entry = block.subrange(start, mode_end(block, start));
                Some(
                    ModeView {
                        mode_id: block.subrange(start, start + len),
                        width: width as u32,
                        height: height as u32,
                        refresh_rate: nums[2],
                        rank: 0,
                        is_current: text::contains(entry, "'is-current': <true>"@),
                        is_preferred: text::contains(entry, "'is-preferred': <true>"@),
                    },
                )
            },
            _ => None,
        }
    }
}

/// The modes that `block` lists from position `pos` on.
pub open spec fn modes_from(block: Seq<char>, pos: int) -> Seq<ModeView>
    decreases block.len() - pos,
{
    if pos < 0 || pos > block.len() {
        seq![]
    } else {
        match text::find(block.skip(pos), "'"@) {
            None => seq![],
            Some(quote) => {
                proof {
                    lemma_quote(block.skip(pos));
                }
                let start = pos + quote + 1;
                if start >= block.len() {
                    seq![]
                } else {
                    match mode_id_len(block.skip(start)) {
                        None => modes_from(block, start),
                        Some(len) => {
                            proof {
                                lemma_mode_id_len(block.skip(start));
                            }
                            match mode_at(block, start, len) {
                                None => modes_from(block, start + len),
                                Some(m) => seq![m] + modes_from(block, start + len),
                            }
                        },
                    }
                }
            },
        }
    }
}

/// A quote that is found stands within the text.
pub proof fn lemma_quote(s: Seq<char>)
    ensures
        text::find(s, "'"@) matches Some(i) ==> 0 <= i < s.len(),
{
    reveal_strlit("'");
    text::lemma_find(s, "'"@);
}

/// A mode identifier is followed by the quote that closes it.
pub proof fn lemma_mode_id_len(rest: Seq<char>)
    ensures
        mode_id_len(rest) matches Some(n) ==> 0 <= n < rest.len(),
{
    text::lemma_find(rest, "@"@);
    match text::find(rest, "@"@) {
        Some(at) => {
            lemma_quote(rest.skip(at));
        },
        None => {},
    }
}

/// The length of the mode identifier that `rest` begins with.
fn measure_mode_id(rest: &[char]) -> (r: Option<usize>)
    ensures
        match r {
            Some(n) => mode_id_len(rest@) == Some(n as int) && n < rest@.len(),
            None => mode_id_len(rest@) is None,
        },
{
    proof {
        lemma_mode_id_len(rest@);
        reveal_strlit("x");
    }
    let at: usize = match position(rest, "@") {
        Some(p) => p,
        None => return None,
    };
    let size = head(rest, at);
    if !shorter_than(size, 20) {
        return None;
    }
    let x: usize = match position(size, "x") {
        Some(p) => p,
        None => return None,
    };
    if !only_digits(head(size, x)) || !only_digits(tail(size, x + 1)) {
        return None;
    }
    let len: usize = rest.len();
    proof {
        lemma_quote(rest@.skip(at as int));
    }
    match position(tail(rest, at), "'") {
        Some(p) => Some(at + p),
        None => None,
    }
}

/// Where the entry of the mode at `start` ends in `block`.
fn find_mode_end(block: &[char], start: usize) -> (r: usize)
    requires
        start <= block@.len(),
    ensures
        r == mode_end(block@, start as int),
        start <= r <= block@.len(),
{
    let len: usize = block.len();
    let rest = tail(block, start);
    match position(rest, "}), ('") {
        Some(i) => start + i,
        None => match position(rest, "})], {") {
            Some(i) => start + i,
            None => match position(rest, "})])") {
                Some(i) => start + i,
                None => block.len(),
            },
        },
    }
}

/// The mode whose identifier, of length `len`, stands at `start` in `block`.
fn read_mode(block: &[char], start: usize, len: usize) -> (r: Option<DisplayMode>)
    requires
        start + len < block@.len(),
    ensures
        match r {
            Some(m) => mode_at(block@, start as int, len as int) == Some(m@),
            None => mode_at(block@, start as int, len as int) is None,
        },
{
    let total: usize = block.len();
    proof {
        reveal_strlit(", ");
    }
    let after_id = tail(block, start + len + 1);
    let nums = split_on(without_leading(after_id, ", "), ", ");
    let ghost texts = mode_numbers(block@.skip(start + len + 1));
    assert(text::views(nums@) == texts);
    if nums.len() < 4 {
        return None;
    }
    assert(texts[0] == nums@[0]@ && texts[1] == nums@[1]@ && texts[2] == nums@[2]@);
    let width: u32 = match read_u32(nums[0]) {
        Some(v) => v,
        None => return None,
    };
    let height: u32 = match read_u32(nums[1]) {
        Some(v) => v,
        None => return None,
    };
    if !float_text(nums[2]) {
        return None;
    }
    let entry = part(block, start, find_mode_end(block, start));
    Some(
        DisplayMode {
            mode_id: string_of(part(block, start, start + len)),
            width,
            height,
            refresh_rate: string_of(nums[2]),
            rank: 0,
            is_current: holds(entry, "'is-current': <true>"),
            is_preferred: holds(entry, "'is-preferred': <true>"),
        },
    )
}

/// The modes that the entry of a display lists.
pub fn parse_modes(block: &[char]) -> (r: Vec<DisplayMode>)
    ensures
        mode_views(r@) == modes_from(block@, 0),
{
    let mut modes: Vec<DisplayMode> = Vec::new();
    let mut pos: usize = 0;
    assert(mode_views(modes@) + modes_from(block@, 0) =~= modes_from(block@, 0));
    loop
        invariant
            pos <= block@.len(),
            mode_views(modes@) + modes_from(block@, pos as int) == modes_from(block@, 0),
        decreases block@.len() - pos,
    {
        let len: usize = block.len();
        let rest = tail(block, pos);
        proof {
            lemma_quote(rest@);
        }
        let quote: usize = match position(rest, "'") {
            Some(q) => q,
            None => {
                assert(mode_views(modes@) + modes_from(block@, pos as int) =~= mode_views(modes@));
                return modes;
            },
        };
        let start: usize = pos + quote + 1;
        if start >= len {
            assert(mode_views(modes@) + modes_from(block@, pos as int) =~= mode_views(modes@));
            return modes;
        }
        let ghost before = modes@;
        match measure_mode_id(tail(block, start)) {
            None => {
                pos = start;
            },
            Some(n) => {
                match read_mode(block, start, n) {
                    None => {},
                    Some(m) => {
                        modes.push(m);
                        assert(mode_views(modes@) =~= mode_views(before).push(m@));
                    },
                }
                assert(mode_views(modes@) + modes_from(block@, start + n) =~= mode_views(before)
                    + modes_from(block@, pos as int));
                pos = start + n;
            },
        }
    }
}

// ── Displays ────────────────────────────────────────────────────────────────

/// `c` opens a bracket.
pub open spec fn opens(c: char) -> bool {
    c == '(' || c == '[' || c == '{'
}

/// `c` closes a bracket.
pub open spec fn closes(c: char) -> bool {
    c == ')' || c == ']' || c == '}'
}

/// Where the bracket closes that leaves none open, read from `i` on with
/// `depth` brackets open: just past it, or the end of `s` where none does.
/// Brackets between single quotes do not count.
pub open spec fn block_end(s: Seq<char>, i: int, depth: int, quoted: bool) -> int
    decreases s.len() - i,
{
    if i >= s.len() {
        s.len() as int
    } else if quoted {
        block_end(s, i + 1, depth, s[i] != '\'')
    } else if s[i] == '\'' {
        block_end(s, i + 1, depth, true)
    } else if opens(s[i]) {
        block_end(s, i + 1, depth + 1, false)
    } else if closes(s[i]) {
        if depth == 1 {
            i + 1
        } else {
            block_end(s, i + 1, depth - 1, false)
        }
    } else {
        block_end(s, i + 1, depth, false)
    }
}

/// The name that the entry of a display gives it, or its connector.
pub open spec fn display_name(block: Seq<char>, connector: Seq<char>) -> Seq<char> {
    let pieces = text::split(block, "'display-name': <'"@);
    if pieces.len() > 1 {
        text::before(pieces[1], "'>"@)
    } else {
        connector
    }
}

/// The displays that `raw` lists from position `pos` on. The entry of a display
/// begins with `(('` and its connector, whose name takes one to 29 bytes; a
/// display without a mode is left out.
pub open spec fn monitors_from(raw: Seq<char>, pos: int) -> Seq<MonitorView>
    decreases raw.len() - pos,
{
    if pos < 0 || pos >= raw.len() {
        seq![]
    } else {
        match text::find(raw.skip(pos), "(('"@) {
            None => seq![],
            Some(k) => {
                proof {
                    lemma_entry(raw, pos);
                }
                let start = pos + k;
                let connector = text::before(raw.skip(start + 3), "', '"@);
                if connector.len() == 0 || text::byte_len(connector) >= 30 {
                    monitors_from(raw, start + 3)
                } else {
                    let end = block_end(raw, start, 0, false);
                    let block = raw.subrange(start, end);
                    let modes = modes_from(block, 0);
                    if modes.len() > 0 {
                        seq![
                            MonitorView {
                                connector,
                                display_name: display_name(block, connector),
                                modes,
                            },
                        ] + monitors_from(raw, end)
                    } else {
                        monitors_from(raw, end)
                    }
                }
            },
        }
    }
}

/// Reading on for a closing bracket never moves backwards.
pub proof fn lemma_block_end(s: Seq<char>, i: int, depth: int, quoted: bool)
    requires
        0 <= i <= s.len(),
    ensures
        i <= block_end(s, i, depth, quoted) <= s.len(),
        i < s.len() ==> i < block_end(s, i, depth, quoted),
    decreases s.len() - i,
{
    if i < s.len() {
        if quoted {
            lemma_block_end(s, i + 1, depth, s[i] != '\'');
        } else if s[i] == '\'' {
            lemma_block_end(s, i + 1, depth, true);
        } else if opens(s[i]) {
            lemma_block_end(s, i + 1, depth + 1, false);
        } else if closes(s[i]) {
            if depth != 1 {
                lemma_block_end(s, i + 1, depth - 1, false);
            }
        } else {
            lemma_block_end(s, i + 1, depth, false);
        }
    }
}

/// The entry of a display stands within the text and takes some of it.
pub proof fn lemma_entry(raw: Seq<char>, pos: int)
    requires
        0 <= pos < raw.len(),
    ensures
        text::find(raw.skip(pos), "(('"@) matches Some(k) ==> {
            &&& 0 <= k
            &&& pos + k + 3 <= raw.len()
            &&& pos + k < block_end(raw, pos + k, 0, false) <= raw.len()
        },
{
    reveal_strlit("(('");
    text::lemma_find(raw.skip(pos), "(('"@);
    match text::find(raw.skip(pos), "(('"@) {
        Some(k) => {
            lemma_block_end(raw, pos + k, 0, false);
        },
        None => {},
    }
}

/// Every display that is listed has a mode, and a connector of one to 29 bytes.
pub proof fn law_monitors_usable(raw: Seq<char>, pos: int, i: int)
    requires
        0 <= i < monitors_from(raw, pos).len(),
    ensures
        monitors_from(raw, pos)[i].modes.len() > 0,
        monitors_from(raw, pos)[i].connector.len() > 0,
        text::byte_len(monitors_from(raw, pos)[i].connector) < 30,
    decreases raw.len() - pos,
{
    lemma_entry(raw, pos);
    let k = text::find(raw.skip(pos), "(('"@)->0;
    let start = pos + k;
    let connector = text::before(raw.skip(start + 3), "', '"@);
    if connector.len() == 0 || text::byte_len(connector) >= 30 {
        law_monitors_usable(raw, start + 3, i);
    } else {
        let end = block_end(raw, start, 0, false);
        if modes_from(raw.subrange(start, end), 0).len() == 0 {
            law_monitors_usable(raw, end, i);
        } else if i > 0 {
            law_monitors_usable(raw, end, i - 1);
        }
    }
}

/// Where the entry of the display that starts at `start` ends.
fn find_block_end(raw: &[char], start: usize) -> (r: usize)
    requires
        start < raw@.len(),
        raw@[start as int] == '(',
    ensures
        r == block_end(raw@, start as int, 0, false),
        start < r <= raw@.len(),
{
    proof {
        lemma_block_end(raw@, start as int, 0, false);
    }
    let len: usize = raw.len();
    let mut depth: usize = 1;
    let mut quoted: bool = false;
    let mut i: usize = start + 1;
    while i < raw.len()
        invariant
            start < i <= raw@.len(),
            1 <= depth <= i - start,
            block_end(raw@, start as int, 0, false) == block_end(
                raw@,
                i as int,
                depth as int,
                quoted,
            ),
            start < block_end(raw@, start as int, 0, false) <= raw@.len(),
        decreases raw@.len() - i,
    {
        let c = raw[i];
        if quoted {
            if c == '\'' {
                quoted = false;
            }
        } else if c == '\'' {
            quoted = true;
        } else if c == '(' || c == '[' || c == '{' {
            depth += 1;
        } else if c == ')' || c == ']' || c == '}' {
            if depth == 1 {
                return i + 1;
            }
            depth -= 1;
        }
        i += 1;
    }
    i
}

/// The name that the entry of a display gives it, or its connector.
fn read_display_name(block: &[char], connector: &[char]) -> (r: String)
    ensures
        r@ == display_name(block@, connector@),
{
    proof {
        reveal_strlit("'display-name': <'");
    }
    let pieces = split_on(block, "'display-name': <'");
    assert(text::views(pieces@).len() == pieces@.len());
    if pieces.len() > 1 {
        assert(text::views(pieces@)[1] == pieces@[1]@);
        string_of(part_before(pieces[1], "'>"))
    } else {
        string_of(connector)
    }
}

/// The displays that the reply of the compositor lists.
pub fn parse_monitors(raw: &[char]) -> (r: Vec<DisplayMonitor>)
    ensures
        monitor_views(r@) == monitors_from(raw@, 0),
{
    let mut monitors: Vec<DisplayMonitor> = Vec::new();
    let mut pos: usize = 0;
    assert(monitor_views(monitors@) + monitors_from(raw@, 0) =~= monitors_from(raw@, 0));
    while pos < raw.len()
        invariant
            pos <= raw@.len(),
            monitor_views(monitors@) + monitors_from(raw@, pos as int) == monitors_from(raw@, 0),
        decreases raw@.len() - pos,
    {
        proof {
            lemma_entry(raw@, pos as int);
            reveal_strlit("(('");
            text::lemma_find(raw@.skip(pos as int), "(('"@);
        }
        let len: usize = raw.len();
        let k: usize = match position(tail(raw, pos), "(('") {
            Some(k) => k,
            None => {
                assert(monitor_views(monitors@) + monitors_from(raw@, pos as int)
                    =~= monitor_views(monitors@));
                return monitors;
            },
        };
        let start: usize = pos + k;
        assert(raw@[start as int] == raw@.skip(pos as int).subrange(k as int, k + 3)[0]);
        let connector = part_before(tail(raw, start + 3), "', '");
        if connector.len() == 0 || !shorter_than(connector, 30) {
            pos = start + 3;
            continue ;
        }
        let end = find_block_end(raw, start);
        let block = part(raw, start, end);
        let name = read_display_name(block, connector);
        let modes = parse_modes(block);
        let ghost before = monitors@;
        assert(mode_views(modes@).len() == modes@.len());
        if modes.len() > 0 {
            let m = DisplayMonitor { connector: string_of(connector), display_name: name, modes };
            monitors.push(m);
            assert(monitor_views(monitors@) =~= monitor_views(before).push(m@));
        }
        assert(monitor_views(monitors@) + monitors_from(raw@, end as int) =~= monitor_views(before)
            + monitors_from(raw@, pos as int));
        pos = end;
    }
    assert(monitor_views(monitors@) + monitors_from(raw@, pos as int) =~= monitor_views(monitors@));
    monitors
}

// ── The reply of the compositor ─────────────────────────────────────────────

/// The scale of the first logical display: the third item of the list that
/// follows the displays, where it is a number.
pub open spec fn scale_text(raw: Seq<char>) -> Option<Seq<char>> {
    match text::find(raw, "], [("@) {
        None => None,
        Some(i) => {
            let items = text::split(raw.skip(i + 5), ","@);
            if items.len() > 2 && number::is_float(text::trim(items[2])) {
                Some(text::trim(items[2]))
            } else {
                None
            }
        },
    }
}

/// The serial number that the reply begins with.
pub open spec fn serial_of(raw: Seq<char>) -> Option<nat> {
    number::parse_nat(
        text::trim(text::before(text::trim_start_matches(raw, "(uint32 "@), ","@)),
        u32::MAX as nat,
    )
}

/// The scale of the first logical display.
fn extract_current_scale(raw: &[char]) -> (r: Option<String>)
    ensures
        text::opt_view(r) == scale_text(raw@),
{
    proof {
        reveal_strlit("], [(");
        reveal_strlit(",");
    }
    let i: usize = match position(raw, "], [(") {
        Some(i) => i,
        None => return None,
    };
    let len: usize = raw.len();
    let items = split_on(tail(raw, i + 5), ",");
    assert(text::views(items@).len() == items@.len());
    if items.len() <= 2 {
        return None;
    }
    assert(text::views(items@)[2] == items@[2]@);
    let t = trimmed(items[2]);
    if float_text(t) {
        Some(string_of(t))
    } else {
        None
    }
}

/// Reads the reply of the compositor: nothing where it does not begin with a
/// serial number or lists no display with a mode.
pub fn parse_current_state(raw: &str) -> (r: Option<CurrentState>)
    ensures
        is_state(raw@, r),
{
    let raw_chars = chars_of(raw);
    let raw_text = raw_chars.as_slice();
    proof {
        reveal_strlit("(uint32 ");
    }
    let serial: u32 = match read_u32(
        trimmed(part_before(without_leading(raw_text, "(uint32 "), ",")),
    ) {
        Some(n) => n,
        None => return None,
    };
    let scale = extract_current_scale(raw_text);
    let monitors = parse_monitors(raw_text);
    assert(monitor_views(monitors@).len() == monitors@.len());
    if monitors.len() == 0 {
        return None;
    }
    Some(CurrentState { serial, monitors, scale })
}

// ── The chosen display ──────────────────────────────────────────────────────

/// Mode `a` is listed before mode `b`: it has more pixels, or as many and a
/// greater rate.
pub open spec fn listed_before(a: DisplayMode, b: DisplayMode) -> bool {
    let pa = a.width * a.height;
    let pb = b.width * b.height;
    pa > pb || (pa == pb && a.rank > b.rank)
}

/// The modes in the order in which they are listed.
pub open spec fn listed(modes: Seq<DisplayMode>) -> Seq<DisplayMode> {
    order::sort_by(modes, |a: DisplayMode, b: DisplayMode| listed_before(a, b))
}

/// The first position in `modes` of a mode in use, zero where there is none.
pub open spec fn current_mode_at(modes: Seq<DisplayMode>) -> int {
    match first_current(modes) {
        Some(i) => i,
        None => 0,
    }
}

/// The first position in `modes` of a mode in use.
pub open spec fn first_current(modes: Seq<DisplayMode>) -> Option<int>
    decreases modes.len(),
{
    if modes.len() == 0 {
        None
    } else if modes[0].is_current {
        Some(0)
    } else {
        match first_current(modes.skip(1)) {
            Some(i) => Some(i + 1),
            None => None,
        }
    }
}

/// The first position in `monitors` of a display on the given connector.
pub open spec fn connector_at(monitors: Seq<DisplayMonitor>, connector: Seq<char>) -> Option<int>
    decreases monitors.len(),
{
    if monitors.len() == 0 {
        None
    } else if monitors[0].connector@ == connector {
        Some(0)
    } else {
        match connector_at(monitors.skip(1), connector) {
            Some(i) => Some(i + 1),
            None => None,
        }
    }
}

/// Some mode of `modes` has the given identifier.
pub open spec fn has_mode(modes: Seq<DisplayMode>, id: Seq<char>) -> bool {
    exists|i: int| 0 <= i < modes.len() && (#[trigger] modes[i]).mode_id@ == id
}

/// The modes that are listed are those of the display, and no mode is listed
/// after one that it comes before.
pub proof fn law_listed(modes: Seq<DisplayMode>)
    ensures
        listed(modes).to_multiset() == modes.to_multiset(),
        listed(modes).len() == modes.len(),
        forall|i: int, j: int|
            0 <= i < j < modes.len() ==> !listed_before(
                #[trigger] listed(modes)[j],
                #[trigger] listed(modes)[i],
            ),
{
    let lt = |a: DisplayMode, b: DisplayMode| listed_before(a, b);
    assert(order::orders(lt));
    order::law_sort(modes, lt);
    assert forall|i: int, j: int| 0 <= i < j < modes.len() implies !listed_before(
        #[trigger] listed(modes)[j],
        #[trigger] listed(modes)[i],
    ) by {
        assert(!lt(listed(modes)[j], listed(modes)[i]));
    }
}

/// Where there are modes, the one that is chosen at first is one of them, and it
/// is in use where any of them is.
pub proof fn law_chosen_mode(modes: Seq<DisplayMode>)
    requires
        modes.len() > 0,
    ensures
        0 <= current_mode_at(modes) < modes.len(),
        (exists|i: int| 0 <= i < modes.len() && (#[trigger] modes[i]).is_current)
            ==> modes[current_mode_at(modes)].is_current,
{
    lemma_first_current(modes);
}

proof fn lemma_first_current(modes: Seq<DisplayMode>)
    ensures
        match first_current(modes) {
            Some(i) => 0 <= i < modes.len() && modes[i].is_current,
            None => forall|i: int| 0 <= i < modes.len() ==> !(#[trigger] modes[i]).is_current,
        },
    decreases modes.len(),
{
    if modes.len() > 0 && !modes[0].is_current {
        lemma_first_current(modes.skip(1));
        assert forall|i: int| first_current(modes) is None && 0 <= i < modes.len() implies !(
        #[trigger] modes[i]).is_current by {
            if i > 0 {
                assert(modes.skip(1)[i - 1] == modes[i]);
            }
        }
    }
}

/// Whether mode `a` is listed before mode `b`.
fn comes_before(a: &DisplayMode, b: &DisplayMode) -> (r: bool)
    ensures
        r == listed_before(*a, *b),
{
    assert(a.width * a.height <= 0xffff_ffff * 0xffff_ffff) by (nonlinear_arith)
        requires
            a.width <= 0xffff_ffff,
            a.height <= 0xffff_ffff,
    ;
    assert(b.width * b.height <= 0xffff_ffff * 0xffff_ffff) by (nonlinear_arith)
        requires
            b.width <= 0xffff_ffff,
            b.height <= 0xffff_ffff,
    ;
    let pa: u64 = a.width as u64 * a.height as u64;
    let pb: u64 = b.width as u64 * b.height as u64;
    pa > pb || (pa == pb && a.rank > b.rank)
}

/// The modes that a list of references points to.
pub open spec fn targets(v: Seq<&DisplayMode>) -> Seq<DisplayMode> {
    v.map_values(|m: &DisplayMode| *m)
}

/// The first position of a mode in use.
fn position_current(modes: &Vec<&DisplayMode>) -> (r: usize)
    ensures
        r == current_mode_at(targets(modes@)),
{
    let ghost all = targets(modes@);
    let mut i: usize = 0;
    assert(all.skip(0) =~= all);
    while i < modes.len()
        invariant
            i <= modes@.len(),
            all == targets(modes@),
            match first_current(all) {
                Some(k) => first_current(all.skip(i as int)) == Some(k - i),
                None => first_current(all.skip(i as int)) is None,
            },
        decreases modes@.len() - i,
    {
        assert(all.skip(i as int)[0] == *modes@[i as int]);
        assert(all.skip(i as int).skip(1) =~= all.skip(i + 1));
        if modes[i].is_current {
            return i;
        }
        i += 1;
    }
    0
}

/// The first position of a display on the given connector.
fn position_connector(monitors: &Vec<DisplayMonitor>, connector: &str) -> (r: Option<usize>)
    ensures
        match r {
            Some(i) => connector_at(monitors@, connector@) == Some(i as int) && i < monitors@.len(),
            None => connector_at(monitors@, connector@) is None,
        },
{
    let ghost all = monitors@;
    let mut i: usize = 0;
    assert(all.skip(0) =~= all);
    while i < monitors.len()
        invariant
            i <= monitors@.len(),
            all == monitors@,
            match connector_at(all, connector@) {
                Some(k) => connector_at(all.skip(i as int), connector@) == Some(k - i),
                None => connector_at(all.skip(i as int), connector@) is None,
            },
        decreases monitors@.len() - i,
    {
        assert(all.skip(i as int)[0] == monitors@[i as int]);
        assert(all.skip(i as int).skip(1) =~= all.skip(i + 1));
        if same_str(monitors[i].connector.as_str(), connector) {
            return Some(i);
        }
        i += 1;
    }
    None
}

impl Default for DisplayManager {
    /// The manager before anything is known of the displays.
    fn default() -> (r: Self)
        ensures
            r.serial == 0,
            r.monitors@ == Seq::<DisplayMonitor>::empty(),
            r.current_monitor_idx == 0,
            r.current_scale is None,
            r.pending_mode_idx == 0,
            !r.available,
    {
        DisplayManager {
            serial: 0,
            monitors: Vec::new(),
            current_monitor_idx: 0,
            current_scale: None,
            pending_mode_idx: 0,
            available: false,
        }
    }
}

impl DisplayManager {
    /// The display that is looked at.
    pub open spec fn spec_current(&self) -> Option<DisplayMonitor> {
        if self.current_monitor_idx < self.monitors@.len() {
            Some(self.monitors@[self.current_monitor_idx as int])
        } else {
            None
        }
    }

    /// The modes of the display that is looked at, as they are listed.
    pub open spec fn spec_modes(&self) -> Seq<DisplayMode> {
        match self.spec_current() {
            Some(m) => listed(m.modes@),
            None => seq![],
        }
    }

    /// The manager once the compositor has answered, or has not.
    pub fn new(state: Option<CurrentState>) -> (r: Self)
        ensures
            match state {
                None => {
                    &&& r.serial == 0
                    &&& r.monitors@ == Seq::<DisplayMonitor>::empty()
                    &&& r.current_scale is None
                    &&& r.pending_mode_idx == 0
                    &&& !r.available
                },
                Some(s) => {
                    &&& r.serial == s.serial
                    &&& r.monitors == s.monitors
                    &&& r.current_scale == s.scale
                    &&& r.available == (s.monitors@.len() > 0)
                    &&& r.pending_mode_idx == current_mode_at(r.spec_modes())
                },
            },
            r.current_monitor_idx == 0,
    {
        let mut mgr = Self::default();
        mgr.refresh(state);
        mgr
    }

    /// Takes over what the compositor answered. The display that is looked at
    /// stays the one on the same connector; where that connector is gone, its
    /// position is kept, and where there was no display, the first is taken.
    pub fn refresh(&mut self, state: Option<CurrentState>)
        ensures
            refreshed(*old(self), state, *final(self)),
    {
        match state {
            None => {
                self.available = false;
            },
            Some(s) => {
                let mut idx: usize = 0;
                if self.current_monitor_idx < self.monitors.len() {
                    idx = self.current_monitor_idx;
                    match position_connector(
                        &s.monitors,
                        self.monitors[self.current_monitor_idx].connector.as_str(),
                    ) {
                        Some(i) => {
                            idx = i;
                        },
                        None => {},
                    }
                }
                self.serial = s.serial;
                self.current_scale = s.scale;
                self.available = s.monitors.len() > 0;
                self.monitors = s.monitors;
                self.current_monitor_idx = idx;
                let pending = position_current(&self.current_monitor_modes());
                self.pending_mode_idx = pending;
            },
        }
    }

    /// The display that is looked at.
    pub fn current_monitor(&self) -> (r: Option<&DisplayMonitor>)
        ensures
            match r {
                Some(m) => self.spec_current() == Some(*m),
                None => self.spec_current() is None,
            },
    {
        if self.current_monitor_idx < self.monitors.len() {
            Some(&self.monitors[self.current_monitor_idx])
        } else {
            None
        }
    }

    /// The modes of the display that is looked at: those with more pixels
    /// first, and of those with as many the ones with a greater rate first.
    pub fn current_monitor_modes(&self) -> (r: Vec<&DisplayMode>)
        ensures
            targets(r@) == self.spec_modes(),
    {
        let mut r: Vec<&DisplayMode> = Vec::new();
        let monitor: &DisplayMonitor = match self.current_monitor() {
            Some(m) => m,
            None => {
                assert(targets(r@) =~= seq![]);
                return r;
            },
        };
        let ghost lt = |a: DisplayMode, b: DisplayMode| listed_before(a, b);
        let ghost all = monitor.modes@;
        let mut i: usize = 0;
        assert(targets(r@) =~= seq![]);
        while i < monitor.modes.len()
            invariant
                i <= all.len(),
                all == monitor.modes@,
                lt == (|a: DisplayMode, b: DisplayMode| listed_before(a, b)),
                targets(r@) == order::sort_by(all.take(i as int), lt),
            decreases all.len() - i,
        {
            let m = &monitor.modes[i];
            let mut at: usize = r.len();
            while at > 0 && comes_before(m, r[at - 1])
                invariant
                    at <= r@.len(),
                    *m == all[i as int],
                    lt == (|a: DisplayMode, b: DisplayMode| listed_before(a, b)),
                    forall|k: int| at <= k < r@.len() ==> lt(*m, #[trigger] targets(r@)[k]),
                decreases at,
            {
                at -= 1;
            }
            proof {
                order::lemma_insert_at(targets(r@), *m, lt, at as int);
                assert(all.take(i + 1).drop_last() =~= all.take(i as int));
            }
            let ghost before = r@;
            r.insert(at, m);
            assert(targets(r@) =~= targets(before).insert(at as int, *m));
            i += 1;
        }
        assert(all.take(i as int) =~= all);
        r
    }

    /// The command that puts the display that is looked at into a mode, alone
    /// and at the given scale; an error where there is no such display or it
    /// has no such mode.
    pub fn apply_command(&self, mode_id: &str, scale: &str) -> (r: Result<Vec<String>, String>)
        ensures
            match self.spec_current() {
                None => r matches Err(e) && e@ == "No monitor selected"@,
                Some(m) => if has_mode(m.modes@, mode_id@) {
                    r matches Ok(args) && process::strings(args@) == apply_args(
                        self.serial,
                        m.connector@,
                        mode_id@,
                        scale@,
                    )
                } else {
                    r matches Err(e) && e@ == "Mode not available"@
                },
            },
    {
        let monitor: &DisplayMonitor = match self.current_monitor() {
            Some(m) => m,
            None => return Err("No monitor selected".to_owned()),
        };
        let mut found: bool = false;
        let mut i: usize = 0;
        while i < monitor.modes.len()
            invariant
                i <= monitor.modes@.len(),
                found == (exists|k: int|
                    0 <= k < i && (#[trigger] monitor.modes@[k]).mode_id@ == mode_id@),
            decreases monitor.modes@.len() - i,
        {
            if same_str(monitor.modes[i].mode_id.as_str(), mode_id) {
                assert(monitor.modes@[i as int].mode_id@ == mode_id@);
                found = true;
            }
            i += 1;
        }
        if !found {
            return Err("Mode not available".to_owned());
        }
        let mut target: String = "[(0, 0, ".to_owned();
        target.append(scale);
        target.append(", uint32 0, true, [('");
        target.append(monitor.connector.as_str());
        target.append("', '");
        target.append(mode_id);
        target.append("', {})])]");
        let mut args = call_args(".ApplyMonitorsConfig");
        args.push(number_text(self.serial as u64));
        args.push("1".to_owned());
        args.push(target);
        args.push("{}".to_owned());
        assert(process::strings(args@) =~= apply_args(
            self.serial,
            monitor.connector@,
            mode_id@,
            scale@,
        ));
        Ok(args)
    }

    /// Takes over what came of putting a display into a mode, given what the
    /// compositor answers after it: the answer counts where the program
    /// succeeded.
    pub fn apply_refresh_rate(
        &mut self,
        outcome: ProcessResult,
        state: Option<CurrentState>,
    ) -> (r: Result<(), String>)
        ensures
            match outcome {
                ProcessResult::Failed(e) => {
                    &&& r matches Err(m) && m@ == "gdbus failed: "@ + e@
                    &&& *final(self) == *old(self)
                },
                ProcessResult::Done { success: false, stderr, .. } => {
                    &&& r matches Err(m) && m@ == "Failed to apply refresh rate:\n"@
                        + unicode::utf8_lossy(stderr@)
                    &&& *final(self) == *old(self)
                },
                ProcessResult::Done { success: true, .. } => {
                    &&& r is Ok
                    &&& refreshed(*old(self), state, *final(self))
                },
            },
    {
        match outcome {
            ProcessResult::Failed(e) => {
                let mut m: String = "gdbus failed: ".to_owned();
                m.append(e.as_str());
                Err(m)
            },
            ProcessResult::Done { success, stderr, .. } => {
                if success {
                    self.refresh(state);
                    Ok(())
                } else {
                    let mut m: String = "Failed to apply refresh rate:\n".to_owned();
                    m.append(lossy(stderr.as_slice()).as_str());
                    Err(m)
                }
            },
        }
    }
}

/// `new` is `old` after it took over what the compositor answered.
pub open spec fn refreshed(
    old: DisplayManager,
    state: Option<CurrentState>,
    new: DisplayManager,
) -> bool {
    match state {
        None => new == (DisplayManager { available: false, ..old }),
        Some(s) => {
            &&& new.serial == s.serial
            &&& new.monitors == s.monitors
            &&& new.current_scale == s.scale
            &&& new.available == (s.monitors@.len() > 0)
            &&& new.current_monitor_idx == (match old.spec_current() {
                None => 0,
                Some(m) => match connector_at(s.monitors@, m.connector@) {
                    Some(i) => i,
                    None => old.current_monitor_idx as int,
                },
            })
            &&& new.pending_mode_idx == current_mode_at(new.spec_modes())
        },
    }
}

/// The arguments of a call of a method of the display service.
pub open spec fn spec_call_args(method: Seq<char>) -> Seq<Seq<char>> {
    seq![
        "call"@,
        "--session"@,
        "--dest"@,
        DBUS_DEST@,
        "--object-path"@,
        DBUS_PATH@,
        "--method"@,
        DBUS_DEST@ + method,
    ]
}

/// The arguments of the call that puts one display, alone at the origin, into
/// a mode.
pub open spec fn apply_args(
    serial: u32,
    connector: Seq<char>,
    mode_id: Seq<char>,
    scale: Seq<char>,
) -> Seq<Seq<char>> {
    spec_call_args(".ApplyMonitorsConfig"@) + seq![
        number::dec(serial as nat),
        "1"@,
        "[(0, 0, "@ + scale + ", uint32 0, true, [('"@ + connector + "', '"@ + mode_id
            + "', {})])]"@,
        "{}"@,
    ]
}

/// The arguments of a call of a method of the display service.
fn call_args(method: &str) -> (r: Vec<String>)
    ensures
        process::strings(r@) == spec_call_args(method@),
{
    let mut r: Vec<String> = Vec::new();
    r.push("call".to_owned());
    r.push("--session".to_owned());
    r.push("--dest".to_owned());
    r.push(DBUS_DEST.to_owned());
    r.push("--object-path".to_owned());
    r.push(DBUS_PATH.to_owned());
    r.push("--method".to_owned());
    let mut m: String = DBUS_DEST.to_owned();
    m.append(method);
    r.push(m);
    assert(process::strings(r@) =~= spec_call_args(method@));
    r
}

/// The arguments of the call that asks for the state of the displays.
pub fn state_command() -> (r: Vec<String>)
    ensures
        process::strings(r@) == spec_call_args(".GetCurrentState"@),
{
    call_args(".GetCurrentState")
}

/// Reads what the compositor answered: nothing where the program could not be
/// run or failed.
pub fn read_current_state(outcome: ProcessResult) -> (r: Option<CurrentState>)
    ensures
        match outcome {
            ProcessResult::Done { success: true, stdout, .. } => is_state(
                unicode::utf8_lossy(stdout@),
                r,
            ),
            _ => r is None,
        },
{
    match outcome {
        ProcessResult::Done { success, stdout, .. } => if success {
            parse_current_state(lossy(stdout.as_slice()).as_str())
        } else {
            None
        },
        ProcessResult::Failed(_) => None,
    }
}

/// `state` is what the reply `raw` of the compositor says.
pub open spec fn is_state(raw: Seq<char>, state: Option<CurrentState>) -> bool {
    match state {
        Some(s) => {
            &&& serial_of(raw) == Some(s.serial as nat)
            &&& monitor_views(s.monitors@) == monitors_from(raw, 0)
            &&& monitors_from(raw, 0).len() > 0
            &&& text::opt_view(s.scale) == scale_text(raw)
        },
        None => serial_of(raw) is None || monitors_from(raw, 0).len() == 0,
    }
}

} // verus!

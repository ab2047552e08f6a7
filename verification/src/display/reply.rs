//! What is read of the reply of the compositor, and what follows from it.

use crate::display::{self, CurrentState, DisplayManager, DisplayMode, DisplayMonitor, MonitorView};
use crate::number;
use crate::text;
use vstd::prelude::*;
use vstd::string::*;

verus! {

/// How many brackets are open, and whether a quote is, after the first `n`
/// characters.
pub open spec fn open_after(s: Seq<char>, n: int) -> (int, bool)
    decreases n,
{
    if n <= 0 {
        (0, false)
    } else {
        let (depth, quoted) = open_after(s, n - 1);
        let c = s[n - 1];
        if c == '\'' {
            (depth, !quoted)
        } else if quoted {
            (depth, true)
        } else if c == '(' || c == '[' || c == '{' {
            (depth + 1, false)
        } else if c == ')' || c == ']' || c == '}' {
            (depth - 1, false)
        } else {
            (depth, false)
        }
    }
}

/// A text is one pair of brackets with all that stands between them: the
/// brackets that are open, those between quotes aside, are closed at its end
/// and not before.
pub open spec fn one_bracket(s: Seq<char>) -> bool {
    &&& s.len() > 0
    &&& open_after(s, s.len() as int) == (0int, false)
    &&& display::closes(s.last())
    &&& !open_after(s, s.len() - 1).1
    &&& forall|n: int| 0 < n < s.len() ==> (#[trigger] open_after(s, n)).0 > 0
}

proof fn lemma_one_bracket(block: Seq<char>, raw: Seq<char>, start: int, n: int)
    requires
        one_bracket(block),
        0 <= start,
        start + block.len() <= raw.len(),
        raw.subrange(start, start + block.len()) == block,
        0 <= n < block.len(),
        block.len() > 1,
    ensures
        display::block_end(raw, start + n, open_after(block, n).0, open_after(block, n).1) == start
            + block.len(),
    decreases block.len() - n,
{
    assert(raw[start + n] == raw.subrange(start, start + block.len())[n]);
    let (depth, quoted) = open_after(block, n);
    if n + 1 < block.len() {
        lemma_one_bracket(block, raw, start, n + 1);
        assert(open_after(block, n + 1).0 > 0);
    } else {
        assert(depth == 1) by {
            assert(open_after(block, n + 1) == (0int, false));
        }
    }
}

// ── Laws ────────────────────────────────────────────────────────────────────

/// The entry of a display ends with the bracket that closes the one that it
/// begins with; brackets between quotes do not count, and what follows the entry
/// does not matter.
pub proof fn law_block_is_one_bracket(before: Seq<char>, block: Seq<char>, after: Seq<char>)
    requires
        one_bracket(block),
        block.len() > 1,
    ensures
        display::block_end(before + block + after, before.len() as int, 0, false) == before.len()
            + block.len(),
{
    let raw = before + block + after;
    let start = before.len() as int;
    assert(raw.subrange(start, start + block.len()) =~= block);
    lemma_one_bracket(block, raw, start, 0);
}

/// A display is read as its entry describes it: on the connector that the entry
/// begins with, under the name and with the modes that the entry gives, where it
/// gives any; the displays after it are those that are read from its end on.
pub proof fn law_display_read(
    before: Seq<char>,
    connector: Seq<char>,
    rest: Seq<char>,
    after: Seq<char>,
)
    requires
        !text::contains(before + "(("@, "(('"@),
        one_bracket("(('"@ + connector + "', '"@ + rest),
        connector.len() > 0,
        text::lacks(connector, '\''),
        text::byte_len(connector) < 30,
    ensures
        ({
            let block = "(('"@ + connector + "', '"@ + rest;
            let raw = before + block + after;
            let modes = display::modes_from(block, 0);
            let shown = MonitorView {
                connector,
                display_name: display::display_name(block, connector),
                modes,
            };
            let end = before.len() + block.len();
            display::monitors_from(raw, 0) == (if modes.len() > 0 {
                seq![shown] + display::monitors_from(raw, end as int)
            } else {
                display::monitors_from(raw, end as int)
            })
        }),
{
    reveal_strlit("(('");
    reveal_strlit("((");
    reveal_strlit("', '");
    let block = "(('"@ + connector + "', '"@ + rest;
    let raw = before + block + after;
    let start = before.len() as int;
    assert(raw.skip(0) =~= raw);
    assert("(("@ =~= "(('"@.drop_last());
    lemma_found_after(before, "(('"@, connector + "', '"@ + rest + after, "(("@);
    assert(raw =~= before + "(('"@ + (connector + "', '"@ + rest + after));
    let tail = raw.skip(start + 3);
    assert(tail =~= connector + "', '"@ + (rest + after));
    let k = connector.len() as int;
    assert(tail.subrange(k, k + 4) =~= "', '"@);
    assert(forall|j: int| 0 <= j < k ==> #[trigger] tail[j] == connector[j]);
    text::lemma_found_by_head(tail, "', '"@, k);
    assert(tail.take(k) =~= connector);
    law_block_is_one_bracket(before, block, after);
    assert(raw.subrange(start, start + block.len()) =~= block);
}

/// A pattern is found after a text that it does not begin in.
proof fn lemma_found_after(before: Seq<char>, p: Seq<char>, after: Seq<char>, front: Seq<char>)
    requires
        p.len() > 0,
        front == p.drop_last(),
        !text::contains(before + front, p),
    ensures
        text::find(before + p + after, p) == Some(before.len() as int),
{
    let s = before + p + after;
    let i = before.len() as int;
    let t = before + front;
    assert(s.subrange(i, i + p.len()) =~= p);
    text::lemma_find(t, p);
    assert forall|j: int| j < i implies !text::occurs_at(s, p, j) by {
        if text::occurs_at(s, p, j) {
            assert(t.subrange(j, j + p.len()) =~= s.subrange(j, j + p.len()));
            assert(text::occurs_at(t, p, j));
        }
    }
    text::lemma_found(s, p, i);
}

/// The name of a display is what its entry gives between quotes as
/// `display-name`; where it gives none, it is the connector.
pub proof fn law_display_name(before: Seq<char>, name: Seq<char>, after: Seq<char>)
    requires
        !text::contains(before + "'display-name': <"@, "'display-name': <'"@),
        !text::contains(before, "'display-name': <'"@),
        !text::contains(name + "'>"@ + after, "'display-name': <'"@),
        !text::contains(name + "'"@, "'>"@),
    ensures
        forall|connector: Seq<char>| #[trigger]
            display::display_name(
                before + "'display-name': <'"@ + name + "'>"@ + after,
                connector,
            ) == name,
        forall|connector: Seq<char>| #[trigger]
            display::display_name(before, connector) == connector,
{
    reveal_strlit("'display-name': <'");
    reveal_strlit("'display-name': <");
    reveal_strlit("'>");
    reveal_strlit("'");
    let p = "'display-name': <'"@;
    let rest = name + "'>"@ + after;
    let block = before + p + name + "'>"@ + after;
    assert(block =~= before + p + rest);
    assert("'display-name': <"@ =~= p.drop_last());
    lemma_found_after(before, p, rest, "'display-name': <"@);
    assert(block.take(before.len() as int) =~= before);
    assert(block.skip(before.len() as int + p.len()) =~= rest);
    assert(text::split(rest, p) =~= seq![rest]);
    let pieces = text::split(block, p);
    assert(pieces =~= seq![before, rest]);
    assert("'"@ =~= "'>"@.drop_last());
    lemma_found_after(name, "'>"@, after, "'"@);
    assert(rest.take(name.len() as int) =~= name);
    assert(text::split(before, p) =~= seq![before]);
}

/// The serial number is the one that the reply begins with.
pub proof fn law_serial_read(serial: u32, rest: Seq<char>)
    ensures
        display::serial_of("(uint32 "@ + number::dec(serial as nat) + ","@ + rest) == Some(
            serial as nat,
        ),
{
    reveal_strlit("(uint32 ");
    reveal_strlit(",");
    let n = number::dec(serial as nat);
    let none = Seq::<char>::empty();
    number::lemma_dec(serial as nat);
    number::law_parse_dec(serial as nat, u32::MAX as nat);
    assert(forall|i: int| 0 <= i < n.len() ==> number::is_digit(#[trigger] n[i]));
    let raw = "(uint32 "@ + n + ","@ + rest;
    let tail = n + ","@ + rest;
    assert(raw.subrange(0, 8) =~= "(uint32 "@);
    assert(raw.skip(8) =~= tail);
    if text::starts_with(tail, "(uint32 "@) {
        assert(tail.subrange(0, 8)[0] == tail[0]);
        assert(tail[0] == n[0]);
    }
    assert(text::trim_start_matches(tail, "(uint32 "@) == tail);
    let k = n.len() as int;
    assert(tail.subrange(k, k + 1) =~= ","@);
    assert(forall|j: int| 0 <= j < k ==> #[trigger] tail[j] == n[j]);
    text::lemma_found_by_head(tail, ","@, k);
    assert(tail.take(k) =~= n);
    text::law_trim_between(none, n, none);
    assert(none + n + none =~= n);
}

/// The scale is the third item of the first list that follows a list: that of
/// the first logical display. It is not known where no number stands there.
pub proof fn law_scale_read(
    before: Seq<char>,
    x: Seq<char>,
    y: Seq<char>,
    gap: Seq<char>,
    scale: Seq<char>,
    after: Seq<char>,
)
    requires
        !text::contains(before + "], ["@, "], [("@),
        text::lacks(x, ',') && text::lacks(y, ',') && text::lacks(scale, ','),
        text::lacks(gap, ','),
        text::blank(gap),
        text::is_trimmed(scale),
    ensures
        display::scale_text(
            before + "], [("@ + x + ","@ + y + ","@ + gap + scale + ","@ + after,
        ) == (if number::is_float(scale) {
            Some(scale)
        } else {
            None
        }),
{
    reveal_strlit("], [(");
    reveal_strlit("], [");
    reveal_strlit(",");
    let none = Seq::<char>::empty();
    let third = gap + scale;
    let raw = before + "], [("@ + x + ","@ + y + ","@ + gap + scale + ","@ + after;
    let last = third + ","@ + after;
    let second = y + ","@ + last;
    let list = x + ","@ + second;
    assert(raw =~= before + "], [("@ + list);
    assert("], ["@ =~= "], [("@.drop_last());
    lemma_found_after(before, "], [("@, list, "], ["@);
    assert(raw.skip(before.len() as int + 5) =~= list);
    assert forall|j: int| 0 <= j < third.len() implies third[j] != ","@[0] by {
        if j < gap.len() {
            assert(third[j] == gap[j]);
        } else {
            assert(third[j] == scale[j - gap.len()]);
        }
    }
    text::law_split_head(x, ","@, second);
    text::law_split_head(y, ","@, last);
    text::law_split_head(third, ","@, after);
    text::lemma_split_some(after, ","@);
    let s3 = text::split(last, ","@);
    let s2 = text::split(second, ","@);
    let items = text::split(list, ","@);
    assert(s3 == seq![third] + text::split(after, ","@));
    assert(s2 == seq![y] + s3);
    assert(items == seq![x] + s2);
    assert(items[2] == s2[1] && s2[1] == s3[0]);
    text::law_trim_between(gap, scale, none);
    assert(third =~= gap + scale + none);
}

/// The modes are listed from the greatest number of pixels down and, among those
/// of one number, from the greatest rate down; the list holds each mode of the
/// display once.
pub proof fn law_listed_by_size(modes: Seq<DisplayMode>, i: int, j: int)
    requires
        0 <= i < j < modes.len(),
    ensures
        display::listed(modes).len() == modes.len(),
        ({
            let a = display::listed(modes)[i];
            let b = display::listed(modes)[j];
            &&& a.width * a.height >= b.width * b.height
            &&& a.width * a.height == b.width * b.height ==> a.rank >= b.rank
        }),
{
    display::law_listed(modes);
}

/// The mode that is chosen at first is the first of those in use, in the order
/// in which they are listed; the first of all where none is.
pub proof fn law_first_in_use(modes: Seq<DisplayMode>)
    ensures
        forall|j: int|
            0 <= j < display::current_mode_at(modes) ==> !(#[trigger] modes[j]).is_current,
        display::current_mode_at(modes) != 0 ==> modes[display::current_mode_at(
            modes,
        )].is_current,
    decreases modes.len(),
{
    if modes.len() > 0 && !modes[0].is_current {
        let rest = modes.skip(1);
        law_first_in_use(rest);
        lemma_first_in_use(rest);
        assert(forall|j: int| 0 < j < modes.len() ==> #[trigger] modes[j] == rest[j - 1]);
    }
}

proof fn lemma_first_in_use(modes: Seq<DisplayMode>)
    ensures
        display::first_current(modes) matches Some(i) ==> 0 <= i < modes.len()
            && modes[i].is_current,
    decreases modes.len(),
{
    if modes.len() > 0 && !modes[0].is_current {
        lemma_first_in_use(modes.skip(1));
    }
}

/// A display is looked for by its connector: the first on it is found, and none
/// exactly where there is none on it.
pub proof fn law_found_by_connector(monitors: Seq<DisplayMonitor>, connector: Seq<char>)
    ensures
        match display::connector_at(monitors, connector) {
            Some(i) => {
                &&& 0 <= i < monitors.len()
                &&& monitors[i].connector@ == connector
                &&& forall|j: int| 0 <= j < i ==> (#[trigger] monitors[j]).connector@ != connector
            },
            None => forall|j: int|
                0 <= j < monitors.len() ==> (#[trigger] monitors[j]).connector@ != connector,
        },
    decreases monitors.len(),
{
    if monitors.len() > 0 && monitors[0].connector@ != connector {
        let rest = monitors.skip(1);
        law_found_by_connector(rest, connector);
        assert(forall|j: int| 0 < j < monitors.len() ==> #[trigger] monitors[j] == rest[j - 1]);
    }
}

/// After the compositor answered, the display that is looked at is on the same
/// connector as before, where there still is one on it; what the compositor says
/// is taken over, and the mode in use is chosen. Without an answer only that is
/// remembered.
pub proof fn law_display_kept(old: DisplayManager, state: Option<CurrentState>, new: DisplayManager)
    requires
        display::refreshed(old, state, new),
    ensures
        state is None ==> !new.available && new.monitors == old.monitors && new.serial == old.serial
            && new.current_monitor_idx == old.current_monitor_idx && new.pending_mode_idx
            == old.pending_mode_idx && new.current_scale == old.current_scale,
        state matches Some(s) ==> {
            &&& new.serial == s.serial
            &&& new.monitors == s.monitors
            &&& new.current_scale == s.scale
            &&& new.available <==> s.monitors@.len() > 0
            &&& old.spec_current() matches Some(m) ==> {
                &&& (exists|i: int|
                    0 <= i < s.monitors@.len() && (#[trigger] s.monitors@[i]).connector@
                        == m.connector@) ==> {
                    &&& new.spec_current() matches Some(n)
                    &&& n.connector@ == m.connector@
                }
                &&& !(exists|i: int|
                    0 <= i < s.monitors@.len() && (#[trigger] s.monitors@[i]).connector@
                        == m.connector@) ==> new.current_monitor_idx == old.current_monitor_idx
            }
            &&& old.spec_current() is None ==> new.current_monitor_idx == 0
            &&& forall|j: int|
                0 <= j < new.pending_mode_idx ==> !(#[trigger] new.spec_modes()[j]).is_current
        },
{
    if state is Some {
        let s = state->0;
        if old.spec_current() is Some {
            law_found_by_connector(s.monitors@, old.spec_current()->0.connector@);
        }
        law_first_in_use(new.spec_modes());
    }
}

/// A display is put into a mode by one call: with the serial number of the last
/// answer, for good, at the origin, as the primary display, under the connector
/// and the mode that were asked for, and at the given scale.
pub proof fn law_call_names_mode(
    serial: u32,
    connector: Seq<char>,
    mode_id: Seq<char>,
    scale: Seq<char>,
)
    ensures
        ({
            let args = display::apply_args(serial, connector, mode_id, scale);
            &&& args.len() == 12
            &&& args[0] == "call"@
            &&& args[7] == "org.gnome.Mutter.DisplayConfig"@ + ".ApplyMonitorsConfig"@
            &&& number::parse_nat(args[8], u32::MAX as nat) == Some(serial as nat)
            &&& args[9] == number::dec(1)
            &&& text::starts_with(args[10], "[(0, 0, "@ + scale + ", "@)
            &&& text::ends_with(args[10], "[('"@ + connector + "', '"@ + mode_id + "', {})])]"@)
            &&& args[11] == "{}"@
        }),
{
    reveal_strlit("1");
    assert(number::dec(1) =~= "1"@);
    number::law_parse_dec(serial as nat, u32::MAX as nat);
    let args = display::apply_args(serial, connector, mode_id, scale);
    let head = "[(0, 0, "@ + scale + ", "@;
    let foot = "[('"@ + connector + "', '"@ + mode_id + "', {})])]"@;
    reveal_strlit(", uint32 0, true, [('");
    reveal_strlit(", ");
    reveal_strlit("[('");
    let t = args[10];
    assert(t == "[(0, 0, "@ + scale + ", uint32 0, true, [('"@ + connector + "', '"@ + mode_id
        + "', {})])]"@);
    assert(t.subrange(0, head.len() as int) =~= head);
    let k = t.len() - foot.len();
    assert(t.subrange(k, t.len() as int) =~= foot);
}


/// A reply is a state exactly where it begins with a serial number and lists a
/// display with a mode; the state then holds just what the reply says.
pub proof fn law_state_of_reply(raw: Seq<char>, state: Option<CurrentState>)
    requires
        display::is_state(raw, state),
    ensures
        state is Some <==> display::serial_of(raw) is Some && display::monitors_from(raw, 0).len()
            > 0,
        state matches Some(s) ==> {
            &&& display::serial_of(raw) == Some(s.serial as nat)
            &&& display::monitor_views(s.monitors@) == display::monitors_from(raw, 0)
            &&& text::opt_view(s.scale) == display::scale_text(raw)
        },
{
}

} // verus!

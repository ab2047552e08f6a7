//! What each line of the report on an audio device says of the device.

use crate::audio::{self, DeviceView, PortView, ReportView};
use crate::number;
use crate::text;
use crate::unicode;
use vstd::prelude::*;
use vstd::string::*;

verus! {

/// The text of a line does not begin with a heading.
pub open spec fn no_heading(line: Seq<char>) -> bool {
    &&& !text::starts_with(line, "Name:"@)
    &&& !text::starts_with(line, "Description:"@)
    &&& !text::starts_with(line, "Mute:"@)
    &&& !text::starts_with(line, "Volume:"@)
    &&& !text::starts_with(line, "Active Port:"@)
    &&& line != "Ports:"@
}

proof fn lemma_headings()
    ensures
        text::is_trimmed("Name:"@),
        text::is_trimmed("Description:"@),
        text::is_trimmed("Mute:"@),
        text::is_trimmed("Volume:"@),
        text::is_trimmed("Ports:"@),
        text::is_trimmed("Active Port:"@),
        "Name:"@[0] == 'N',
        "Description:"@[0] == 'D',
        "Mute:"@[0] == 'M',
        "Volume:"@[0] == 'V',
        "Ports:"@[0] == 'P',
        "Active Port:"@[0] == 'A',
{
    reveal_strlit("Name:");
    reveal_strlit("Description:");
    reveal_strlit("Mute:");
    reveal_strlit("Volume:");
    reveal_strlit("Ports:");
    reveal_strlit("Active Port:");
}

/// A text that begins with a pattern begins with its first character.
proof fn lemma_first_char(s: Seq<char>, p: Seq<char>)
    requires
        p.len() > 0,
        text::starts_with(s, p),
    ensures
        s.len() > 0 && s[0] == p[0],
{
    assert(s.subrange(0, p.len() as int)[0] == s[0]);
}

proof fn lemma_only_heading(line: Seq<char>, heading: Seq<char>)
    requires
        heading.len() > 0,
        text::starts_with(line, heading),
    ensures
        heading[0] != 'N' ==> !text::starts_with(line, "Name:"@),
        heading[0] != 'D' ==> !text::starts_with(line, "Description:"@),
        heading[0] != 'M' ==> !text::starts_with(line, "Mute:"@),
        heading[0] != 'V' ==> !text::starts_with(line, "Volume:"@),
        heading[0] != 'P' ==> line != "Ports:"@,
        heading[0] != 'A' ==> !text::starts_with(line, "Active Port:"@),
{
    lemma_headings();
    lemma_first_char(line, heading);
    if text::starts_with(line, "Name:"@) {
        lemma_first_char(line, "Name:"@);
    }
    if text::starts_with(line, "Description:"@) {
        lemma_first_char(line, "Description:"@);
    }
    if text::starts_with(line, "Mute:"@) {
        lemma_first_char(line, "Mute:"@);
    }
    if text::starts_with(line, "Volume:"@) {
        lemma_first_char(line, "Volume:"@);
    }
    if text::starts_with(line, "Active Port:"@) {
        lemma_first_char(line, "Active Port:"@);
    }
}

// ── Laws ────────────────────────────────────────────────────────────────────

/// A line `Name: VALUE` gives the name, `Description: VALUE` the description,
/// `Active Port: VALUE` the port in use, and `Mute: VALUE` whether the device is
/// muted: it is where the value is `yes`. Each changes nothing else that was
/// read; white space around the line and around the value does not matter.
pub proof fn law_headed_lines(r: ReportView, pad: Seq<char>, value: Seq<char>)
    requires
        text::blank(pad),
    ensures
        audio::after_line(r, pad + "Name:"@ + value) == (ReportView {
            name: text::trim(value),
            in_ports: false,
            ..r
        }),
        audio::after_line(r, pad + "Description:"@ + value) == (ReportView {
            description: text::trim(value),
            ..r
        }),
        audio::after_line(r, pad + "Mute:"@ + value) == (ReportView {
            muted: text::trim(value) == "yes"@,
            ..r
        }),
        audio::after_line(r, pad + "Active Port:"@ + value) == (ReportView {
            active_port: Some(text::trim(value)),
            in_ports: false,
            ..r
        }),
        text::blank(value) ==> audio::after_line(r, pad + "Ports:"@ + value) == (ReportView {
            in_ports: true,
            ..r
        }),
{
    lemma_headings();
    text::lemma_headed(pad, "Name:"@, value);
    text::lemma_headed(pad, "Description:"@, value);
    text::lemma_headed(pad, "Mute:"@, value);
    text::lemma_headed(pad, "Active Port:"@, value);
    lemma_only_heading(text::trim(pad + "Description:"@ + value), "Description:"@);
    lemma_only_heading(text::trim(pad + "Mute:"@ + value), "Mute:"@);
    lemma_only_heading(text::trim(pad + "Active Port:"@ + value), "Active Port:"@);
    if text::blank(value) {
        text::law_trim_between(pad, "Ports:"@, value);
        assert(text::starts_with("Ports:"@, "Ports:"@)) by {
            assert("Ports:"@.subrange(0, "Ports:"@.len() as int) =~= "Ports:"@);
        }
        lemma_only_heading("Ports:"@, "Ports:"@);
    }
}

proof fn lemma_numeric_len(digits: Seq<char>, rest: Seq<char>)
    requires
        forall|i: int| 0 <= i < digits.len() ==> unicode::numeric(#[trigger] digits[i]),
        rest.len() > 0 && !unicode::numeric(rest[0]),
    ensures
        audio::numeric_len(digits + rest) == digits.len(),
    decreases digits.len(),
{
    if digits.len() > 0 {
        assert((digits + rest)[0] == digits[0]);
        assert((digits + rest).skip(1) =~= digits.skip(1) + rest);
        assert(forall|i: int|
            0 <= i < digits.skip(1).len() ==> #[trigger] digits.skip(1)[i] == digits[i + 1]);
        lemma_numeric_len(digits.skip(1), rest);
    } else {
        assert(digits + rest =~= rest);
    }
}

/// A line `Volume: ... / N% ...` gives the volume N, that of the first channel,
/// and changes nothing else that was read; a line without a slash leaves it.
pub proof fn law_volume_line(
    r: ReportView,
    pad: Seq<char>,
    front: Seq<char>,
    gap: Seq<char>,
    volume: u32,
    rest: Seq<char>,
)
    requires
        text::blank(pad),
        text::lacks(front, '/'),
        text::blank(gap),
        rest.len() > 0 ==> !text::is_space(rest.last()),
        forall|c: char| number::is_digit(c) ==> #[trigger] unicode::numeric(c),
        !unicode::numeric('%'),
    ensures
        audio::after_line(
            r,
            pad + "Volume:"@ + (front + "/"@ + gap + number::dec(volume as nat) + "%"@ + rest),
        ) == (ReportView { volume, ..r }),
        audio::after_line(r, pad + "Volume:"@ + front) == r,
{
    reveal_strlit("/");
    reveal_strlit("%");
    reveal_strlit("Volume:");
    lemma_headings();
    let none = Seq::<char>::empty();
    let n = number::dec(volume as nat);
    let shown = n + "%"@ + rest;
    let value = front + "/"@ + gap + n + "%"@ + rest;
    number::lemma_dec(volume as nat);
    assert(number::is_digit(n[0]));
    assert(shown[0] == n[0]);
    assert(text::is_trimmed(shown));
    assert(value =~= front + "/"@ + gap + shown);
    assert(value.last() == shown.last());
    let line = "Volume:"@ + value;
    text::law_trim_between(pad, line, none);
    assert(pad + "Volume:"@ + value =~= pad + line + none);
    text::lemma_headed(pad, "Volume:"@, value);
    text::lemma_headed(pad, "Volume:"@, front);
    lemma_only_heading(line, "Volume:"@);
    lemma_only_heading(text::trim(pad + "Volume:"@ + front), "Volume:"@);
    let slash = 7 + front.len() as int;
    assert(line.subrange(slash, slash + 1) =~= "/"@);
    assert forall|k: int| 0 <= k < slash implies #[trigger] line[k] != '/' by {
        if k >= 7 {
            assert(line[k] == front[k - 7]);
        }
    }
    text::lemma_found_by_head(line, "/"@, slash);
    assert(line.skip(slash + 1) =~= gap + shown + none);
    text::law_trim_between(gap, shown, none);
    assert(shown =~= n + ("%"@ + rest));
    lemma_numeric_len(n, "%"@ + rest);
    assert(shown.take(n.len() as int) =~= n);
    let plain = text::trim(pad + "Volume:"@ + front);
    text::lemma_find(plain, "/"@);
    if text::find(plain, "/"@) is Some {
        let i = text::find(plain, "/"@)->0;
        assert(plain.subrange(i, i + 1)[0] == plain[i]);
        text::lemma_trim_end_within(front);
        if i >= 7 {
            assert(plain[i] == text::trim_end(front)[i - 7]);
        }
    }
}

/// Among the ports a line `NAME: DESCRIPTION (type: ...)` adds the port, after
/// those that were read before, and changes nothing else: the port is available
/// where the line says so and does not say that it is not, and it is not marked
/// as being in use yet.
pub proof fn law_port_line(
    r: ReportView,
    pad: Seq<char>,
    name: Seq<char>,
    description: Seq<char>,
    details: Seq<char>,
)
    requires
        text::blank(pad),
        r.in_ports,
        text::is_trimmed(name),
        text::lacks(name, ':'),
        text::is_trimmed(description),
        text::lacks(description, '('),
        text::is_trimmed(details),
        no_heading(name + ": "@ + description + " (type:"@ + details),
        !text::starts_with(name + ": "@ + description + " (type:"@ + details, "Part of"@),
        !text::starts_with(name + ": "@ + description + " (type:"@ + details, "Properties"@),
    ensures
        ({
            let told = description + " (type:"@ + details;
            audio::after_line(r, pad + name + ": "@ + description + " (type:"@ + details) == (
            ReportView {
                ports: r.ports.push(
                    PortView {
                        port_name: name,
                        display_name: description,
                        available: text::contains(told, "available"@) && !text::contains(
                            told,
                            "not available"@,
                        ),
                        is_active: false,
                    },
                ),
                ..r
            })
        }),
{
    reveal_strlit(": ");
    reveal_strlit(" (type:");
    let none = Seq::<char>::empty();
    let told = description + " (type:"@ + details;
    let line = name + ": "@ + description + " (type:"@ + details;
    let raw = pad + name + ": "@ + description + " (type:"@ + details;
    assert(line[0] == name[0] && line.last() == details.last());
    text::law_trim_between(pad, line, none);
    assert(raw =~= pad + line + none);
    let colon = name.len() as int;
    assert(line.subrange(colon, colon + 2) =~= ": "@);
    assert(forall|k: int| 0 <= k < colon ==> #[trigger] line[k] == name[k]);
    text::lemma_found_by_head(line, ": "@, colon);
    assert(line.take(colon) =~= name);
    assert(line.skip(colon + 2) =~= told);
    text::law_trim_between(none, name, none);
    assert(none + name + none =~= name);
    let end = description.len() as int;
    assert(told.subrange(end, end + 7) =~= " (type:"@);
    assert forall|k: int| k < end implies !text::occurs_at(told, " (type:"@, k) by {
        if text::occurs_at(told, " (type:"@, k) {
            assert(told.subrange(k, k + 7)[1] == told[k + 1]);
            if k + 1 < end {
                assert(told[k + 1] == description[k + 1]);
            }
        }
    }
    text::lemma_found(told, " (type:"@, end);
    assert(told.take(end) =~= description);
    text::law_trim_between(none, description, none);
    assert(none + description + none =~= description);
}

/// Any other line ends the list of ports and says nothing of the device.
pub proof fn law_other_line(r: ReportView, raw_line: Seq<char>)
    requires
        no_heading(text::trim(raw_line)),
        !r.in_ports || !text::contains(text::trim(raw_line), ": "@) || text::starts_with(
            text::trim(raw_line),
            "Part of"@,
        ) || text::starts_with(text::trim(raw_line), "Properties"@),
    ensures
        audio::after_line(r, raw_line) == (ReportView { in_ports: false, ..r }),
{
}

/// A device is shown as its report describes it: one port for each that the
/// report names, in order, available as it says, and in use exactly where it
/// bears the name of the active port. There is none exactly where the report
/// gives no name, or where it is of an input that monitors an output.
pub proof fn law_device_as_reported(
    block: Seq<char>,
    is_source: bool,
    default_name: Option<Seq<char>>,
)
    ensures
        ({
            let r = audio::after_lines(text::lines(block));
            match audio::device_of(block, is_source, default_name) {
                None => r.name.len() == 0 || (is_source && text::ends_with(r.name, ".monitor"@)),
                Some(d) => {
                    &&& r.name.len() > 0
                    &&& is_source ==> !text::ends_with(r.name, ".monitor"@)
                    &&& d.pactl_name == r.name
                    &&& d.volume == r.volume
                    &&& d.muted == r.muted
                    &&& d.active_port == r.active_port
                    &&& d.is_default <==> default_name == Some(r.name)
                    &&& d.display_name == audio::spec_clean_name(r.description)
                    &&& d.ports.len() == r.ports.len()
                    &&& forall|k: int|
                        0 <= k < d.ports.len() ==> (#[trigger] d.ports[k]).port_name
                            == r.ports[k].port_name && d.ports[k].display_name
                            == r.ports[k].display_name && d.ports[k].available
                            == r.ports[k].available && (d.ports[k].is_active <==> r.active_port
                            == Some(r.ports[k].port_name))
                },
            }
        }),
{
    audio::lemma_ports_idle(text::lines(block));
}

/// A description without any of the phrases of the vendors is only trimmed; one
/// that begins with such a phrase, and holds none after it, loses it or has it
/// put shorter.
pub proof fn law_clean_name(rest: Seq<char>)
    requires
        no_phrase_in(rest),
        no_phrase_in("AMD Audio "@ + rest),
        no_phrase_in("NVIDIA Audio"@ + rest),
        !text::contains(
            "Rembrandt Radeon High Definition Audio Controller "@ + rest,
            "Family 17h/19h HD Audio Controller "@,
        ),
        !text::contains("HDA NVidia"@ + rest, "Family 17h/19h HD Audio Controller "@),
        !text::contains(
            "HDA NVidia"@ + rest,
            "Rembrandt Radeon High Definition Audio Controller "@,
        ),
    ensures
        audio::spec_clean_name(rest) == text::trim(rest),
        audio::spec_clean_name("Family 17h/19h HD Audio Controller "@ + rest) == text::trim(rest),
        audio::spec_clean_name("Rembrandt Radeon High Definition Audio Controller "@ + rest)
            == text::trim("AMD Audio "@ + rest),
        audio::spec_clean_name("HDA NVidia"@ + rest) == text::trim("NVIDIA Audio"@ + rest),
{
    reveal_strlit("");
    reveal_strlit("Family 17h/19h HD Audio Controller ");
    reveal_strlit("Rembrandt Radeon High Definition Audio Controller ");
    reveal_strlit("HDA NVidia");
    lemma_phrase_replaced("Family 17h/19h HD Audio Controller "@, rest, ""@);
    assert(""@ + rest =~= rest);
    lemma_phrase_replaced(
        "Rembrandt Radeon High Definition Audio Controller "@,
        rest,
        "AMD Audio "@,
    );
    lemma_phrase_replaced("HDA NVidia"@, rest, "NVIDIA Audio"@);
}

/// None of the vendors' phrases stands in a description.
pub open spec fn no_phrase_in(s: Seq<char>) -> bool {
    &&& !text::contains(s, "Family 17h/19h HD Audio Controller "@)
    &&& !text::contains(s, "Rembrandt Radeon High Definition Audio Controller "@)
    &&& !text::contains(s, "HDA NVidia"@)
}

proof fn lemma_phrase_replaced(phrase: Seq<char>, rest: Seq<char>, short: Seq<char>)
    requires
        phrase.len() > 0,
        !text::contains(rest, phrase),
    ensures
        text::replace(phrase + rest, phrase, short) == short + rest,
{
    let none = Seq::<char>::empty();
    text::law_replace_head(none, phrase, rest, short);
    assert(none + phrase + rest =~= phrase + rest);
    assert(none + short + rest =~= short + rest);
}

/// Each report of a list that describes a device gives it, in order, and no
/// other does.
pub proof fn law_devices_in_order(
    blocks: Seq<Seq<char>>,
    block: Seq<char>,
    is_source: bool,
    default_name: Option<Seq<char>>,
)
    ensures
        audio::devices_of(blocks.push(block), is_source, default_name) == audio::devices_of(
            blocks,
            is_source,
            default_name,
        ) + (match audio::device_of(block, is_source, default_name) {
            Some(d) => seq![d],
            None => Seq::<DeviceView>::empty(),
        }),
        audio::devices_of(Seq::<Seq<char>>::empty(), is_source, default_name).len() == 0,
{
    assert(blocks.push(block).drop_last() =~= blocks);
}


/// Of the ports of a device whose report names the active port, in the last line
/// that does, a port is in use exactly where it bears that name, wherever in the
/// list it stands.
pub proof fn law_active_port_marked(
    block: Seq<char>,
    is_source: bool,
    default_name: Option<Seq<char>>,
    i: int,
    pad: Seq<char>,
    value: Seq<char>,
)
    requires
        0 <= i < text::lines(block).len(),
        text::lines(block)[i] == pad + "Active Port:"@ + value,
        text::blank(pad),
        forall|j: int|
            i < j < text::lines(block).len() ==> !names_active_port(
                #[trigger] text::lines(block)[j],
            ),
        audio::device_of(block, is_source, default_name) is Some,
    ensures
        ({
            let d = audio::device_of(block, is_source, default_name)->0;
            &&& d.active_port == Some(text::trim(value))
            &&& forall|k: int|
                0 <= k < d.ports.len() ==> ((#[trigger] d.ports[k]).is_active
                    <==> d.ports[k].port_name == text::trim(value))
        }),
{
    lemma_active_port(text::lines(block), i, pad, value);
    law_device_as_reported(block, is_source, default_name);
}

/// Without a line that names the active port, no port of a device is in use.
pub proof fn law_no_active_port(
    block: Seq<char>,
    is_source: bool,
    default_name: Option<Seq<char>>,
)
    requires
        forall|j: int|
            0 <= j < text::lines(block).len() ==> !names_active_port(
                #[trigger] text::lines(block)[j],
            ),
        audio::device_of(block, is_source, default_name) is Some,
    ensures
        ({
            let d = audio::device_of(block, is_source, default_name)->0;
            &&& d.active_port is None
            &&& forall|k: int| 0 <= k < d.ports.len() ==> !(#[trigger] d.ports[k]).is_active
        }),
{
    lemma_no_active_port(text::lines(block));
    law_device_as_reported(block, is_source, default_name);
}

/// A line names the active port.
pub open spec fn names_active_port(line: Seq<char>) -> bool {
    text::starts_with(text::trim(line), "Active Port:"@)
}

proof fn lemma_active_port(lines: Seq<Seq<char>>, i: int, pad: Seq<char>, value: Seq<char>)
    requires
        0 <= i < lines.len(),
        lines[i] == pad + "Active Port:"@ + value,
        text::blank(pad),
        forall|j: int| i < j < lines.len() ==> !names_active_port(#[trigger] lines[j]),
    ensures
        audio::after_lines(lines).active_port == Some(text::trim(value)),
    decreases lines.len(),
{
    let front = lines.drop_last();
    if i + 1 < lines.len() {
        lemma_active_port(front, i, pad, value);
        assert(!names_active_port(lines[lines.len() - 1]));
    } else {
        law_headed_lines(audio::after_lines(front), pad, value);
    }
}

proof fn lemma_no_active_port(lines: Seq<Seq<char>>)
    requires
        forall|j: int| 0 <= j < lines.len() ==> !names_active_port(#[trigger] lines[j]),
    ensures
        audio::after_lines(lines).active_port is None,
    decreases lines.len(),
{
    if lines.len() > 0 {
        lemma_no_active_port(lines.drop_last());
        assert(!names_active_port(lines[lines.len() - 1]));
    }
}

} // verus!

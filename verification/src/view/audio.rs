//! The audio tab.

use crate::app::{Focus, Status, TuiApp};
use crate::audio::{self, AudioDevice, AudioPort};
use crate::layout::{self, inner, split, Area, Direction, Size};
use crate::number::{self, number_text};
use crate::scene::{
    self, dim, dng, edge, either, fg, fnt, g, leaf, line, line_border, txt, Line, Scene, Style,
};
use crate::sysutil::prefixed;
use crate::text::{self, left_column, right_column};
use crate::view::{self, add_status};
use vstd::prelude::*;
use vstd::string::*;

verus! {

/// The areas of the audio tab.
pub struct AudioAreas {
    pub rows: Vec<Area>,
}

/// The areas are those of the audio tab.
pub open spec fn are_areas(area: Area, a: AudioAreas) -> bool {
    layout::is_division(
        area,
        Direction::Vertical,
        seq![Size::Length(10), Size::Length(10), Size::Fill(1)],
        a.rows@,
    )
}

/// Divides the area of the audio tab.
pub fn audio_areas(area: Area) -> (r: AudioAreas)
    ensures
        are_areas(area, r),
{
    let rows = split(
        Direction::Vertical,
        &[Size::Length(10), Size::Length(10), Size::Fill(1)],
        area,
    );
    AudioAreas { rows }
}

// ── Devices ─────────────────────────────────────────────────────────────────

/// The mark before a row, which shows whether it is looked at.
pub open spec fn cursor(selected: bool) -> scene::SpanView {
    scene::words(
        if selected {
            "> "@
        } else {
            "  "@
        },
        either(selected, g(), fnt()),
    )
}

/// The row of a device.
pub open spec fn device_row(d: AudioDevice, selected: bool) -> Seq<scene::SpanView> {
    seq![
        cursor(selected),
        scene::words(
            if d.is_default {
                "* "@
            } else {
                "  "@
            },
            g(),
        ),
        scene::words(text::left_in(d.display_name@, 30), either(selected, txt(), dim())),
        scene::words(
            text::right_in(number::dec(d.volume as nat), 4) + "%"@,
            if d.muted {
                dng()
            } else if selected {
                txt().strong()
            } else {
                txt()
            },
        ),
        scene::words(
            if d.muted {
                " [MUTED]"@
            } else {
                ""@
            },
            either(d.muted, dng(), g()),
        ),
    ]
}

/// The style of a port.
pub open spec fn port_style(p: AudioPort, selected: bool) -> Style {
    if p.is_active {
        g()
    } else if selected {
        txt().strong()
    } else if p.available {
        txt()
    } else {
        fnt()
    }
}

/// The row of a port.
pub open spec fn port_row(p: AudioPort, selected: bool) -> Seq<scene::SpanView> {
    seq![
        cursor(selected),
        scene::words(
            if p.is_active {
                "  * "@
            } else {
                "    "@
            },
            port_style(p, selected),
        ),
        scene::words(p.display_name@, port_style(p, selected)),
        scene::words(
            if p.is_active {
                "  (active)"@
            } else if !p.available {
                "  (unavailable)"@
            } else {
                ""@
            },
            fnt(),
        ),
    ]
}

/// The rows of the first ports of a device that stand below its own row.
pub open spec fn port_rows(
    ports: Seq<AudioPort>,
    n: int,
    row: int,
    focused: bool,
    at: usize,
) -> Seq<Seq<scene::SpanView>> {
    Seq::new(n as nat, |i: int| port_row(ports[i], focused && row + 1 + i == at))
}

/// The rows of some devices and their ports.
pub open spec fn device_rows(devices: Seq<AudioDevice>, focused: bool, at: usize) -> Seq<
    Seq<scene::SpanView>,
>
    decreases devices.len(),
{
    if devices.len() == 0 {
        seq![]
    } else {
        let row = audio::rows(devices.drop_last()) as int;
        let d = devices.last();
        device_rows(devices.drop_last(), focused, at).push(
            device_row(d, focused && row == at),
        ) + port_rows(d.ports@, d.ports@.len() as int, row, focused, at)
    }
}

/// The devices and their ports are listed on as many rows as are counted, and
/// the row that is looked at, and no other, is marked.
pub proof fn law_cursor_marked(devices: Seq<AudioDevice>, focused: bool, at: usize, row: int)
    requires
        0 <= row < audio::rows(devices),
    ensures
        device_rows(devices, focused, at).len() == audio::rows(devices),
        device_rows(devices, focused, at)[row].len() > 0,
        device_rows(devices, focused, at)[row][0] == cursor(focused && row == at),
    decreases devices.len(),
{
    if devices.len() > 0 {
        lemma_row_count(devices, focused, at);
        lemma_row_count(devices.drop_last(), focused, at);
        if row < audio::rows(devices.drop_last()) {
            law_cursor_marked(devices.drop_last(), focused, at, row);
        }
    }
}

proof fn lemma_row_count(devices: Seq<AudioDevice>, focused: bool, at: usize)
    ensures
        device_rows(devices, focused, at).len() == audio::rows(devices),
    decreases devices.len(),
{
    if devices.len() > 0 {
        lemma_row_count(devices.drop_last(), focused, at);
    }
}

/// The mark before a row.
fn cursor_line(selected: bool) -> (r: Line)
    ensures
        r@ == seq![cursor(selected)],
{
    let mark: &str = if selected {
        "> "
    } else {
        "  "
    };
    line(mark, either(selected, g(), fnt()))
}

/// The row of a device.
fn device_line(d: &AudioDevice, selected: bool) -> (r: Line)
    ensures
        r@ == device_row(*d, selected),
{
    let mark: &str = if d.is_default {
        "* "
    } else {
        "  "
    };
    let muted: &str = if d.muted {
        " [MUTED]"
    } else {
        ""
    };
    let volume_style = if d.muted {
        dng()
    } else if selected {
        txt().strong()
    } else {
        txt()
    };
    let mut volume = right_column(number_text(d.volume as u64).as_str(), 4);
    volume.append("%");
    let mut r = cursor_line(selected);
    r.text(mark, g());
    r.string(left_column(d.display_name.as_str(), 30), either(selected, txt(), dim()));
    r.string(volume, volume_style);
    r.text(muted, either(d.muted, dng(), g()));
    assert(r@ =~= device_row(*d, selected));
    r
}

/// The row of a port.
fn port_line(p: &AudioPort, selected: bool) -> (r: Line)
    ensures
        r@ == port_row(*p, selected),
{
    let mark: &str = if p.is_active {
        "  * "
    } else {
        "    "
    };
    let style = if p.is_active {
        g()
    } else if selected {
        txt().strong()
    } else if p.available {
        txt()
    } else {
        fnt()
    };
    let state: &str = if p.is_active {
        "  (active)"
    } else if !p.available {
        "  (unavailable)"
    } else {
        ""
    };
    let mut r = cursor_line(selected);
    r.text(mark, style);
    r.text(p.display_name.as_str(), style);
    r.text(state, fnt());
    assert(r@ =~= port_row(*p, selected));
    r
}

/// The rows of some devices and their ports.
pub fn render_device_list(devices: &Vec<AudioDevice>, focused: bool, at: usize) -> (r: Vec<Line>)
    requires
        audio::rows(devices@) <= usize::MAX,
    ensures
        scene::line_views(r@) == device_rows(devices@, focused, at),
{
    let mut r: Vec<Line> = Vec::new();
    let mut row: usize = 0;
    let mut i: usize = 0;
    assert(devices@.take(0) =~= seq![]);
    assert(scene::line_views(r@) =~= seq![]);
    while i < devices.len()
        invariant
            i <= devices@.len(),
            audio::rows(devices@) <= usize::MAX,
            row == audio::rows(devices@.take(i as int)),
            scene::line_views(r@) == device_rows(devices@.take(i as int), focused, at),
        decreases devices@.len() - i,
    {
        let d = &devices[i];
        let ghost front = devices@.take(i as int);
        let ghost top = row as int;
        proof {
            assert(devices@.take(i + 1).drop_last() =~= front);
            audio::lemma_rows_prefix(devices@, i + 1);
        }
        let ghost before = scene::line_views(r@).push(device_row(*d, focused && top == at));
        r.push(device_line(d, focused && row == at));
        row += 1;
        assert(scene::line_views(r@) =~= before);
        assert(before + port_rows(d.ports@, 0, top, focused, at) =~= before);
        let mut j: usize = 0;
        while j < d.ports.len()
            invariant
                j <= d.ports@.len(),
                row == top + 1 + j,
                top + 1 + d.ports@.len() <= usize::MAX,
                scene::line_views(r@) == before + port_rows(
                    d.ports@,
                    j as int,
                    top,
                    focused,
                    at,
                ),
            decreases d.ports@.len() - j,
        {
            let p = &d.ports[j];
            let ghost so_far = scene::line_views(r@);
            r.push(port_line(p, focused && row == at));
            assert(scene::line_views(r@) =~= so_far.push(port_row(*p, focused && row == at)));
            row += 1;
            j += 1;
            assert(scene::line_views(r@) =~= before + port_rows(
                d.ports@,
                j as int,
                top,
                focused,
                at,
            ));
        }
        i += 1;
    }
    assert(devices@.take(i as int) =~= devices@);
    r
}

// ── The tab ─────────────────────────────────────────────────────────────────

/// What is in the block of a section.
pub open spec fn section_lines(
    devices: Seq<AudioDevice>,
    focused: bool,
    at: usize,
    none: Seq<char>,
) -> Seq<Seq<scene::SpanView>> {
    if devices.len() == 0 {
        seq![seq![scene::words(none, fnt())]]
    } else {
        device_rows(devices, focused, at)
    }
}

/// The block of a section.
pub open spec fn section_block(
    area: Area,
    title: Seq<char>,
    devices: Seq<AudioDevice>,
    focused: bool,
    at: usize,
    none: Seq<char>,
) -> Seq<scene::PlacedView> {
    seq![
        scene::framed(
            area,
            title,
            either(focused, g(), dim()),
            fg(
                if focused {
                    leaf()
                } else {
                    edge()
                },
            ),
        ),
        scene::written(layout::within(area), section_lines(devices, focused, at, none)),
    ]
}

/// What can be done, or what came of the last thing done.
pub open spec fn hint_lines(app: TuiApp) -> Seq<Seq<scene::SpanView>> {
    let s = seq![
        seq![
            scene::words(
                "  section: "@ + audio::command_for(app.audio.section, "output"@, "input"@)
                    + "  -  tab to switch"@,
                dim(),
            ),
        ],
        seq![],
    ];
    if app.status is Empty {
        s.push(
            seq![
                scene::words(
                    "  j/k navigate   enter activate port   space mute   d default"@,
                    fnt(),
                ),
            ],
        )
    } else {
        s + view::status_words(app.status, "  check "@, "  x  "@)
    }
}

/// The row that is looked at in a section, far below where it is in another.
pub open spec fn cursor_in(app: TuiApp, section: usize) -> usize {
    if app.audio.section == section {
        app.audio.cursor
    } else {
        999
    }
}

/// The audio tab.
pub open spec fn audio_tab(app: TuiApp, a: AudioAreas) -> Seq<scene::PlacedView> {
    let focused = app.focus == Focus::Content;
    section_block(
        a.rows@[0],
        " output (speakers / headphones) "@,
        app.audio.sinks@,
        focused && app.audio.section == 0,
        cursor_in(app, 0),
        "  no output devices found"@,
    ) + section_block(
        a.rows@[1],
        " input (microphones) "@,
        app.audio.sources@,
        focused && app.audio.section == 1,
        cursor_in(app, 1),
        "  no input devices found"@,
    ) + seq![
        scene::boxed(a.rows@[2], line_border()),
        scene::written(layout::within(a.rows@[2]), hint_lines(app)),
    ]
}

/// The block of a section.
fn render_section(
    area: Area,
    title: &str,
    devices: &Vec<AudioDevice>,
    focused: bool,
    at: usize,
    none: &str,
) -> (r: Scene)
    requires
        audio::rows(devices@) <= usize::MAX,
    ensures
        r@ == section_block(area, title@, devices@, focused, at, none@),
{
    let border = if focused {
        leaf()
    } else {
        edge()
    };
    let mut r = Scene::new();
    r.frame(area, title, either(focused, g(), dim()), fg(border));
    if devices.len() == 0 {
        r.line(inner(area), line(none, fnt()));
    } else {
        r.lines(inner(area), render_device_list(devices, focused, at));
    }
    assert(r@ =~= section_block(area, title@, devices@, focused, at, none@));
    r
}

/// What can be done, or what came of the last thing done.
fn write_hints(app: &TuiApp) -> (r: Vec<Line>)
    ensures
        scene::line_views(r@) == hint_lines(*app),
{
    let section: &str = if app.audio.section == 0 {
        "output"
    } else {
        "input"
    };
    let mut head = prefixed("  section: ", section);
    head.append("  -  tab to switch");
    let mut r: Vec<Line> = Vec::new();
    r.push(line(head.as_str(), dim()));
    r.push(Line::new());
    assert(scene::line_views(r@) =~= seq![
        seq![scene::words(head@, dim())],
        Seq::<scene::SpanView>::empty(),
    ]);
    match &app.status {
        Status::Empty => {
            r.push(
                line("  j/k navigate   enter activate port   space mute   d default", fnt()),
            );
        },
        s => add_status(&mut r, s, "  check ", "  x  "),
    }
    assert(scene::line_views(r@) =~= hint_lines(*app));
    r
}

/// The audio tab.
pub fn render_audio(app: &TuiApp, a: &AudioAreas) -> (r: Scene)
    requires
        app.audio.countable(),
        a.rows@.len() == 3,
    ensures
        r@ == audio_tab(*app, *a),
{
    let focused = app.focus == Focus::Content;
    let section: usize = app.audio.section;
    let out_at: usize = if section == 0 {
        app.audio.cursor
    } else {
        999
    };
    let in_at: usize = if section == 1 {
        app.audio.cursor
    } else {
        999
    };
    let mut r = render_section(
        a.rows[0],
        " output (speakers / headphones) ",
        &app.audio.sinks,
        focused && section == 0,
        out_at,
        "  no output devices found",
    );
    r.append(
        render_section(
            a.rows[1],
            " input (microphones) ",
            &app.audio.sources,
            focused && section == 1,
            in_at,
            "  no input devices found",
        ),
    );
    let mut hints = Scene::new();
    hints.plain_frame(a.rows[2], line_border());
    hints.lines(inner(a.rows[2]), write_hints(app));
    assert(hints@ =~= seq![
        scene::boxed(a.rows@[2], line_border()),
        scene::written(layout::within(a.rows@[2]), hint_lines(*app)),
    ]);
    r.append(hints);
    r
}

} // verus!

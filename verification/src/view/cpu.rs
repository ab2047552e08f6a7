//! The processor tab.

use crate::app::{Focus, Status, TuiApp};
use crate::cpu::{self, section_kind, CpuManager, PptKind, ThermalProfile};
use crate::layout::{self, inner, split, Area, Direction, Size};
use crate::number::{self, number_text};
use crate::scene::{
    self, dim, edge, either, fg, fnt, g, grey, leaf, light, line, line_border, medium, red, txt,
    white, Figure, Line, Scene,
};
use crate::sysutil::prefixed;
use crate::text::{self, join, left_column, right_column, same_str};
use crate::view::{self, add_status, option_look, option_text};
use vstd::prelude::*;
use vstd::string::*;

verus! {

/// The areas of the processor tab.
pub struct CpuAreas {
    pub rows: Vec<Area>,
    pub status: Vec<Area>,
    pub profile: Vec<Area>,
    pub frequency: Vec<Area>,
}

/// The areas are those of the processor tab.
pub open spec fn are_areas(area: Area, a: CpuAreas) -> bool {
    let one = Size::Length(1);
    &&& layout::is_division(
        area,
        Direction::Vertical,
        seq![
            Size::Length(5),
            Size::Length(7),
            Size::Length(6),
            Size::Length(9),
            Size::Fill(1),
        ],
        a.rows@,
    )
    &&& layout::is_division(
        layout::within(a.rows@[0]),
        Direction::Vertical,
        seq![one, one],
        a.status@,
    )
    &&& layout::is_division(
        layout::within(a.rows@[1]),
        Direction::Vertical,
        seq![one, one, one, one],
        a.profile@,
    )
    &&& layout::is_division(
        layout::within(a.rows@[2]),
        Direction::Vertical,
        seq![one, one, one],
        a.frequency@,
    )
}

/// Divides the area of the processor tab.
pub fn cpu_areas(area: Area) -> (r: CpuAreas)
    ensures
        are_areas(area, r),
{
    let one = Size::Length(1);
    let rows = split(
        Direction::Vertical,
        &[Size::Length(5), Size::Length(7), Size::Length(6), Size::Length(9), Size::Fill(1)],
        area,
    );
    let status = split(Direction::Vertical, &[one, one], inner(rows[0]));
    let profile = split(Direction::Vertical, &[one, one, one, one], inner(rows[1]));
    let frequency = split(Direction::Vertical, &[one, one, one], inner(rows[2]));
    CpuAreas { rows, status, profile, frequency }
}

// ── Status ──────────────────────────────────────────────────────────────────

/// The speed of a fan with its name before it.
pub open spec fn with_fan(line: Seq<scene::SpanView>, label: Seq<char>, rpm: Option<u32>) -> Seq<
    scene::SpanView,
> {
    match rpm {
        Some(n) => line.push(scene::words(label, dim())).push(
            scene::words(number::dec(n as nat) + " RPM"@, txt()),
        ),
        None => line,
    }
}

/// The temperature of the processor and the speed of the fans.
pub open spec fn sensors(c: CpuManager) -> Seq<scene::SpanView> {
    let s: Seq<scene::SpanView> = seq![];
    let s = match c.cpu_temp {
        Some(t) => s.push(scene::words("cpu "@, dim())).push(
            scene::around(
                ""@,
                Figure::Thousandths(t),
                "°C"@,
                fg(
                    if t >= 85_000 {
                        red()
                    } else if t >= 70_000 {
                        light()
                    } else {
                        white()
                    },
                ),
            ),
        ),
        None => s,
    };
    with_fan(with_fan(s, "   cpu fan "@, c.fan_cpu_rpm), "   gpu fan "@, c.fan_gpu_rpm)
}

/// What is in use of the processor.
pub open spec fn in_use(c: CpuManager) -> Seq<scene::SpanView> {
    let s = seq![
        scene::words("boost "@, dim()),
        scene::words(
            if c.boost_enabled {
                "on"@
            } else {
                "off"@
            },
            either(c.boost_enabled, g(), fnt()),
        ),
        scene::words("   governor "@, dim()),
        scene::words(c.governor.current@, txt()),
    ];
    if c.epp.current@.len() > 0 {
        s.push(scene::words("   epp "@, dim())).push(scene::words(c.epp.current@, txt()))
    } else {
        s
    }
}

/// The block of the processor's status.
pub open spec fn status_block(app: TuiApp, a: CpuAreas) -> Seq<scene::PlacedView> {
    seq![
        scene::framed(
            a.rows@[0],
            " cpu status "@,
            dim(),
            fg(
                if app.focus == Focus::Content {
                    grey(40)
                } else {
                    edge()
                },
            ),
        ),
        scene::written(a.status@[0], seq![sensors(app.cpu)]),
        scene::written(a.status@[1], seq![in_use(app.cpu)]),
    ]
}

/// Adds the speed of a fan with its name before it.
fn add_fan(line: &mut Line, label: &str, rpm: Option<u32>)
    ensures
        final(line)@ == with_fan(old(line)@, label@, rpm),
{
    if let Some(n) = rpm {
        line.text(label, dim());
        line.string(prefixed(number_text(n as u64).as_str(), " RPM"), txt());
    }
}

/// The temperature of the processor and the speed of the fans.
fn sensor_line(c: &CpuManager) -> (r: Line)
    ensures
        r@ == sensors(*c),
{
    let mut r = Line::new();
    if let Some(t) = c.cpu_temp {
        let color = if t >= 85_000 {
            red()
        } else if t >= 70_000 {
            light()
        } else {
            white()
        };
        r.text("cpu ", dim());
        r.figure("", Figure::Thousandths(t), "°C", fg(color));
    }
    add_fan(&mut r, "   cpu fan ", c.fan_cpu_rpm);
    add_fan(&mut r, "   gpu fan ", c.fan_gpu_rpm);
    assert(r@ =~= sensors(*c));
    r
}

/// What is in use of the processor.
fn in_use_line(c: &CpuManager) -> (r: Line)
    ensures
        r@ == in_use(*c),
{
    let mut r = Line::new();
    let boost: &str = if c.boost_enabled {
        "on"
    } else {
        "off"
    };
    r.text("boost ", dim());
    r.text(boost, either(c.boost_enabled, g(), fnt()));
    r.text("   governor ", dim());
    r.text(c.governor.current.as_str(), txt());
    if c.epp.current.as_str().unicode_len() > 0 {
        r.text("   epp ", dim());
        r.text(c.epp.current.as_str(), txt());
    }
    assert(r@ =~= in_use(*c));
    r
}

/// The block of the processor's status.
fn render_status(app: &TuiApp, a: &CpuAreas) -> (r: Scene)
    requires
        a.rows@.len() == 5,
        a.status@.len() == 2,
    ensures
        r@ == status_block(*app, *a),
{
    let border = if app.focus == Focus::Content {
        grey(40)
    } else {
        edge()
    };
    let mut r = Scene::new();
    r.frame(a.rows[0], " cpu status ", dim(), fg(border));
    r.line(a.status[0], sensor_line(&app.cpu));
    r.line(a.status[1], in_use_line(&app.cpu));
    assert(r@ =~= status_block(*app, *a));
    r
}

// ── Thermal profile ─────────────────────────────────────────────────────────

/// A profile that can be chosen, and a gap behind it.
pub open spec fn with_profile(line: Seq<scene::SpanView>, c: CpuManager, p: ThermalProfile) -> Seq<
    scene::SpanView,
> {
    line.push(
        scene::words(
            view::option_label(p.spec_label(), p == c.pending_thermal),
            view::option_style(p == c.thermal_profile, p == c.pending_thermal),
        ),
    ).push(scene::words("  "@, fnt()))
}

/// The profiles that can be chosen.
pub open spec fn profiles(c: CpuManager) -> Seq<scene::SpanView> {
    let s = seq![scene::words("  profile  "@, fnt())];
    let s = with_profile(s, c, ThermalProfile::Silent);
    let s = with_profile(s, c, ThermalProfile::Balanced);
    with_profile(s, c, ThermalProfile::Turbo)
}

/// The block of the thermal profile, where the firmware has one.
pub open spec fn profile_block(app: TuiApp, a: CpuAreas) -> Seq<scene::PlacedView> {
    let focused = app.focus == Focus::Content && app.cpu_section == 0;
    if app.cpu.asus_wmi_available {
        seq![
            scene::framed(
                a.rows@[1],
                " thermal profile (bios) "@,
                either(focused, g(), dim()),
                fg(
                    if focused {
                        leaf()
                    } else {
                        edge()
                    },
                ),
            ),
            scene::written(a.profile@[0], seq![profiles(app.cpu)]),
            scene::written(
                a.profile@[1],
                seq![
                    seq![
                        scene::words("  "@ + app.cpu.pending_thermal.spec_description(), dim()),
                    ],
                ],
            ),
            scene::written(
                a.profile@[3],
                seq![
                    seq![
                        scene::words(
                            "  current value maps to bios fan curve + power limits"@,
                            fnt(),
                        ),
                    ],
                ],
            ),
        ]
    } else {
        seq![]
    }
}

/// Adds a profile that can be chosen, and a gap behind it.
fn add_profile(line: &mut Line, c: &CpuManager, p: ThermalProfile)
    ensures
        final(line)@ == with_profile(old(line)@, *c, p),
{
    let chosen = p == c.pending_thermal;
    line.string(option_text(p.label(), chosen), option_look(p == c.thermal_profile, chosen));
    line.text("  ", fnt());
}

/// The block of the thermal profile.
fn render_profile(app: &TuiApp, a: &CpuAreas) -> (r: Scene)
    requires
        a.rows@.len() == 5,
        a.profile@.len() == 4,
    ensures
        r@ == profile_block(*app, *a),
{
    let mut r = Scene::new();
    if app.cpu.asus_wmi_available {
        let focused = app.focus == Focus::Content && app.cpu_section == 0;
        let border = if focused {
            leaf()
        } else {
            edge()
        };
        r.frame(
            a.rows[1],
            " thermal profile (bios) ",
            either(focused, g(), dim()),
            fg(border),
        );
        let mut profile = line("  profile  ", fnt());
        add_profile(&mut profile, &app.cpu, ThermalProfile::Silent);
        add_profile(&mut profile, &app.cpu, ThermalProfile::Balanced);
        add_profile(&mut profile, &app.cpu, ThermalProfile::Turbo);
        r.line(a.profile[0], profile);
        let description = prefixed("  ", app.cpu.pending_thermal.description());
        r.line(a.profile[1], line(description.as_str(), dim()));
        r.line(
            a.profile[3],
            line("  current value maps to bios fan curve + power limits", fnt()),
        );
    }
    assert(r@ =~= profile_block(*app, *a));
    r
}

// ── Frequency ───────────────────────────────────────────────────────────────

/// The mark before a row, which shows whether it is looked at.
pub open spec fn cursor(selected: bool) -> scene::SpanView {
    scene::words(
        if selected {
            "▶ "@
        } else {
            "  "@
        },
        either(selected, g(), fnt()),
    )
}

/// A governor that can be chosen.
pub open spec fn governor_option(c: CpuManager, name: String) -> scene::SpanView {
    scene::words(
        view::option_label(name@, name@ == c.pending_governor@),
        view::option_style(name@ == c.governor.current@, name@ == c.pending_governor@),
    )
}

/// The governors that can be chosen.
pub open spec fn governors(c: CpuManager, selected: bool) -> Seq<scene::SpanView> {
    seq![cursor(selected), scene::words("governor "@, dim())] + Seq::new(
        c.governor.available@.len(),
        |i: int| governor_option(c, c.governor.available@[i]),
    )
}

/// The energy preference that is chosen and those that can be.
pub open spec fn preferences(c: CpuManager, selected: bool) -> Seq<scene::SpanView> {
    seq![
        cursor(selected),
        scene::words("epp "@, dim()),
        scene::words(c.pending_epp@, txt()),
        scene::words("   available: "@, fnt()),
        scene::words(text::joined(c.epp.available@, " "@), fnt()),
    ]
}

/// Whether the boost is chosen.
pub open spec fn boost(c: CpuManager, selected: bool) -> Seq<scene::SpanView> {
    seq![
        cursor(selected),
        scene::words("cpu boost "@, dim()),
        scene::words(
            if c.pending_boost {
                "[on]  off"@
            } else {
                " on  [off]"@
            },
            view::option_style(c.boost_enabled, c.pending_boost),
        ),
    ]
}

/// The block of the frequency.
pub open spec fn frequency_block(app: TuiApp, a: CpuAreas) -> Seq<scene::PlacedView> {
    let focused = app.focus == Focus::Content;
    seq![
        quiet_frame(a.rows@[2], " cpu frequency "@, focused),
        scene::written(a.frequency@[0], seq![governors(app.cpu, focused && app.cpu_section == 1)]),
        scene::written(
            a.frequency@[1],
            seq![preferences(app.cpu, focused && app.cpu_section == 2)],
        ),
        scene::written(a.frequency@[2], seq![boost(app.cpu, focused && app.cpu_section == 3)]),
    ]
}

/// A border with a title that stays in the background.
pub open spec fn quiet_frame(area: Area, title: Seq<char>, focused: bool) -> scene::PlacedView {
    scene::framed(
        area,
        title,
        fg(
            if focused {
                light()
            } else {
                medium()
            },
        ),
        fg(
            if focused {
                grey(35)
            } else {
                edge()
            },
        ),
    )
}

/// Adds a border with a title that stays in the background.
fn add_quiet_frame(scene: &mut Scene, area: Area, title: &str, focused: bool)
    ensures
        final(scene)@ == old(scene)@.push(quiet_frame(area, title@, focused)),
{
    let color = if focused {
        light()
    } else {
        medium()
    };
    let border = if focused {
        grey(35)
    } else {
        edge()
    };
    scene.frame(area, title, fg(color), fg(border));
}

/// The mark before a row.
fn cursor_line(selected: bool) -> (r: Line)
    ensures
        r@ == seq![cursor(selected)],
{
    let mark: &str = if selected {
        "▶ "
    } else {
        "  "
    };
    line(mark, either(selected, g(), fnt()))
}

/// The governors that can be chosen.
fn governor_line(c: &CpuManager, selected: bool) -> (r: Line)
    ensures
        r@ == governors(*c, selected),
{
    let mut r = cursor_line(selected);
    r.text("governor ", dim());
    let ghost head = r@;
    let names = &c.governor.available;
    let mut i: usize = 0;
    while i < names.len()
        invariant
            i <= names@.len(),
            names == c.governor.available,
            head == seq![cursor(selected), scene::words("governor "@, dim())],
            r@ =~= head + Seq::new(
                i as nat,
                |k: int| governor_option(*c, c.governor.available@[k]),
            ),
        decreases names@.len() - i,
    {
        let name = names[i].as_str();
        let chosen = same_str(name, c.pending_governor.as_str());
        let used = same_str(name, c.governor.current.as_str());
        r.string(option_text(name, chosen), option_look(used, chosen));
        i += 1;
    }
    r
}

/// The energy preference that is chosen and those that can be.
fn preference_line(c: &CpuManager, selected: bool) -> (r: Line)
    ensures
        r@ == preferences(*c, selected),
{
    let mut r = cursor_line(selected);
    r.text("epp ", dim());
    r.text(c.pending_epp.as_str(), txt());
    r.text("   available: ", fnt());
    r.string(join(&c.epp.available, " "), fnt());
    assert(r@ =~= preferences(*c, selected));
    r
}

/// Whether the boost is chosen.
fn boost_line(c: &CpuManager, selected: bool) -> (r: Line)
    ensures
        r@ == boost(*c, selected),
{
    let mut r = cursor_line(selected);
    let label: &str = if c.pending_boost {
        "[on]  off"
    } else {
        " on  [off]"
    };
    r.text("cpu boost ", dim());
    r.text(label, option_look(c.boost_enabled, c.pending_boost));
    assert(r@ =~= boost(*c, selected));
    r
}

/// The block of the frequency.
fn render_frequency(app: &TuiApp, a: &CpuAreas) -> (r: Scene)
    requires
        a.rows@.len() == 5,
        a.frequency@.len() == 3,
    ensures
        r@ == frequency_block(*app, *a),
{
    let focused = app.focus == Focus::Content;
    let mut r = Scene::new();
    add_quiet_frame(&mut r, a.rows[2], " cpu frequency ", focused);
    r.line(a.frequency[0], governor_line(&app.cpu, focused && app.cpu_section == 1));
    r.line(a.frequency[1], preference_line(&app.cpu, focused && app.cpu_section == 2));
    r.line(a.frequency[2], boost_line(&app.cpu, focused && app.cpu_section == 3));
    assert(r@ =~= frequency_block(*app, *a));
    r
}

// ── Power limits ────────────────────────────────────────────────────────────

/// A limit, or a dash where there is none.
pub open spec fn limit_value(v: Option<u32>) -> Seq<char> {
    match v {
        Some(n) => number::dec(n as nat),
        None => "-"@,
    }
}

/// The row of a limit.
pub open spec fn limit_row(c: CpuManager, kind: PptKind, selected: bool) -> Seq<scene::SpanView> {
    let chosen = c.pending_ppt.spec_get(kind);
    let used = c.ppt.spec_get(kind);
    let changed = chosen != used;
    let s = seq![
        cursor(selected),
        scene::words(text::left_in(kind.spec_label(), 22), either(changed, g(), dim())),
        scene::words(
            text::right_in(limit_value(chosen), 4) + "W"@,
            either(changed, txt().strong(), txt()),
        ),
        scene::words("  (current: "@ + limit_value(used) + ")"@, fnt()),
    ];
    if selected {
        s.push(scene::words("  ←→"@, fnt()))
    } else {
        s
    }
}

/// The rows of the limits.
pub open spec fn limit_rows(app: TuiApp) -> Seq<Seq<scene::SpanView>> {
    Seq::new(
        6,
        |i: int|
            limit_row(
                app.cpu,
                cpu::kind_of_section(i + 4),
                app.focus == Focus::Content && app.cpu_section == i + 4,
            ),
    )
}

/// The block of the limits, where the firmware has them.
pub open spec fn limits_block(app: TuiApp, a: CpuAreas) -> Seq<scene::PlacedView> {
    if app.cpu.asus_wmi_available {
        seq![
            quiet_frame(a.rows@[3], " power limits (ppt) "@, app.focus == Focus::Content),
            scene::written(layout::within(a.rows@[3]), limit_rows(app)),
        ]
    } else {
        seq![]
    }
}

/// A limit, or a dash where there is none.
fn limit_text(v: Option<u32>) -> (r: String)
    ensures
        r@ == limit_value(v),
{
    match v {
        Some(n) => number_text(n as u64),
        None => "-".to_owned(),
    }
}

/// The row of a limit.
fn limit_line(c: &CpuManager, kind: PptKind, selected: bool) -> (r: Line)
    ensures
        r@ == limit_row(*c, kind, selected),
{
    let chosen = c.pending_ppt.get(kind);
    let used = c.ppt.get(kind);
    let changed = match (chosen, used) {
        (Some(x), Some(y)) => x != y,
        (None, None) => false,
        _ => true,
    };
    let mut value = right_column(limit_text(chosen).as_str(), 4);
    value.append("W");
    let mut current = prefixed("  (current: ", limit_text(used).as_str());
    current.append(")");
    let mut r = cursor_line(selected);
    r.string(left_column(kind.label(), 22), either(changed, g(), dim()));
    r.string(value, either(changed, txt().strong(), txt()));
    r.string(current, fnt());
    if selected {
        r.text("  ←→", fnt());
    }
    assert(r@ =~= limit_row(*c, kind, selected));
    r
}

/// The block of the limits.
fn render_limits(app: &TuiApp, a: &CpuAreas) -> (r: Scene)
    requires
        a.rows@.len() == 5,
    ensures
        r@ == limits_block(*app, *a),
{
    let mut r = Scene::new();
    if app.cpu.asus_wmi_available {
        let focused = app.focus == Focus::Content;
        add_quiet_frame(&mut r, a.rows[3], " power limits (ppt) ", focused);
        let mut lines: Vec<Line> = Vec::new();
        let mut section: usize = 4;
        while section < 10
            invariant
                4 <= section <= 10,
                focused == (app.focus == Focus::Content),
                lines@.len() == section - 4,
                forall|i: int|
                    0 <= i < section - 4 ==> (#[trigger] lines@[i])@ == limit_rows(*app)[i],
            decreases 10 - section,
        {
            let selected = focused && app.cpu_section == section;
            lines.push(limit_line(&app.cpu, section_kind(section), selected));
            section += 1;
        }
        assert(scene::line_views(lines@) =~= limit_rows(*app));
        r.lines(inner(a.rows[3]), lines);
    }
    assert(r@ =~= limits_block(*app, *a));
    r
}

// ── Description ─────────────────────────────────────────────────────────────

/// What the row that is looked at is about.
pub open spec fn description(app: TuiApp) -> Seq<char> {
    if app.cpu_section == 0 {
        app.cpu.pending_thermal.spec_description()
    } else if app.cpu_section == 1 {
        "CPU governor controls how the kernel scales frequency. Performance = max freq, Powersave = adaptive"@
    } else if app.cpu_section == 2 {
        "Energy Performance Preference hints the CPU how aggressively to boost"@
    } else if app.cpu_section == 3 {
        "Turbo boost allows CPU to exceed base clock. Disable to save power and reduce heat"@
    } else if app.cpu_section <= 9 {
        cpu::kind_of_section(app.cpu_section as int).spec_description()
    } else {
        ""@
    }
}

/// What the row that is looked at is about, or what came of the last thing done.
pub open spec fn description_lines(app: TuiApp) -> Seq<Seq<scene::SpanView>> {
    if !(app.status is Empty) {
        view::status_words(app.status, "  ✓  "@, "  ✗  "@)
    } else if description(app).len() > 0 {
        seq![seq![scene::words("  "@ + description(app), dim())]]
    } else {
        seq![]
    }
}

/// The block of the description.
pub open spec fn description_block(app: TuiApp, a: CpuAreas) -> Seq<scene::PlacedView> {
    seq![
        scene::boxed(a.rows@[4], line_border()),
        scene::written(layout::within(a.rows@[4]), description_lines(app)),
    ]
}

/// What the row that is looked at is about.
fn describe(app: &TuiApp) -> (r: &'static str)
    ensures
        r@ == description(*app),
{
    match app.cpu_section {
        0 => app.cpu.pending_thermal.description(),
        1 =>
            "CPU governor controls how the kernel scales frequency. Performance = max freq, Powersave = adaptive",
        2 => "Energy Performance Preference hints the CPU how aggressively to boost",
        3 => "Turbo boost allows CPU to exceed base clock. Disable to save power and reduce heat",
        s => if s <= 9 {
            section_kind(s).description()
        } else {
            ""
        },
    }
}

/// The block of the description.
fn render_description(app: &TuiApp, a: &CpuAreas) -> (r: Scene)
    requires
        a.rows@.len() == 5,
    ensures
        r@ == description_block(*app, *a),
{
    let mut lines: Vec<Line> = Vec::new();
    assert(scene::line_views(lines@) =~= seq![]);
    match &app.status {
        Status::Empty => {
            let text = describe(app);
            if text.unicode_len() > 0 {
                lines.push(line(prefixed("  ", text).as_str(), dim()));
            }
        },
        s => add_status(&mut lines, s, "  ✓  ", "  ✗  "),
    }
    assert(scene::line_views(lines@) =~= description_lines(*app));
    let mut r = Scene::new();
    r.plain_frame(a.rows[4], line_border());
    r.lines(inner(a.rows[4]), lines);
    assert(r@ =~= description_block(*app, *a));
    r
}

// ── The tab ─────────────────────────────────────────────────────────────────

/// The processor tab.
pub open spec fn cpu_tab(app: TuiApp, a: CpuAreas) -> Seq<scene::PlacedView> {
    status_block(app, a) + profile_block(app, a) + frequency_block(app, a) + limits_block(app, a)
        + description_block(app, a)
}

/// The processor tab.
pub fn render_cpu(app: &TuiApp, a: &CpuAreas) -> (r: Scene)
    requires
        a.rows@.len() == 5,
        a.status@.len() == 2,
        a.profile@.len() == 4,
        a.frequency@.len() == 3,
    ensures
        r@ == cpu_tab(*app, *a),
{
    let mut r = render_status(app, a);
    r.append(render_profile(app, a));
    r.append(render_frequency(app, a));
    r.append(render_limits(app, a));
    r.append(render_description(app, a));
    r
}

} // verus!

//! The battery tab.

use crate::app::{Focus, Status, TuiApp};
use crate::battery::{BatteryInfo, ChargeStatus};
use crate::layout::{self, inner, split, Area, Direction, Size};
use crate::number::{self, number_text};
use crate::scene::{
    self, bg, dim, edge, either, fg, fnt, g, green, grey, leaf, light, line_border, red, span, txt,
    white, Figure, Line, Scene,
};
use crate::sysutil::prefixed;
use crate::text::{self, right_column};
use crate::view::{self, status_line, Band, Estimates};
use vstd::prelude::*;
use vstd::string::*;

verus! {

/// The areas of the battery tab.
pub struct BatteryAreas {
    pub rows: Vec<Area>,
    pub status: Vec<Area>,
    pub limit: Vec<Area>,
    pub details: Vec<Area>,
}

/// The areas are those of the battery tab.
pub open spec fn are_areas(area: Area, a: BatteryAreas) -> bool {
    let one = Size::Length(1);
    &&& layout::is_division(
        area,
        Direction::Vertical,
        seq![Size::Length(5), Size::Length(8), Size::Length(5), Size::Fill(1)],
        a.rows@,
    )
    &&& layout::is_division(
        layout::within(a.rows@[0]),
        Direction::Vertical,
        seq![one, one, one],
        a.status@,
    )
    &&& layout::is_division(
        layout::within(a.rows@[1]),
        Direction::Vertical,
        seq![one, one, one, one, one, Size::Fill(1)],
        a.limit@,
    )
    &&& layout::is_division(
        layout::within(a.rows@[2]),
        Direction::Vertical,
        seq![one, one],
        a.details@,
    )
}

/// Divides the area of the battery tab.
pub fn battery_areas(area: Area) -> (r: BatteryAreas)
    ensures
        are_areas(area, r),
{
    let one = Size::Length(1);
    let rows = split(
        Direction::Vertical,
        &[Size::Length(5), Size::Length(8), Size::Length(5), Size::Fill(1)],
        area,
    );
    let status = split(Direction::Vertical, &[one, one, one], inner(rows[0]));
    let limit = split(
        Direction::Vertical,
        &[one, one, one, one, one, Size::Fill(1)],
        inner(rows[1]),
    );
    let details = split(Direction::Vertical, &[one, one], inner(rows[2]));
    BatteryAreas { rows, status, limit, details }
}

// ── Status ──────────────────────────────────────────────────────────────────

/// The colour of the bar of the charge.
pub open spec fn charge_color(bat: BatteryInfo) -> scene::Color {
    if !bat.status.spec_plugged() && bat.capacity < 20 {
        red()
    } else {
        green()
    }
}

/// A figure with its name before it.
pub open spec fn with_stat(
    line: Seq<scene::SpanView>,
    label: Seq<char>,
    figure: Figure,
    unit: Seq<char>,
) -> Seq<scene::SpanView> {
    line.push(scene::words(label, dim())).push(scene::around(""@, figure, unit, txt()))
}

/// The figures of the battery.
pub open spec fn stats(bat: BatteryInfo, power_counts: bool) -> Seq<scene::SpanView> {
    let s: Seq<scene::SpanView> = seq![];
    let s = match bat.voltage {
        Some(v) => with_stat(s, "voltage "@, Figure::Millionths(v), "V  "@),
        None => s,
    };
    let s = match bat.current {
        Some(c) => with_stat(s, "current "@, Figure::Magnitude(c), "A  "@),
        None => s,
    };
    let s = match bat.power {
        Some(p) => with_stat(s, "power "@, Figure::Power(p), "W  "@),
        None => s,
    };
    match bat.spec_remaining(power_counts) {
        Some(h) => with_stat(
            s,
            if bat.status == ChargeStatus::Charging {
                "to full "@
            } else {
                "remaining "@
            },
            Figure::Hours(h),
            "  "@,
        ),
        None => s,
    }
}

/// The block of the battery's status.
pub open spec fn status_block(app: TuiApp, e: Estimates, a: BatteryAreas) -> Seq<scene::PlacedView> {
    let bat = app.battery.info;
    seq![
        scene::framed(
            a.rows@[0],
            " battery status "@,
            dim(),
            fg(
                if app.focus == Focus::Content {
                    grey(40)
                } else {
                    edge()
                },
            ),
        ),
        scene::gauged(
            a.status@[0],
            bat.capacity as u16,
            fg(charge_color(bat)).on(grey(22)),
            scene::words(
                text::right_in(number::dec(bat.capacity as nat), 3) + "%  "@
                    + bat.status.spec_label(),
                fg(white()).strong(),
            ),
        ),
        scene::written(a.status@[2], seq![stats(bat, e.power_counts)]),
    ]
}

/// Adds a figure with its name before it.
fn stat(line: &mut Line, label: &str, figure: Figure, unit: &str)
    ensures
        final(line)@ == with_stat(old(line)@, label@, figure, unit@),
{
    line.text(label, dim());
    line.figure("", figure, unit, txt());
}

/// The block of the battery's status.
fn render_status(app: &TuiApp, e: &Estimates, a: &BatteryAreas) -> (r: Scene)
    requires
        a.rows@.len() == 4,
        a.status@.len() == 3,
    ensures
        r@ == status_block(*app, *e, *a),
{
    let bat = &app.battery.info;
    let mut r = Scene::new();
    let border = if app.focus == Focus::Content {
        grey(40)
    } else {
        edge()
    };
    r.frame(a.rows[0], " battery status ", dim(), fg(border));

    let color = if bat.status.is_plugged() {
        green()
    } else if bat.capacity < 20 {
        red()
    } else {
        green()
    };
    let mut label = right_column(number_text(bat.capacity as u64).as_str(), 3);
    label.append("%  ");
    label.append(bat.status.label());
    r.gauge(
        a.status[0],
        bat.capacity as u16,
        fg(color).on(grey(22)),
        span(label, fg(white()).strong()),
    );

    let mut line = Line::new();
    if let Some(v) = bat.voltage {
        stat(&mut line, "voltage ", Figure::Millionths(v), "V  ");
    }
    if let Some(c) = bat.current {
        stat(&mut line, "current ", Figure::Magnitude(c), "A  ");
    }
    if let Some(p) = bat.power {
        stat(&mut line, "power ", Figure::Power(p), "W  ");
    }
    if let Some(h) = bat.time_remaining_h(e.power_counts) {
        let label: &str = if bat.status == ChargeStatus::Charging {
            "to full "
        } else {
            "remaining "
        };
        stat(&mut line, label, Figure::Hours(h), "  ");
    }
    assert(line@ =~= stats(*bat, e.power_counts));
    r.line(a.status[2], line);
    assert(r@ =~= status_block(*app, *e, *a));
    r
}

// ── Charge limit ────────────────────────────────────────────────────────────

/// A preset of the charge limit.
pub open spec fn preset(limit: u8, percent: u8) -> scene::SpanView {
    scene::words(
        view::option_label(number::dec(percent as nat) + "%"@, limit == percent),
        either(limit == percent, bg(), dim()),
    )
}

/// The presets of the charge limit.
pub open spec fn presets(limit: u8) -> Seq<scene::SpanView> {
    seq![
        scene::words("  presets  "@, fnt()),
        preset(limit, 60),
        scene::words("  "@, fnt()),
        preset(limit, 80),
        scene::words("  "@, fnt()),
        preset(limit, 100),
        scene::words("   1 / 2 / 3"@, fnt()),
    ]
}

/// What can be done with the charge limit, or what came of it.
pub open spec fn limit_action(app: TuiApp) -> Seq<scene::SpanView> {
    if app.status is Empty {
        seq![
            scene::words(
                "  [a/↵] apply  "@,
                either(app.desired_limit != app.battery.info.charge_limit, g(), dim()),
            ),
            scene::words(
                if app.battery.info.persistent_enabled {
                    "[s] update persist"@
                } else {
                    "[s] setup persist"@
                },
                fnt(),
            ),
        ]
    } else {
        view::marked_status(app.status)
    }
}

/// The block of the charge limit.
pub open spec fn limit_block(app: TuiApp, a: BatteryAreas) -> Seq<scene::PlacedView> {
    let focused = app.focus == Focus::Content;
    let changed = app.desired_limit != app.battery.info.charge_limit;
    seq![
        scene::framed(
            a.rows@[1],
            " charge limit "@,
            either(focused, g(), dim()),
            fg(
                if focused {
                    leaf()
                } else {
                    edge()
                },
            ),
        ),
        scene::gauged(
            a.limit@[0],
            app.desired_limit as u16,
            fg(
                if changed {
                    green()
                } else {
                    grey(48)
                },
            ).on(grey(22)),
            scene::words(
                text::right_in(number::dec(app.desired_limit as nat), 3) + "%"@ + (if focused {
                    "  ←→ adjust  shift+←→ ±5"@
                } else {
                    "  (focus with tab)"@
                }),
                either(changed, txt(), dim()),
            ),
        ),
        scene::written(a.limit@[2], seq![presets(app.desired_limit)]),
        scene::written(a.limit@[4], seq![limit_action(app)]),
    ]
}

/// Adds a preset of the charge limit.
fn add_preset(line: &mut Line, limit: u8, percent: u8)
    ensures
        final(line)@ == old(line)@.push(preset(limit, percent)),
{
    let active = limit == percent;
    let mut label = number_text(percent as u64);
    label.append("%");
    line.string(view::option_text(label.as_str(), active), either(active, bg(), dim()));
}

/// The presets of the charge limit.
fn preset_line(limit: u8) -> (r: Line)
    ensures
        r@ == presets(limit),
{
    let mut r = Line::new();
    r.text("  presets  ", fnt());
    add_preset(&mut r, limit, 60);
    r.text("  ", fnt());
    add_preset(&mut r, limit, 80);
    r.text("  ", fnt());
    add_preset(&mut r, limit, 100);
    r.text("   1 / 2 / 3", fnt());
    assert(r@ =~= presets(limit));
    r
}

/// What can be done with the charge limit, or what came of it.
fn limit_line(app: &TuiApp) -> (r: Line)
    ensures
        r@ == limit_action(*app),
{
    match &app.status {
        Status::Empty => {
            let changed = app.desired_limit != app.battery.info.charge_limit;
            let persist: &str = if app.battery.info.persistent_enabled {
                "[s] update persist"
            } else {
                "[s] setup persist"
            };
            let mut r = Line::new();
            r.text("  [a/↵] apply  ", either(changed, g(), dim()));
            r.text(persist, fnt());
            assert(r@ =~= limit_action(*app));
            r
        },
        s => status_line(s),
    }
}

/// The block of the charge limit.
fn render_limit(app: &TuiApp, a: &BatteryAreas) -> (r: Scene)
    requires
        a.rows@.len() == 4,
        a.limit@.len() == 6,
    ensures
        r@ == limit_block(*app, *a),
{
    let focused = app.focus == Focus::Content;
    let changed = app.desired_limit != app.battery.info.charge_limit;
    let border = if focused {
        leaf()
    } else {
        edge()
    };
    let color = if changed {
        green()
    } else {
        grey(48)
    };
    let hint: &str = if focused {
        "  ←→ adjust  shift+←→ ±5"
    } else {
        "  (focus with tab)"
    };
    let mut label = right_column(number_text(app.desired_limit as u64).as_str(), 3);
    label.append("%");
    label.append(hint);
    let mut r = Scene::new();
    r.frame(a.rows[1], " charge limit ", either(focused, g(), dim()), fg(border));
    r.gauge(
        a.limit[0],
        app.desired_limit as u16,
        fg(color).on(grey(22)),
        span(label, either(changed, txt(), dim())),
    );
    r.line(a.limit[2], preset_line(app.desired_limit));
    r.line(a.limit[4], limit_line(app));
    assert(r@ =~= limit_block(*app, *a));
    r
}

// ── Details ─────────────────────────────────────────────────────────────────

/// The colour of the health of a battery.
pub open spec fn health_color(band: Band) -> scene::Color {
    match band {
        Band::Good => green(),
        Band::Fair => light(),
        Band::Poor => red(),
    }
}

/// The energy and the health of the battery.
pub open spec fn energy(bat: BatteryInfo, band: Band) -> Seq<scene::SpanView> {
    let s: Seq<scene::SpanView> = seq![];
    let s = match bat.energy_now {
        Some(n) => with_stat(s, "energy now "@, Figure::Millionths(n), "Wh  "@),
        None => s,
    };
    let s = match bat.energy_full {
        Some(n) => with_stat(s, "full "@, Figure::Millionths(n), "Wh  "@),
        None => s,
    };
    match bat.spec_health() {
        Some(h) => s.push(scene::words("health "@, dim())).push(
            scene::around(""@, Figure::Health(h), "%"@, fg(health_color(band))),
        ),
        None => s,
    }
}

/// What the battery is, and whether its limit is set again at each start.
pub open spec fn device(app: TuiApp) -> Seq<scene::SpanView> {
    let bat = app.battery.info;
    let s: Seq<scene::SpanView> = seq![];
    let s = match bat.cycle_count {
        Some(c) => s.push(scene::words("cycles "@, dim())).push(
            scene::words(number::dec(c as nat) + "  "@, txt()),
        ),
        None => s,
    };
    let s = match bat.technology {
        Some(t) => s.push(scene::words("tech "@, dim())).push(scene::words(t@ + "  "@, txt())),
        None => s,
    };
    s.push(scene::words("device "@, dim())).push(
        scene::words(app.battery.spec_name() + "  "@, txt()),
    ).push(scene::words("persistent "@, dim())).push(
        scene::words(
            if bat.persistent_enabled {
                "active"@
            } else {
                "not set"@
            },
            either(bat.persistent_enabled, g(), dim()),
        ),
    )
}

/// The block of the battery's details.
pub open spec fn details_block(app: TuiApp, e: Estimates, a: BatteryAreas) -> Seq<
    scene::PlacedView,
> {
    seq![
        scene::framed(a.rows@[2], " details "@, fnt(), line_border()),
        scene::written(a.details@[0], seq![energy(app.battery.info, e.health)]),
        scene::written(a.details@[1], seq![device(app)]),
    ]
}

/// The energy and the health of the battery.
fn energy_line(bat: &BatteryInfo, band: Band) -> (r: Line)
    ensures
        r@ == energy(*bat, band),
{
    let mut r = Line::new();
    if let Some(n) = bat.energy_now {
        stat(&mut r, "energy now ", Figure::Millionths(n), "Wh  ");
    }
    if let Some(n) = bat.energy_full {
        stat(&mut r, "full ", Figure::Millionths(n), "Wh  ");
    }
    if let Some(h) = bat.health_percent() {
        let color = match band {
            Band::Good => green(),
            Band::Fair => light(),
            Band::Poor => red(),
        };
        r.text("health ", dim());
        r.figure("", Figure::Health(h), "%", fg(color));
    }
    assert(r@ =~= energy(*bat, band));
    r
}

/// What the battery is, and whether its limit is set again at each start.
fn device_line(app: &TuiApp) -> (r: Line)
    ensures
        r@ == device(*app),
{
    let bat = &app.battery.info;
    let mut r = Line::new();
    if let Some(c) = bat.cycle_count {
        r.text("cycles ", dim());
        r.string(prefixed(number_text(c as u64).as_str(), "  "), txt());
    }
    if let Some(t) = &bat.technology {
        r.text("tech ", dim());
        r.string(prefixed(t.as_str(), "  "), txt());
    }
    r.text("device ", dim());
    r.string(prefixed(app.battery.bat_name(), "  "), txt());
    r.text("persistent ", dim());
    let persistent: &str = if bat.persistent_enabled {
        "active"
    } else {
        "not set"
    };
    r.text(persistent, either(bat.persistent_enabled, g(), dim()));
    assert(r@ =~= device(*app));
    r
}

// ── The tab ─────────────────────────────────────────────────────────────────

/// The battery tab.
pub open spec fn battery_tab(app: TuiApp, e: Estimates, a: BatteryAreas) -> Seq<scene::PlacedView> {
    status_block(app, e, a) + limit_block(app, a) + details_block(app, e, a)
}

/// The battery tab.
pub fn render_battery(app: &TuiApp, e: &Estimates, a: &BatteryAreas) -> (r: Scene)
    requires
        app.battery.info.capacity <= 100,
        app.desired_limit <= 100,
        a.rows@.len() == 4,
        a.status@.len() == 3,
        a.limit@.len() == 6,
        a.details@.len() == 2,
    ensures
        r@ == battery_tab(*app, *e, *a),
{
    let mut r = render_status(app, e, a);
    r.append(render_limit(app, a));
    let mut details = Scene::new();
    details.frame(a.rows[2], " details ", fnt(), line_border());
    details.line(a.details[0], energy_line(&app.battery.info, e.health));
    details.line(a.details[1], device_line(app));
    assert(details@ =~= details_block(*app, *e, *a));
    r.append(details);
    r
}

} // verus!

//! The settings tab.

use crate::app::{Focus, TuiApp};
use crate::layout::{self, inner, split, Area, Direction, Size};
use crate::number::{self, number_text};
use crate::scene::{self, bg, dim, edge, either, fg, fnt, g, grey, line, txt, Line, Scene};
use crate::sysutil::prefixed;
use crate::text::{self, left_column};
use crate::view::{self, add_status};
use vstd::prelude::*;
use vstd::string::*;

verus! {

/// The areas of the settings tab.
pub struct SettingsAreas {
    pub all: Area,
    pub rows: Vec<Area>,
}

/// The areas are those of the settings tab.
pub open spec fn are_areas(area: Area, a: SettingsAreas) -> bool {
    &&& a.all == area
    &&& layout::is_division(
        layout::within(area),
        Direction::Vertical,
        seq![Size::Length(1), Size::Length(1), Size::Fill(1)],
        a.rows@,
    )
}

/// Divides the area of the settings tab.
pub fn settings_areas(area: Area) -> (r: SettingsAreas)
    ensures
        are_areas(area, r),
{
    let rows = split(
        Direction::Vertical,
        &[Size::Length(1), Size::Length(1), Size::Fill(1)],
        inner(area),
    );
    SettingsAreas { all: area, rows }
}

/// The head of the columns.
pub open spec fn columns() -> Seq<scene::SpanView> {
    seq![
        scene::words("  "@ + text::left_in("setting"@, 32), fnt()),
        scene::words(text::left_in("value"@, 16), fnt()),
        scene::words("key"@, fnt()),
    ]
}

/// The row of a setting.
pub open spec fn setting_row(
    selected: bool,
    label: Seq<char>,
    value: Seq<char>,
    key: Seq<char>,
) -> Seq<scene::SpanView> {
    seq![
        scene::words(
            if selected {
                "▶ "@
            } else {
                "  "@
            },
            either(selected, g(), fnt()),
        ),
        scene::words(text::left_in(label, 30), either(selected, txt(), dim())),
        scene::words(text::left_in(value, 16), either(selected, bg(), txt())),
        scene::words("["@ + key + "]"@, fnt()),
    ]
}

/// An empty line.
pub open spec fn gap() -> Seq<scene::SpanView> {
    seq![]
}

/// The rows of the settings.
pub open spec fn setting_rows(app: TuiApp) -> Seq<Seq<scene::SpanView>> {
    let focused = app.focus == Focus::Content;
    let at = app.settings_cursor;
    seq![
        setting_row(
            focused && at == 0,
            "default charge limit"@,
            number::dec(app.config.charge_limit as nat) + "%"@,
            "← →"@,
        ),
        gap(),
        setting_row(
            focused && at == 1,
            "apply on startup"@,
            if app.config.auto_apply_on_start {
                "on"@
            } else {
                "off"@
            },
            "space/↵"@,
        ),
        gap(),
        setting_row(
            focused && at == 2,
            "refresh interval"@,
            number::dec(app.config.refresh_secs as nat) + "s"@,
            "← →"@,
        ),
        gap(),
        setting_row(
            focused && at == 3,
            "persistence setup"@,
            if app.battery.info.persistent_enabled {
                "configured"@
            } else {
                "not configured"@
            },
            "↵"@,
        ),
        gap(),
    ]
}

/// The settings tab.
pub open spec fn settings_tab(app: TuiApp, a: SettingsAreas) -> Seq<scene::PlacedView> {
    seq![
        scene::framed(
            a.all,
            " settings "@,
            fnt(),
            fg(
                if app.focus == Focus::Content {
                    grey(35)
                } else {
                    edge()
                },
            ),
        ),
        scene::written(a.rows@[0], seq![columns()]),
        scene::written(
            a.rows@[2],
            setting_rows(app) + view::status_words(app.status, "  ✓  "@, "  ✗  "@),
        ),
    ]
}

/// The head of the columns.
fn column_line() -> (r: Line)
    ensures
        r@ == columns(),
{
    let mut r = line(prefixed("  ", left_column("setting", 32).as_str()).as_str(), fnt());
    r.string(left_column("value", 16), fnt());
    r.text("key", fnt());
    assert(r@ =~= columns());
    r
}

/// Adds the row of a setting and a gap below it.
fn add_row(lines: &mut Vec<Line>, selected: bool, label: &str, value: &str, key: &str)
    ensures
        scene::line_views(final(lines)@) == scene::line_views(old(lines)@).push(
            setting_row(selected, label@, value@, key@),
        ).push(gap()),
{
    let mark: &str = if selected {
        "▶ "
    } else {
        "  "
    };
    let mut hint = prefixed("[", key);
    hint.append("]");
    let mut r = line(mark, either(selected, g(), fnt()));
    r.string(left_column(label, 30), either(selected, txt(), dim()));
    r.string(left_column(value, 16), either(selected, bg(), txt()));
    r.string(hint, fnt());
    assert(r@ =~= setting_row(selected, label@, value@, key@));
    lines.push(r);
    lines.push(Line::new());
    assert(scene::line_views(lines@) =~= scene::line_views(old(lines)@).push(
        setting_row(selected, label@, value@, key@),
    ).push(gap()));
}

/// The settings tab.
pub fn render_settings(app: &TuiApp, a: &SettingsAreas) -> (r: Scene)
    requires
        a.rows@.len() == 3,
    ensures
        r@ == settings_tab(*app, *a),
{
    let focused = app.focus == Focus::Content;
    let at: usize = app.settings_cursor;
    let border = if focused {
        grey(35)
    } else {
        edge()
    };
    let on: &str = if app.config.auto_apply_on_start {
        "on"
    } else {
        "off"
    };
    let configured: &str = if app.battery.info.persistent_enabled {
        "configured"
    } else {
        "not configured"
    };
    let limit = prefixed(number_text(app.config.charge_limit as u64).as_str(), "%");
    let interval = prefixed(number_text(app.config.refresh_secs).as_str(), "s");
    let mut lines: Vec<Line> = Vec::new();
    assert(scene::line_views(lines@) =~= seq![]);
    add_row(&mut lines, focused && at == 0, "default charge limit", limit.as_str(), "← →");
    add_row(&mut lines, focused && at == 1, "apply on startup", on, "space/↵");
    add_row(&mut lines, focused && at == 2, "refresh interval", interval.as_str(), "← →");
    add_row(&mut lines, focused && at == 3, "persistence setup", configured, "↵");
    assert(scene::line_views(lines@) =~= setting_rows(*app));
    add_status(&mut lines, &app.status, "  ✓  ", "  ✗  ");
    let mut r = Scene::new();
    r.frame(a.all, " settings ", fnt(), fg(border));
    r.line(a.rows[0], column_line());
    r.lines(a.rows[2], lines);
    assert(r@ =~= settings_tab(*app, *a));
    r
}

} // verus!

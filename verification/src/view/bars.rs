//! The bars at the top and at the bottom, and the sidebar.

use crate::app::{Focus, TuiApp};
use crate::layout::Area;
use crate::number::{self, number_text};
use crate::scene::{
    self, bg, dim, dng, edge, fg, fnt, g, grey, ground, light, line, red, span, Figure, Line,
    Scene, Span, Widget,
};
use crate::sysutil::prefixed;
use vstd::prelude::*;
use vstd::string::*;

verus! {

// ── Title bar ───────────────────────────────────────────────────────────────

/// What separates two parts of the title bar.
pub open spec fn dot() -> scene::SpanView {
    scene::words("  ·  "@, fnt().on(grey(11)))
}

/// A temperature in the title bar.
pub open spec fn title_temp(name: Seq<char>, t: i64, high: i64) -> scene::SpanView {
    scene::around(
        name,
        Figure::Thousandths(t),
        "°c"@,
        fg(
            if t >= high {
                red()
            } else {
                light()
            },
        ).on(grey(11)),
    )
}

/// The left side of the title bar.
pub open spec fn title_left(app: TuiApp) -> Seq<scene::SpanView> {
    let bat = app.battery.info;
    let s = seq![
        scene::words("  zhelper"@, bg().on(grey(11))),
        dot(),
        scene::words(
            "bat "@ + number::dec(bat.capacity as nat) + "%"@,
            (if bat.status.spec_plugged() {
                g()
            } else if bat.capacity < 20 {
                dng()
            } else {
                dim()
            }).on(grey(11)),
        ),
    ];
    let s = match app.system.cpu_temp {
        Some(t) => s.push(dot()).push(title_temp("cpu "@, t, 80_000)),
        None => s,
    };
    match app.system.gpu_temp {
        Some(t) => s.push(dot()).push(title_temp("gpu "@, t, 85_000)),
        None => s,
    }
}

/// A line of text on a ground in an area.
pub open spec fn on_ground(
    area: Area,
    text: Seq<scene::SpanView>,
    right: bool,
    level: u8,
) -> scene::PlacedView {
    scene::PlacedView {
        area,
        widget: scene::WidgetView::Text {
            lines: seq![text],
            right,
            style: Some(ground(grey(level))),
        },
    }
}

/// The title bar.
pub open spec fn title_bar(app: TuiApp, area: Area) -> Seq<scene::PlacedView> {
    seq![
        on_ground(area, title_left(app), false, 11),
        on_ground(
            area,
            seq![
                scene::words(
                    if app.system.ac_connected {
                        "ac  "@
                    } else {
                        "bat  "@
                    },
                    dim().on(grey(11)),
                ),
            ],
            true,
            11,
        ),
    ]
}

/// Adds a line of text on a ground.
fn place_on_ground(scene: &mut Scene, area: Area, line: Line, right: bool, level: u8)
    ensures
        final(scene)@ == old(scene)@.push(on_ground(area, line@, right, level)),
{
    let mut lines: Vec<Line> = Vec::new();
    lines.push(line);
    assert(scene::line_views(lines@) =~= seq![line@]);
    scene.place(area, Widget::Text { lines, right, style: Some(ground(grey(level))) });
}

/// Adds a temperature to the title bar.
fn add_title_temp(left: &mut Line, name: &str, t: i64, high: i64)
    ensures
        final(left)@ == old(left)@.push(dot()).push(title_temp(name@, t, high)),
{
    let color = if t >= high {
        red()
    } else {
        light()
    };
    left.text("  ·  ", fnt().on(grey(11)));
    left.figure(name, Figure::Thousandths(t), "°c", fg(color).on(grey(11)));
}

/// The title bar.
pub fn render_titlebar(app: &TuiApp, area: Area) -> (r: Scene)
    ensures
        r@ == title_bar(*app, area),
{
    let bat = &app.battery.info;
    let mut left = Line::new();
    left.text("  zhelper", bg().on(grey(11)));
    left.text("  ·  ", fnt().on(grey(11)));
    let mut charge = prefixed("bat ", number_text(bat.capacity as u64).as_str());
    charge.append("%");
    let style = if bat.status.is_plugged() {
        g()
    } else if bat.capacity < 20 {
        dng()
    } else {
        dim()
    };
    left.string(charge, style.on(grey(11)));
    if let Some(t) = app.system.cpu_temp {
        add_title_temp(&mut left, "cpu ", t, 80_000);
    }
    if let Some(t) = app.system.gpu_temp {
        add_title_temp(&mut left, "gpu ", t, 85_000);
    }
    assert(left@ =~= title_left(*app));
    let ac: &str = if app.system.ac_connected {
        "ac  "
    } else {
        "bat  "
    };
    let mut r = Scene::new();
    place_on_ground(&mut r, area, left, false, 11);
    place_on_ground(&mut r, area, line(ac, dim().on(grey(11))), true, 11);
    r
}

// ── Sidebar ─────────────────────────────────────────────────────────────────

/// The names of the tabs.
pub open spec fn tab_names() -> Seq<Seq<char>> {
    seq!["battery"@, "system"@, "cpu"@, "gpu"@, "audio"@, "settings"@]
}

/// The sidebar.
pub open spec fn sidebar(app: TuiApp, area: Area) -> Seq<scene::PlacedView> {
    seq![
        scene::PlacedView {
            area,
            widget: scene::WidgetView::List {
                items: Seq::new(6, |i: int| scene::words("  "@ + tab_names()[i], dim())),
                border: fg(
                    if app.focus == Focus::Sidebar {
                        grey(45)
                    } else {
                        edge()
                    },
                ),
                chosen_style: bg(),
                chosen_mark: "▶ "@,
                chosen: app.active_tab,
            },
        },
    ]
}

/// The sidebar.
pub fn render_sidebar(app: &TuiApp, area: Area) -> (r: Scene)
    ensures
        r@ == sidebar(*app, area),
{
    let tabs: [&str; 6] = ["battery", "system", "cpu", "gpu", "audio", "settings"];
    let ghost names = tab_names();
    let mut items: Vec<Span> = Vec::new();
    let mut i: usize = 0;
    while i < 6
        invariant
            i <= 6,
            tabs@.len() == 6,
            names == tab_names(),
            forall|k: int| 0 <= k < 6 ==> (#[trigger] tabs@[k])@ == names[k],
            items@.len() == i,
            forall|k: int|
                0 <= k < i ==> (#[trigger] items@[k])@ == scene::words("  "@ + names[k], dim()),
        decreases 6 - i,
    {
        items.push(span(prefixed("  ", tabs[i]), dim()));
        i += 1;
    }
    assert(scene::span_views(items@) =~= Seq::new(
        6,
        |i: int| scene::words("  "@ + tab_names()[i], dim()),
    ));
    let border = if app.focus == Focus::Sidebar {
        grey(45)
    } else {
        edge()
    };
    let mut r = Scene::new();
    r.place(
        area,
        Widget::List {
            items,
            border: fg(border),
            chosen_style: bg(),
            chosen_mark: "▶ ".to_owned(),
            chosen: app.active_tab,
        },
    );
    r
}

// ── Status bar ──────────────────────────────────────────────────────────────

/// The keys that do something.
pub open spec fn key_hints(tab: usize, focus: Focus) -> Seq<char> {
    match (tab, focus) {
        (0, Focus::Content) =>
            "  q quit   tab→sidebar   ←→ limit   shift+←→ ±5   1/2/3 presets   a/↵ apply   s setup/persist   r refresh"@,
        (1, Focus::Content) => "  q quit   tab→sidebar   r refresh"@,
        (2, Focus::Content) =>
            "  q quit   tab→sidebar   j/k navigate   ←→ adjust   space toggle   a/↵ apply   r refresh"@,
        (3, Focus::Content) =>
            "  q quit   tab→sidebar   ← → select mode   a/↵ apply   r refresh"@,
        (4, Focus::Content) =>
            "  q quit   tab output/input   j/k navigate   enter activate port   space mute   d default"@,
        (5, Focus::Content) =>
            "  q quit   tab→sidebar   j/k navigate   ←→ adjust   space/↵ toggle   r refresh"@,
        (_, Focus::Sidebar) =>
            "  q quit   j/k navigate   ↵/→ select tab   tab→content   r refresh"@,
        _ => "  q quit"@,
    }
}

/// The status bar.
pub open spec fn status_bar(app: TuiApp, area: Area) -> Seq<scene::PlacedView> {
    seq![
        on_ground(
            area,
            seq![scene::words(key_hints(app.active_tab, app.focus), fnt())],
            false,
            10,
        ),
    ]
}

/// The status bar.
pub fn render_statusbar(app: &TuiApp, area: Area) -> (r: Scene)
    ensures
        r@ == status_bar(*app, area),
{
    let keys: &str = match (app.active_tab, app.focus) {
        (0, Focus::Content) =>
            "  q quit   tab→sidebar   ←→ limit   shift+←→ ±5   1/2/3 presets   a/↵ apply   s setup/persist   r refresh",
        (1, Focus::Content) => "  q quit   tab→sidebar   r refresh",
        (2, Focus::Content) =>
            "  q quit   tab→sidebar   j/k navigate   ←→ adjust   space toggle   a/↵ apply   r refresh",
        (3, Focus::Content) => "  q quit   tab→sidebar   ← → select mode   a/↵ apply   r refresh",
        (4, Focus::Content) =>
            "  q quit   tab output/input   j/k navigate   enter activate port   space mute   d default",
        (5, Focus::Content) =>
            "  q quit   tab→sidebar   j/k navigate   ←→ adjust   space/↵ toggle   r refresh",
        (_, Focus::Sidebar) => "  q quit   j/k navigate   ↵/→ select tab   tab→content   r refresh",
        _ => "  q quit",
    };
    let mut r = Scene::new();
    place_on_ground(&mut r, area, line(keys, fnt()), false, 10);
    r
}

} // verus!

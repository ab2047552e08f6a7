//! What the panel looks like.

use crate::app::{Status, TuiApp};
use crate::layout::{self, split, Area, Direction, Size};
use crate::scene::{self, dng, g, line, Line, Scene, Style};
use crate::sysutil::prefixed;
use vstd::prelude::*;
use vstd::string::*;

pub mod audio;
pub mod bars;
pub mod battery;
pub mod cpu;
pub mod gpu;
pub mod laws;
pub mod settings;
pub mod system;

verus! {

/// How healthy a battery is.
#[derive(Debug, Clone, Copy, PartialEq, Eq, Structural)]
pub enum Band {
    /// Above 80 percent.
    Good,
    /// Above 60 percent.
    Fair,
    Poor,
}

/// What is known of figures with a decimal point.
#[derive(Debug, Clone, Copy, PartialEq, Eq, Structural)]
pub struct Estimates {
    /// The power is above a tenth of a watt.
    pub power_counts: bool,
    pub health: Band,
    /// The share of the memory that is used, in whole percent.
    pub memory_percent: u16,
    /// More than 85 percent of the memory are used.
    pub memory_high: bool,
}

/// One of several that can be chosen: the chosen one stands in brackets.
pub open spec fn option_label(label: Seq<char>, chosen: bool) -> Seq<char> {
    if chosen {
        "["@ + label + "]"@
    } else {
        " "@ + label + " "@
    }
}

/// The style of one of several that can be chosen.
pub open spec fn option_style(in_use: bool, chosen: bool) -> Style {
    if in_use && chosen {
        scene::bg()
    } else if chosen {
        scene::txt().strong()
    } else if in_use {
        scene::g()
    } else {
        scene::dim()
    }
}

/// One of several that can be chosen.
pub fn option_text(label: &str, chosen: bool) -> (r: String)
    ensures
        r@ == option_label(label@, chosen),
{
    let mut r = prefixed(
        if chosen {
            "["
        } else {
            " "
        },
        label,
    );
    r.append(
        if chosen {
            "]"
        } else {
            " "
        },
    );
    r
}

/// The style of one of several that can be chosen.
pub fn option_look(in_use: bool, chosen: bool) -> (r: Style)
    ensures
        r == option_style(in_use, chosen),
{
    match (in_use, chosen) {
        (true, true) => scene::bg(),
        (false, true) => scene::txt().strong(),
        (true, false) => scene::g(),
        (false, false) => scene::dim(),
    }
}

/// What is said of the last thing done, with a mark before it.
pub open spec fn marked_status(status: Status) -> Seq<scene::SpanView> {
    match status {
        Status::Success(m) => seq![scene::words("  ✓  "@, g()), scene::words(m@, g())],
        Status::Failure(m) => seq![scene::words("  ✗  "@, dng()), scene::words(m@, dng())],
        Status::Empty => seq![],
    }
}

/// What is said of the last thing done, with a mark before it.
pub fn status_line(status: &Status) -> (r: Line)
    ensures
        r@ == marked_status(*status),
{
    let mut r = Line::new();
    match status {
        Status::Success(m) => {
            r.text("  ✓  ", g());
            r.text(m.as_str(), g());
        },
        Status::Failure(m) => {
            r.text("  ✗  ", dng());
            r.text(m.as_str(), dng());
        },
        Status::Empty => {},
    }
    assert(r@ =~= marked_status(*status));
    r
}

/// What is said of the last thing done, in one piece, where there is anything.
pub open spec fn status_words(status: Status, done: Seq<char>, failed: Seq<char>) -> Seq<
    Seq<scene::SpanView>,
> {
    match status {
        Status::Success(m) => seq![seq![scene::words(done + m@, g())]],
        Status::Failure(m) => seq![seq![scene::words(failed + m@, dng())]],
        Status::Empty => seq![],
    }
}

/// Adds what is said of the last thing done, in one piece, where there is
/// anything.
pub fn add_status(lines: &mut Vec<Line>, status: &Status, done: &str, failed: &str)
    ensures
        scene::line_views(final(lines)@) == scene::line_views(old(lines)@) + status_words(
            *status,
            done@,
            failed@,
        ),
{
    match status {
        Status::Success(m) => {
            let l = line(prefixed(done, m.as_str()).as_str(), g());
            lines.push(l);
        },
        Status::Failure(m) => {
            let l = line(prefixed(failed, m.as_str()).as_str(), dng());
            lines.push(l);
        },
        Status::Empty => {},
    }
    assert(scene::line_views(lines@) =~= scene::line_views(old(lines)@) + status_words(
        *status,
        done@,
        failed@,
    ));
}

// ── The screen ──────────────────────────────────────────────────────────────

/// The areas of the screen.
pub struct ScreenAreas {
    /// The title bar, what is between the bars, and the status bar.
    pub rows: Vec<Area>,
    /// The sidebar and the content.
    pub columns: Vec<Area>,
}

/// The areas are those of the screen.
pub open spec fn are_areas(area: Area, a: ScreenAreas) -> bool {
    &&& layout::is_division(
        area,
        Direction::Vertical,
        seq![Size::Length(1), Size::Fill(1), Size::Length(1)],
        a.rows@,
    )
    &&& layout::is_division(
        a.rows@[1],
        Direction::Horizontal,
        seq![Size::Length(18), Size::Fill(1)],
        a.columns@,
    )
}

/// Divides the area of the screen.
pub fn screen_areas(area: Area) -> (r: ScreenAreas)
    ensures
        are_areas(area, r),
{
    let rows = split(
        Direction::Vertical,
        &[Size::Length(1), Size::Fill(1), Size::Length(1)],
        area,
    );
    let columns = split(Direction::Horizontal, &[Size::Length(18), Size::Fill(1)], rows[1]);
    ScreenAreas { rows, columns }
}

/// On a screen with room for them the title bar is the first row and the status
/// bar the last; between them the sidebar takes the first 18 columns and the
/// content all others.
pub proof fn law_screen_divided(area: Area, a: ScreenAreas)
    requires
        are_areas(area, a),
        area.height >= 2,
        area.width >= 18,
        area.x + area.width <= u16::MAX,
        area.y + area.height <= u16::MAX,
    ensures
        a.rows@[0] == (Area { height: 1, ..area }),
        a.rows@[2] == (Area { y: (area.y + area.height - 1) as u16, height: 1, ..area }),
        a.columns@[0] == (Area {
            x: area.x,
            y: (area.y + 1) as u16,
            width: 18,
            height: (area.height - 2) as u16,
        }),
        a.columns@[1] == (Area {
            x: (area.x + 18) as u16,
            y: (area.y + 1) as u16,
            width: (area.width - 18) as u16,
            height: (area.height - 2) as u16,
        }),
{
    reveal_with_fuel(layout::taken, 4);
    let rows = seq![Size::Length(1), Size::Fill(1), Size::Length(1)];
    let columns = seq![Size::Length(18), Size::Fill(1)];
    assert(layout::fits(area, Direction::Vertical, rows));
    assert(layout::fits(a.rows@[1], Direction::Horizontal, columns));
}

/// `content` is the tab that is open, in an area.
pub open spec fn is_tab(
    app: TuiApp,
    e: Estimates,
    area: Area,
    content: Seq<scene::PlacedView>,
) -> bool {
    if app.active_tab == 0 {
        exists|a: battery::BatteryAreas| #[trigger]
            battery::are_areas(area, a) && content == battery::battery_tab(app, e, a)
    } else if app.active_tab == 1 {
        exists|a: system::SystemAreas| #[trigger]
            system::are_areas(area, a) && content == system::system_tab(app.system, e, a)
    } else if app.active_tab == 2 {
        exists|a: cpu::CpuAreas| #[trigger]
            cpu::are_areas(area, a) && content == cpu::cpu_tab(app, a)
    } else if app.active_tab == 3 {
        exists|a: gpu::GpuAreas| #[trigger]
            gpu::are_areas(area, a) && content == gpu::gpu_tab(app, a)
    } else if app.active_tab == 4 {
        exists|a: audio::AudioAreas| #[trigger]
            audio::are_areas(area, a) && content == audio::audio_tab(app, a)
    } else if app.active_tab == 5 {
        exists|a: settings::SettingsAreas| #[trigger]
            settings::are_areas(area, a) && content == settings::settings_tab(app, a)
    } else {
        content == Seq::<scene::PlacedView>::empty()
    }
}

/// The figures of the tab that is open can be drawn: no bar is filled beyond its
/// end, and the rows of the audio devices can be counted.
pub open spec fn drawable(app: TuiApp, e: Estimates) -> bool {
    &&& app.active_tab == 0 ==> app.battery.info.capacity <= 100 && app.desired_limit <= 100
    &&& app.active_tab == 1 ==> e.memory_percent <= 100
    &&& app.active_tab == 4 ==> app.audio.countable()
}

/// A panel with limits in range can be drawn, whatever tab is open.
pub proof fn law_panel_drawable(app: TuiApp, e: Estimates)
    requires
        app.well_formed(),
        app.limits_in_range(),
        app.battery.info.capacity <= 100,
        e.memory_percent <= 100,
    ensures
        drawable(app, e),
{
}

/// `scene` is the bars, the sidebar and the tab that is open, in the areas of
/// the screen.
pub open spec fn is_screen(
    app: TuiApp,
    e: Estimates,
    a: ScreenAreas,
    scene: Seq<scene::PlacedView>,
) -> bool {
    let before = bars::title_bar(app, a.rows@[0]) + bars::status_bar(app, a.rows@[2])
        + bars::sidebar(app, a.columns@[0]);
    &&& scene.len() >= before.len()
    &&& scene.take(before.len() as int) == before
    &&& is_tab(app, e, a.columns@[1], scene.skip(before.len() as int))
}

/// The tab that is open, in an area.
pub fn render_tab(app: &TuiApp, e: &Estimates, area: Area) -> (r: Scene)
    requires
        drawable(*app, *e),
    ensures
        is_tab(*app, *e, area, r@),
{
    match app.active_tab {
        0 => {
            let a = battery::battery_areas(area);
            battery::render_battery(app, e, &a)
        },
        1 => {
            let a = system::system_areas(area);
            system::render_system(app, e, &a)
        },
        2 => {
            let a = cpu::cpu_areas(area);
            cpu::render_cpu(app, &a)
        },
        3 => {
            let a = gpu::gpu_areas(area);
            gpu::render_gpu(app, &a)
        },
        4 => {
            let a = audio::audio_areas(area);
            audio::render_audio(app, &a)
        },
        5 => {
            let a = settings::settings_areas(area);
            settings::render_settings(app, &a)
        },
        _ => Scene::new(),
    }
}

/// The screen.
pub fn render(app: &TuiApp, e: &Estimates, area: Area) -> (r: Scene)
    requires
        drawable(*app, *e),
    ensures
        exists|a: ScreenAreas| #[trigger] are_areas(area, a) && is_screen(*app, *e, a, r@),
{
    let a = screen_areas(area);
    let mut r = bars::render_titlebar(app, a.rows[0]);
    r.append(bars::render_statusbar(app, a.rows[2]));
    r.append(bars::render_sidebar(app, a.columns[0]));
    let ghost before = r@;
    let content = render_tab(app, e, a.columns[1]);
    r.append(content);
    proof {
        assert(r@.take(before.len() as int) =~= before);
        assert(r@.skip(before.len() as int) =~= content@);
        assert(is_screen(*app, *e, a, r@));
    }
    r
}

} // verus!

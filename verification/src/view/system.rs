//! The system tab.

use crate::app::TuiApp;
use crate::layout::{self, inner, split, Area, Direction, Size};
use crate::number::{self, number_text};
use crate::scene::{
    self, dim, fg, fnt, green, grey, light, line_border, red, span, txt, white, Figure, Line, Scene,
    Span,
};
use crate::sysutil::prefixed;
use crate::system::{MemoryShare, SystemInfo, ThermalZone};
use crate::text::{self, chars_of, head, left_column, string_of};
use crate::view::Estimates;
use vstd::prelude::*;
use vstd::string::*;

verus! {

/// The areas of the system tab.
pub struct SystemAreas {
    pub rows: Vec<Area>,
    pub processor: Vec<Area>,
    pub memory: Vec<Area>,
    pub zones: Vec<Area>,
}

/// The areas are those of the system tab.
pub open spec fn are_areas(area: Area, a: SystemAreas) -> bool {
    let one = Size::Length(1);
    &&& layout::is_division(
        area,
        Direction::Vertical,
        seq![Size::Length(5), Size::Length(5), Size::Fill(1)],
        a.rows@,
    )
    &&& layout::is_division(
        layout::within(a.rows@[0]),
        Direction::Vertical,
        seq![one, one, one],
        a.processor@,
    )
    &&& layout::is_division(
        layout::within(a.rows@[1]),
        Direction::Vertical,
        seq![one, one, one],
        a.memory@,
    )
    &&& layout::is_division(
        layout::within(a.rows@[2]),
        Direction::Horizontal,
        seq![Size::Ratio(1, 2), Size::Ratio(1, 2)],
        a.zones@,
    )
}

/// Divides the area of the system tab.
pub fn system_areas(area: Area) -> (r: SystemAreas)
    ensures
        are_areas(area, r),
{
    let one = Size::Length(1);
    let rows = split(
        Direction::Vertical,
        &[Size::Length(5), Size::Length(5), Size::Fill(1)],
        area,
    );
    let processor = split(Direction::Vertical, &[one, one, one], inner(rows[0]));
    let memory = split(Direction::Vertical, &[one, one, one], inner(rows[1]));
    let zones = split(
        Direction::Horizontal,
        &[Size::Ratio(1, 2), Size::Ratio(1, 2)],
        inner(rows[2]),
    );
    SystemAreas { rows, processor, memory, zones }
}

// ── Processor ───────────────────────────────────────────────────────────────

/// The first characters of a text.
pub open spec fn at_most(s: Seq<char>, n: int) -> Seq<char> {
    if s.len() <= n {
        s
    } else {
        s.take(n)
    }
}

/// How many characters of the model there is room for.
pub open spec fn model_room(area: Area) -> int {
    if layout::within(area).width > 2 {
        layout::within(area).width - 2
    } else {
        0
    }
}

/// A temperature with its name before it.
pub open spec fn with_temp(
    line: Seq<scene::SpanView>,
    label: Seq<char>,
    temp: Option<i64>,
    high: i64,
) -> Seq<scene::SpanView> {
    match temp {
        Some(t) => line.push(scene::words(label, dim())).push(
            scene::around(
                ""@,
                Figure::Thousandths(t),
                "°C"@,
                fg(
                    if t >= high {
                        red()
                    } else {
                        white()
                    },
                ),
            ),
        ),
        None => line,
    }
}

/// The block of the processor.
pub open spec fn processor_block(sys: SystemInfo, a: SystemAreas) -> Seq<scene::PlacedView> {
    let s = seq![scene::framed(a.rows@[0], " processor "@, fnt(), line_border())];
    let s = match sys.cpu_model {
        Some(m) => s.push(
            scene::written(
                a.processor@[0],
                seq![seq![scene::words(at_most(m@, model_room(a.rows@[0])), dim())]],
            ),
        ),
        None => s,
    };
    s.push(
        scene::written(
            a.processor@[2],
            seq![with_temp(with_temp(seq![], "cpu "@, sys.cpu_temp, 80_000), "   gpu "@, sys.gpu_temp, 85_000)],
        ),
    )
}

/// The first characters of a text.
fn shortened(s: &str, n: usize) -> (r: String)
    ensures
        r@ == at_most(s@, n as int),
{
    let v = chars_of(s);
    if v.len() <= n {
        s.to_owned()
    } else {
        string_of(head(v.as_slice(), n))
    }
}

/// Adds a temperature with its name before it.
fn add_temp(line: &mut Line, label: &str, temp: Option<i64>, high: i64)
    ensures
        final(line)@ == with_temp(old(line)@, label@, temp, high),
{
    if let Some(t) = temp {
        let color = if t >= high {
            red()
        } else {
            white()
        };
        line.text(label, dim());
        line.figure("", Figure::Thousandths(t), "°C", fg(color));
    }
}

/// The block of the processor.
fn render_processor(sys: &SystemInfo, a: &SystemAreas) -> (r: Scene)
    requires
        a.rows@.len() == 3,
        a.processor@.len() == 3,
    ensures
        r@ == processor_block(*sys, *a),
{
    let mut r = Scene::new();
    r.frame(a.rows[0], " processor ", fnt(), line_border());
    if let Some(m) = &sys.cpu_model {
        let width: u16 = inner(a.rows[0]).width;
        let room: usize = if width > 2 {
            width as usize - 2
        } else {
            0
        };
        r.line(a.processor[0], scene::line(shortened(m.as_str(), room).as_str(), dim()));
    }
    let mut line = Line::new();
    add_temp(&mut line, "cpu ", sys.cpu_temp, 80_000);
    add_temp(&mut line, "   gpu ", sys.gpu_temp, 85_000);
    r.line(a.processor[2], line);
    assert(r@ =~= processor_block(*sys, *a));
    r
}

// ── Memory ──────────────────────────────────────────────────────────────────

/// A number of megabytes.
pub open spec fn megabytes(n: u64, after: Seq<char>) -> Seq<char> {
    number::dec(n as nat) + after
}

/// The label of the bar of the memory.
pub open spec fn memory_label(share: Option<MemoryShare>, used: u64, total: u64) -> scene::SpanView {
    let after = "%  ("@ + number::dec(used as nat) + " / "@ + number::dec(total as nat) + " MB)"@;
    match share {
        Some(s) => scene::around(""@, Figure::Share(s), after, txt()),
        None => scene::words("0"@ + after, txt()),
    }
}

/// What is used of the memory and what not.
pub open spec fn memory_line(used: u64, available: u64, total: u64) -> Seq<scene::SpanView> {
    seq![
        scene::words("used "@, dim()),
        scene::words(megabytes(used, " MB  "@), txt()),
        scene::words("available "@, dim()),
        scene::words(megabytes(available, " MB  "@), txt()),
        scene::words("total "@, dim()),
        scene::words(megabytes(total, " MB"@), txt()),
    ]
}

/// The share of the memory that is used.
pub open spec fn memory_share(sys: SystemInfo) -> Option<MemoryShare> {
    match (sys.mem_total_mb, sys.mem_available_mb) {
        (Some(t), Some(a)) if t > 0 => Some(MemoryShare { total_mb: t, available_mb: a }),
        _ => None,
    }
}

/// The block of the memory.
pub open spec fn memory_block(sys: SystemInfo, e: Estimates, a: SystemAreas) -> Seq<
    scene::PlacedView,
> {
    let s = seq![scene::framed(a.rows@[1], " memory "@, fnt(), line_border())];
    match (sys.mem_total_mb, sys.mem_used_mb, sys.mem_available_mb) {
        (Some(total), Some(used), Some(available)) => {
            let share = memory_share(sys);
            s.push(
                scene::gauged(
                    a.memory@[0],
                    if share is Some {
                        e.memory_percent
                    } else {
                        0
                    },
                    fg(
                        if share is Some && e.memory_high {
                            red()
                        } else {
                            green()
                        },
                    ).on(grey(22)),
                    memory_label(share, used, total),
                ),
            ).push(scene::written(a.memory@[2], seq![memory_line(used, available, total)]))
        },
        _ => s.push(
            scene::written(
                layout::within(a.rows@[1]),
                seq![seq![scene::words("unavailable"@, dim())]],
            ),
        ),
    }
}

/// The label of the bar of the memory.
fn label_memory(share: Option<MemoryShare>, used: u64, total: u64) -> (r: Span)
    ensures
        r@ == memory_label(share, used, total),
{
    let mut after = prefixed("%  (", number_text(used).as_str());
    after.append(" / ");
    after.append(number_text(total).as_str());
    after.append(" MB)");
    match share {
        Some(s) => Span {
            before: "".to_owned(),
            figure: Some(Figure::Share(s)),
            after,
            style: txt(),
        },
        None => span(prefixed("0", after.as_str()), txt()),
    }
}

/// What is used of the memory and what not.
fn write_memory(used: u64, available: u64, total: u64) -> (r: Line)
    ensures
        r@ == memory_line(used, available, total),
{
    let mut r = Line::new();
    r.text("used ", dim());
    r.string(prefixed(number_text(used).as_str(), " MB  "), txt());
    r.text("available ", dim());
    r.string(prefixed(number_text(available).as_str(), " MB  "), txt());
    r.text("total ", dim());
    r.string(prefixed(number_text(total).as_str(), " MB"), txt());
    assert(r@ =~= memory_line(used, available, total));
    r
}

/// The block of the memory.
fn render_memory(sys: &SystemInfo, e: &Estimates, a: &SystemAreas) -> (r: Scene)
    requires
        a.rows@.len() == 3,
        a.memory@.len() == 3,
    ensures
        r@ == memory_block(*sys, *e, *a),
{
    let mut r = Scene::new();
    r.frame(a.rows[1], " memory ", fnt(), line_border());
    match (sys.mem_total_mb, sys.mem_used_mb, sys.mem_available_mb) {
        (Some(total), Some(used), Some(available)) => {
            let share = sys.mem_used_percent();
            let percent: u16 = if share.is_some() {
                e.memory_percent
            } else {
                0
            };
            let color = if share.is_some() && e.memory_high {
                red()
            } else {
                green()
            };
            r.gauge(
                a.memory[0],
                percent,
                fg(color).on(grey(22)),
                label_memory(share, used, total),
            );
            r.line(a.memory[2], write_memory(used, available, total));
        },
        _ => {
            r.line(inner(a.rows[1]), scene::line("unavailable", dim()));
        },
    }
    assert(r@ =~= memory_block(*sys, *e, *a));
    r
}

// ── Thermal zones ───────────────────────────────────────────────────────────

/// A zone and its temperature.
pub open spec fn zone_line(z: ThermalZone) -> Seq<scene::SpanView> {
    seq![
        scene::words(text::left_in(z.name@, 22), dim()),
        scene::around(
            ""@,
            Figure::ThousandthsTo1(z.temp),
            "°C"@,
            fg(
                if z.temp >= 80_000 {
                    red()
                } else if z.temp >= 65_000 {
                    light()
                } else {
                    white()
                },
            ),
        ),
    ]
}

/// Some zones and their temperatures.
pub open spec fn zone_lines(zones: Seq<ThermalZone>) -> Seq<Seq<scene::SpanView>> {
    Seq::new(zones.len(), |i: int| zone_line(zones[i]))
}

/// The block of the thermal zones, in two columns. The first holds one more
/// where their number is odd.
pub open spec fn zones_block(sys: SystemInfo, a: SystemAreas) -> Seq<scene::PlacedView> {
    let zones = sys.thermal_zones@;
    let half = (zones.len() + 1) as int / 2;
    if zones.len() == 0 {
        seq![]
    } else {
        let s = seq![
            scene::framed(a.rows@[2], " thermal zones "@, fnt(), line_border()),
            scene::written(a.zones@[0], zone_lines(zones.take(half))),
        ];
        if half < zones.len() {
            s.push(scene::written(a.zones@[1], zone_lines(zones.skip(half))))
        } else {
            s
        }
    }
}

/// The zones from one to before another, and their temperatures.
fn write_zones(zones: &Vec<ThermalZone>, from: usize, to: usize) -> (r: Vec<Line>)
    requires
        from <= to <= zones@.len(),
    ensures
        scene::line_views(r@) == zone_lines(zones@.subrange(from as int, to as int)),
{
    let mut r: Vec<Line> = Vec::new();
    let mut i: usize = from;
    while i < to
        invariant
            from <= i <= to <= zones@.len(),
            r@.len() == i - from,
            forall|k: int| 0 <= k < i - from ==> (#[trigger] r@[k])@ == zone_line(zones@[from + k]),
        decreases to - i,
    {
        let z = &zones[i];
        let color = if z.temp >= 80_000 {
            red()
        } else if z.temp >= 65_000 {
            light()
        } else {
            white()
        };
        let mut line = Line::new();
        line.string(left_column(z.name.as_str(), 22), dim());
        line.figure("", Figure::ThousandthsTo1(z.temp), "°C", fg(color));
        assert(line@ =~= zone_line(*z));
        r.push(line);
        i += 1;
    }
    assert(scene::line_views(r@) =~= zone_lines(zones@.subrange(from as int, to as int)));
    r
}

/// The block of the thermal zones.
fn render_zones(sys: &SystemInfo, a: &SystemAreas) -> (r: Scene)
    requires
        a.rows@.len() == 3,
        a.zones@.len() == 2,
    ensures
        r@ == zones_block(*sys, *a),
{
    let zones = &sys.thermal_zones;
    let mut r = Scene::new();
    let n: usize = zones.len();
    if n > 0 {
        let half: usize = n / 2 + n % 2;
        r.frame(a.rows[2], " thermal zones ", fnt(), line_border());
        r.lines(a.zones[0], write_zones(zones, 0, half));
        assert(zones@.subrange(0, half as int) =~= zones@.take(half as int));
        if half < n {
            r.lines(a.zones[1], write_zones(zones, half, n));
            assert(zones@.subrange(half as int, n as int) =~= zones@.skip(half as int));
        }
    }
    assert(r@ =~= zones_block(*sys, *a));
    r
}

// ── The tab ─────────────────────────────────────────────────────────────────

/// The system tab.
pub open spec fn system_tab(sys: SystemInfo, e: Estimates, a: SystemAreas) -> Seq<scene::PlacedView> {
    processor_block(sys, a) + memory_block(sys, e, a) + zones_block(sys, a)
}

/// The system tab.
pub fn render_system(app: &TuiApp, e: &Estimates, a: &SystemAreas) -> (r: Scene)
    requires
        e.memory_percent <= 100,
        a.rows@.len() == 3,
        a.processor@.len() == 3,
        a.memory@.len() == 3,
        a.zones@.len() == 2,
    ensures
        r@ == system_tab(app.system, *e, *a),
{
    let sys = &app.system;
    let mut r = render_processor(sys, a);
    r.append(render_memory(sys, e, a));
    r.append(render_zones(sys, a));
    r
}

} // verus!

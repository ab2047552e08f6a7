//! The graphics tab.

use crate::app::{Focus, Status, TuiApp};
use crate::gpu::{GpuManager, GpuMode};
use crate::layout::{self, inner, split, Area, Direction, Size};
use crate::scene::{self, dim, dng, edge, either, fg, fnt, g, leaf, line, Line, Scene};
use crate::sysutil::prefixed;
use crate::view::{self, option_look, option_text, status_line};
use vstd::prelude::*;
use vstd::string::*;

verus! {

/// The areas of the graphics tab.
pub struct GpuAreas {
    pub rows: Vec<Area>,
    pub mode: Vec<Area>,
}

/// The areas are those of the graphics tab.
pub open spec fn are_areas(area: Area, a: GpuAreas) -> bool {
    let one = Size::Length(1);
    &&& layout::is_division(
        area,
        Direction::Vertical,
        seq![Size::Length(7), Size::Fill(1)],
        a.rows@,
    )
    &&& layout::is_division(
        layout::within(a.rows@[0]),
        Direction::Vertical,
        seq![one, one, one, one, one, Size::Fill(1)],
        a.mode@,
    )
}

/// Divides the area of the graphics tab.
pub fn gpu_areas(area: Area) -> (r: GpuAreas)
    ensures
        are_areas(area, r),
{
    let one = Size::Length(1);
    let rows = split(Direction::Vertical, &[Size::Length(7), Size::Fill(1)], area);
    let mode = split(
        Direction::Vertical,
        &[one, one, one, one, one, Size::Fill(1)],
        inner(rows[0]),
    );
    GpuAreas { rows, mode }
}

/// The name of an adapter with its kind before it.
pub open spec fn with_name(line: Seq<scene::SpanView>, label: Seq<char>, name: Option<String>) -> Seq<
    scene::SpanView,
> {
    match name {
        Some(n) => line.push(scene::words(label, fnt())).push(scene::words(n@, dim())),
        None => line,
    }
}

/// A mode that can be chosen.
pub open spec fn mode_option(gpu: GpuManager, mode: GpuMode) -> scene::SpanView {
    scene::words(
        view::option_label(mode.spec_label(), mode == gpu.pending_mode),
        view::option_style(mode == gpu.mode, mode == gpu.pending_mode),
    )
}

/// Some modes that can be chosen, with a gap behind each.
pub open spec fn mode_options(gpu: GpuManager, modes: Seq<GpuMode>) -> Seq<scene::SpanView>
    decreases modes.len(),
{
    if modes.len() == 0 {
        seq![scene::words("  mode  "@, fnt())]
    } else {
        mode_options(gpu, modes.drop_last()).push(mode_option(gpu, modes.last())).push(
            scene::words("  "@, fnt()),
        )
    }
}

/// The modes that can be chosen.
pub open spec fn modes(app: TuiApp) -> Seq<scene::SpanView> {
    let s = mode_options(app.gpu, GpuMode::spec_variants(app.gpu.has_mux));
    if app.focus == Focus::Content {
        s.push(scene::words("← →"@, fnt()))
    } else {
        s
    }
}

/// What can be done with the mode, or what came of it.
pub open spec fn mode_action(app: TuiApp) -> Seq<scene::SpanView> {
    if app.status is Empty {
        seq![
            scene::words(
                "  [a/↵] apply  "@,
                either(app.gpu.pending_mode != app.gpu.mode, g(), dim()),
            ),
            scene::words("queued until shutdown"@, fnt()),
        ]
    } else {
        view::marked_status(app.status)
    }
}

/// The graphics tab.
pub open spec fn gpu_tab(app: TuiApp, a: GpuAreas) -> Seq<scene::PlacedView> {
    let focused = app.focus == Focus::Content;
    let s = seq![
        scene::framed(
            a.rows@[0],
            " graphics mode "@,
            either(focused, g(), dim()),
            fg(
                if focused {
                    leaf()
                } else {
                    edge()
                },
            ),
        ),
        scene::written(
            a.mode@[0],
            seq![
                with_name(
                    with_name(seq![], "  iGPU  "@, app.gpu.igpu_name),
                    "    dGPU  "@,
                    app.gpu.dgpu_name,
                ),
            ],
        ),
    ];
    if app.gpu.asus_wmi_available {
        s.push(scene::written(a.mode@[1], seq![modes(app)])).push(
            scene::written(
                a.mode@[2],
                seq![seq![scene::words("  "@ + app.gpu.pending_mode.spec_description(), dim())]],
            ),
        ).push(scene::written(a.mode@[4], seq![mode_action(app)]))
    } else {
        s.push(
            scene::written(
                a.mode@[1],
                seq![
                    seq![
                        scene::words("  ASUS GPU control not available  "@, dng()),
                        scene::words("requires asus-nb-wmi kernel module"@, dim()),
                    ],
                ],
            ),
        )
    }
}

/// Adds the name of an adapter with its kind before it.
fn add_name(line: &mut Line, label: &str, name: &Option<String>)
    ensures
        final(line)@ == with_name(old(line)@, label@, *name),
{
    if let Some(n) = name {
        line.text(label, fnt());
        line.text(n.as_str(), dim());
    }
}

/// The modes that can be chosen.
fn mode_line(app: &TuiApp) -> (r: Line)
    ensures
        r@ == modes(*app),
{
    let variants = GpuMode::variants(app.gpu.has_mux);
    let mut r = line("  mode  ", fnt());
    let mut i: usize = 0;
    assert(variants@.take(0) =~= seq![]);
    while i < variants.len()
        invariant
            i <= variants@.len(),
            r@ == mode_options(app.gpu, variants@.take(i as int)),
        decreases variants@.len() - i,
    {
        let mode = variants[i];
        let chosen = mode == app.gpu.pending_mode;
        assert(variants@.take(i + 1).drop_last() =~= variants@.take(i as int));
        r.string(option_text(mode.label(), chosen), option_look(mode == app.gpu.mode, chosen));
        r.text("  ", fnt());
        i += 1;
    }
    assert(variants@.take(i as int) =~= variants@);
    if app.focus == Focus::Content {
        r.text("← →", fnt());
    }
    r
}

/// What can be done with the mode, or what came of it.
fn action_line(app: &TuiApp) -> (r: Line)
    ensures
        r@ == mode_action(*app),
{
    match &app.status {
        Status::Empty => {
            let changed = app.gpu.pending_mode != app.gpu.mode;
            let mut r = Line::new();
            r.text("  [a/↵] apply  ", either(changed, g(), dim()));
            r.text("queued until shutdown", fnt());
            assert(r@ =~= mode_action(*app));
            r
        },
        s => status_line(s),
    }
}

/// The graphics tab.
pub fn render_gpu(app: &TuiApp, a: &GpuAreas) -> (r: Scene)
    requires
        a.rows@.len() == 2,
        a.mode@.len() == 6,
    ensures
        r@ == gpu_tab(*app, *a),
{
    let focused = app.focus == Focus::Content;
    let border = if focused {
        leaf()
    } else {
        edge()
    };
    let mut r = Scene::new();
    r.frame(a.rows[0], " graphics mode ", either(focused, g(), dim()), fg(border));
    let mut names = Line::new();
    add_name(&mut names, "  iGPU  ", &app.gpu.igpu_name);
    add_name(&mut names, "    dGPU  ", &app.gpu.dgpu_name);
    r.line(a.mode[0], names);
    if app.gpu.asus_wmi_available {
        let description = prefixed("  ", app.gpu.pending_mode.description());
        r.line(a.mode[1], mode_line(app));
        r.line(a.mode[2], line(description.as_str(), dim()));
        r.line(a.mode[4], action_line(app));
    } else {
        let mut missing = line("  ASUS GPU control not available  ", dng());
        missing.text("requires asus-nb-wmi kernel module", dim());
        assert(missing@ =~= seq![
            scene::words("  ASUS GPU control not available  "@, dng()),
            scene::words("requires asus-nb-wmi kernel module"@, dim()),
        ]);
        r.line(a.mode[1], missing);
    }
    assert(r@ =~= gpu_tab(*app, *a));
    r
}

} // verus!

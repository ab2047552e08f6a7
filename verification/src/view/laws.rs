//! What the screen shows, in every state of the panel.

use crate::app::{self, Action, Focus, Key, Status, TuiApp};
use crate::audio::{AudioDevice, AudioPort};
use crate::battery::BatteryInfo;
use crate::cpu::{CpuManager, PptKind};
use crate::gpu::GpuMode;
use crate::layout::{self, Area, Direction, Size};
use crate::number;
use crate::scene::{self, Figure};
use crate::system::{SystemInfo, ThermalZone};
use crate::text;
use crate::view;
use vstd::prelude::*;
use vstd::string::*;

verus! {

/// A line tells something under a name: the name, and right behind it the thing.
pub open spec fn tells(line: Seq<scene::SpanView>, name: scene::SpanView, what: scene::SpanView) -> bool {
    exists|i: int| 0 <= i && i + 1 < line.len() && #[trigger] line[i] == name && line[i + 1] == what
}

/// A thing is told under a name at a place of a line.
proof fn lemma_tells(line: Seq<scene::SpanView>, i: int)
    requires
        0 <= i,
        i + 1 < line.len(),
    ensures
        tells(line, line[i], line[i + 1]),
{
}

// ── Options ─────────────────────────────────────────────────────────────────

/// An option is put in brackets exactly where it is the chosen one. It stands out
/// in bold exactly where it is chosen, and in the accent exactly where it is in
/// use; one that is neither is dimmed.
pub proof fn law_option_marked(label: Seq<char>, in_use: bool, chosen: bool)
    ensures
        view::option_label(label, chosen).len() == label.len() + 2,
        view::option_label(label, chosen).subrange(1, label.len() as int + 1) == label,
        view::option_label(label, chosen)[0] == '[' <==> chosen,
        view::option_label(label, chosen).last() == ']' <==> chosen,
        view::option_style(in_use, chosen).bold <==> chosen,
        view::option_style(in_use, chosen).fg == scene::g().fg <==> in_use,
        !in_use && !chosen ==> view::option_style(in_use, chosen) == scene::dim(),
{
    reveal_strlit("[");
    reveal_strlit("]");
    reveal_strlit(" ");
    assert(view::option_label(label, chosen).subrange(1, label.len() as int + 1) =~= label);
}

/// What is said of the last thing done is shown with a mark: a success in the
/// accent, a failure in the colour of danger.
pub proof fn law_status_marked(status: Status, done: Seq<char>, failed: Seq<char>)
    ensures
        match status {
            Status::Success(m) => {
                &&& tells(
                    view::marked_status(status),
                    scene::words("  ✓  "@, scene::g()),
                    scene::words(m@, scene::g()),
                )
                &&& view::status_words(status, done, failed) == seq![
                    seq![scene::words(done + m@, scene::g())],
                ]
            },
            Status::Failure(m) => {
                &&& tells(
                    view::marked_status(status),
                    scene::words("  ✗  "@, scene::dng()),
                    scene::words(m@, scene::dng()),
                )
                &&& view::status_words(status, done, failed) == seq![
                    seq![scene::words(failed + m@, scene::dng())],
                ]
            },
            Status::Empty => view::marked_status(status).len() == 0 && view::status_words(
                status,
                done,
                failed,
            ).len() == 0,
        },
{
    match status {
        Status::Empty => {},
        _ => {
            lemma_tells(view::marked_status(status), 0);
        },
    }
}

// ── Bars ────────────────────────────────────────────────────────────────────

/// The title bar tells the charge: in the accent where power comes from outside,
/// and else in the colour of danger exactly below twenty percent.
pub proof fn law_title_charge(app: TuiApp)
    ensures
        ({
            let charge = view::bars::title_left(app)[2];
            let bat = app.battery.info;
            let plugged = bat.status.spec_plugged();
            &&& charge.before == "bat "@ + number::dec(bat.capacity as nat) + "%"@
            &&& plugged ==> charge.style.fg == scene::g().fg
            &&& !plugged && bat.capacity < 20 ==> charge.style.fg == scene::dng().fg
            &&& !plugged && bat.capacity >= 20 ==> charge.style.fg == scene::dim().fg
        }),
{
}

/// The title bar tells each temperature that is known, that of the processor
/// first, in red exactly from eighty degrees on for the processor and from eighty
/// five on for the graphics.
pub proof fn law_title_temperatures(app: TuiApp)
    ensures
        ({
            let line = view::bars::title_left(app);
            &&& app.system.cpu_temp matches Some(t) ==> {
                let s = line[4];
                &&& line.len() > 4
                &&& s.before == "cpu "@ && s.figure == Some(Figure::Thousandths(t))
                &&& s.style.fg == Some(scene::red()) <==> t >= 80_000
            }
            &&& app.system.gpu_temp matches Some(t) ==> {
                let s = line.last();
                &&& line.len() > 4
                &&& s.before == "gpu "@ && s.figure == Some(Figure::Thousandths(t))
                &&& s.style.fg == Some(scene::red()) <==> t >= 85_000
            }
            &&& line.len() == 3 + (if app.system.cpu_temp is Some {
                2int
            } else {
                0
            }) + (if app.system.gpu_temp is Some {
                2int
            } else {
                0
            })
        }),
{
}

/// On the right of the title bar stands `ac` exactly where mains power is
/// connected.
pub proof fn law_title_source(app: TuiApp, area: Area)
    ensures
        view::bars::title_bar(app, area).len() == 2,
        view::bars::title_bar(app, area)[1].widget matches scene::WidgetView::Text {
            lines,
            right,
            ..
        } && right && lines[0][0].before == (if app.system.ac_connected {
            "ac  "@
        } else {
            "bat  "@
        }),
{
}

/// The sidebar lists the six tabs by their names and marks the one that is
/// looked at; its border stands out where the keys go to it.
pub proof fn law_sidebar_marks_tab(app: TuiApp, area: Area)
    ensures
        view::bars::sidebar(app, area)[0].widget matches scene::WidgetView::List {
            items,
            border,
            chosen,
            chosen_mark,
            ..
        } && {
            &&& items.len() == 6
            &&& items[0].before == "  "@ + "battery"@
            &&& items[1].before == "  "@ + "system"@
            &&& items[2].before == "  "@ + "cpu"@
            &&& items[3].before == "  "@ + "gpu"@
            &&& items[4].before == "  "@ + "audio"@
            &&& items[5].before == "  "@ + "settings"@
            &&& chosen == app.active_tab
            &&& chosen_mark == "▶ "@
            &&& border.fg == Some(scene::grey(45)) <==> app.focus == Focus::Sidebar
        },
{
}

/// The bar at the bottom tells the keys of the tab that they go to.
pub proof fn law_hints_of_tab(focus: Focus, tab: usize)
    ensures
        ({
            let hints = view::bars::key_hints(tab, focus);
            &&& focus == Focus::Sidebar ==> hints
                == "  q quit   j/k navigate   ↵/→ select tab   tab→content   r refresh"@
            &&& focus == Focus::Content && tab == 0 ==> hints
                == "  q quit   tab→sidebar   ←→ limit   shift+←→ ±5   1/2/3 presets   a/↵ apply   s setup/persist   r refresh"@
            &&& focus == Focus::Content && tab == 1 ==> hints
                == "  q quit   tab→sidebar   r refresh"@
            &&& focus == Focus::Content && tab == 2 ==> hints
                == "  q quit   tab→sidebar   j/k navigate   ←→ adjust   space toggle   a/↵ apply   r refresh"@
            &&& focus == Focus::Content && tab == 3 ==> hints
                == "  q quit   tab→sidebar   ← → select mode   a/↵ apply   r refresh"@
            &&& focus == Focus::Content && tab == 4 ==> hints
                == "  q quit   tab output/input   j/k navigate   enter activate port   space mute   d default"@
            &&& focus == Focus::Content && tab == 5 ==> hints
                == "  q quit   tab→sidebar   j/k navigate   ←→ adjust   space/↵ toggle   r refresh"@
        }),
{
}

// ── Battery ─────────────────────────────────────────────────────────────────

/// The bar of the charge is red exactly where the battery holds less than twenty
/// percent and no power comes from outside; the one of the limit is in the accent
/// exactly where another limit is wanted than the one that is set.
pub proof fn law_battery_bars(app: TuiApp, e: view::Estimates, a: view::battery::BatteryAreas)
    ensures
        ({
            let bat = app.battery.info;
            let charge = view::battery::status_block(app, e, a)[1];
            let limit = view::battery::limit_block(app, a)[1];
            &&& charge.widget matches scene::WidgetView::Gauge { percent, style, label } && {
                &&& percent == bat.capacity
                &&& style.fg == Some(scene::red()) <==> bat.capacity < 20
                    && !bat.status.spec_plugged()
                &&& label.before == text::right_in(number::dec(bat.capacity as nat), 3) + "%  "@
                    + bat.status.spec_label()
            }
            &&& limit.widget matches scene::WidgetView::Gauge { percent, style, .. } && {
                &&& percent == app.desired_limit
                &&& style.fg == Some(scene::green()) <==> app.desired_limit != bat.charge_limit
            }
        }),
{
}

/// The status of the battery tells each figure that is known under its name, and
/// the time that is left or that charging takes where it is told.
pub proof fn law_battery_figures(bat: BatteryInfo, power_counts: bool)
    ensures
        ({
            let line = view::battery::stats(bat, power_counts);
            let figure = |f: Figure, unit: Seq<char>| scene::around(""@, f, unit, scene::txt());
            &&& bat.voltage matches Some(v) ==> tells(
                line,
                scene::words("voltage "@, scene::dim()),
                figure(Figure::Millionths(v), "V  "@),
            )
            &&& bat.current matches Some(c) ==> tells(
                line,
                scene::words("current "@, scene::dim()),
                figure(Figure::Magnitude(c), "A  "@),
            )
            &&& bat.power matches Some(p) ==> tells(
                line,
                scene::words("power "@, scene::dim()),
                figure(Figure::Power(p), "W  "@),
            )
            &&& bat.spec_remaining(power_counts) matches Some(h) ==> tells(
                line,
                scene::words(
                    if h is ToFull {
                        "to full "@
                    } else {
                        "remaining "@
                    },
                    scene::dim(),
                ),
                figure(Figure::Hours(h), "  "@),
            )
        }),
{
    let line = view::battery::stats(bat, power_counts);
    let a: int = if bat.voltage is Some {
        2
    } else {
        0
    };
    let b: int = a + if bat.current is Some {
        2int
    } else {
        0
    };
    let c: int = b + if bat.power is Some {
        2int
    } else {
        0
    };
    if bat.voltage is Some {
        lemma_tells(line, 0);
    }
    if bat.current is Some {
        lemma_tells(line, a);
    }
    if bat.power is Some {
        lemma_tells(line, b);
    }
    if bat.spec_remaining(power_counts) is Some {
        lemma_tells(line, c);
    }
}

/// The details of the battery tell its energy, its health, its cycles and its
/// kind where they are known, its name, and whether the limit persists.
pub proof fn law_battery_details(app: TuiApp, band: view::Band)
    ensures
        ({
            let bat = app.battery.info;
            let energy = view::battery::energy(bat, band);
            let device = view::battery::device(app);
            &&& bat.energy_now matches Some(n) ==> tells(
                energy,
                scene::words("energy now "@, scene::dim()),
                scene::around(""@, Figure::Millionths(n), "Wh  "@, scene::txt()),
            )
            &&& bat.energy_full matches Some(n) ==> tells(
                energy,
                scene::words("full "@, scene::dim()),
                scene::around(""@, Figure::Millionths(n), "Wh  "@, scene::txt()),
            )
            &&& bat.spec_health() matches Some(h) ==> tells(
                energy,
                scene::words("health "@, scene::dim()),
                scene::around(
                    ""@,
                    Figure::Health(h),
                    "%"@,
                    scene::fg(
                        match band {
                            view::Band::Good => scene::green(),
                            view::Band::Fair => scene::light(),
                            view::Band::Poor => scene::red(),
                        },
                    ),
                ),
            )
            &&& bat.cycle_count matches Some(c) ==> tells(
                device,
                scene::words("cycles "@, scene::dim()),
                scene::words(number::dec(c as nat) + "  "@, scene::txt()),
            )
            &&& bat.technology matches Some(t) ==> tells(
                device,
                scene::words("tech "@, scene::dim()),
                scene::words(t@ + "  "@, scene::txt()),
            )
            &&& tells(
                device,
                scene::words("device "@, scene::dim()),
                scene::words(app.battery.spec_name() + "  "@, scene::txt()),
            )
            &&& device.last().before == (if bat.persistent_enabled {
                "active"@
            } else {
                "not set"@
            })
        }),
{
    let bat = app.battery.info;
    let energy = view::battery::energy(bat, band);
    let device = view::battery::device(app);
    let a: int = if bat.energy_now is Some {
        2
    } else {
        0
    };
    let b: int = a + if bat.energy_full is Some {
        2int
    } else {
        0
    };
    if bat.energy_now is Some {
        lemma_tells(energy, 0);
    }
    if bat.energy_full is Some {
        lemma_tells(energy, a);
    }
    if bat.spec_health() is Some {
        lemma_tells(energy, b);
    }
    let c: int = if bat.cycle_count is Some {
        2
    } else {
        0
    };
    let d: int = c + if bat.technology is Some {
        2int
    } else {
        0
    };
    if bat.cycle_count is Some {
        lemma_tells(device, 0);
    }
    if bat.technology is Some {
        lemma_tells(device, c);
    }
    lemma_tells(device, d);
}

/// The keys 1 to 3 choose the first to the third preset that is shown, and a
/// preset is marked as chosen exactly where its limit is the wanted one.
pub proof fn law_presets_chosen_by_keys(a: TuiApp, shift: bool)
    ensures
        ({
            let after = |key: Key| view::battery::presets(
                app::battery_pressed(a, key, shift).0.desired_limit,
            );
            let now = view::battery::presets(a.desired_limit);
            &&& after(Key::Char('1'))[1].before == "["@ + (number::dec(60) + "%"@) + "]"@
            &&& after(Key::Char('2'))[3].before == "["@ + (number::dec(80) + "%"@) + "]"@
            &&& after(Key::Char('3'))[5].before == "["@ + (number::dec(100) + "%"@) + "]"@
            &&& now[1].before[0] == '[' <==> a.desired_limit == 60
            &&& now[3].before[0] == '[' <==> a.desired_limit == 80
            &&& now[5].before[0] == '[' <==> a.desired_limit == 100
        }),
{
    law_option_marked(number::dec(60) + "%"@, false, a.desired_limit == 60);
    law_option_marked(number::dec(80) + "%"@, false, a.desired_limit == 80);
    law_option_marked(number::dec(100) + "%"@, false, a.desired_limit == 100);
}

/// What is shown of the keys that set and store the limit is what they do: the
/// one that sets it stands out exactly where the wanted limit is not set yet, and
/// `s` is said to update the limit that is stored exactly where it does.
pub proof fn law_limit_keys_shown(a: TuiApp, shift: bool)
    requires
        a.status is Empty,
    ensures
        ({
            let line = view::battery::limit_action(a);
            let stored = app::battery_pressed(a, Key::Char('s'), shift).1;
            &&& line[0].style == scene::g() <==> a.desired_limit != a.battery.info.charge_limit
            &&& line[1].before == "[s] update persist"@ ==> stored == Action::UpdatePersistent(
                a.desired_limit,
            )
            &&& line[1].before == "[s] setup persist"@ ==> stored == Action::RunSetup(
                a.desired_limit,
            )
            &&& line[1].before == "[s] update persist"@ || line[1].before == "[s] setup persist"@
        }),
{
    reveal_strlit("[s] update persist");
    reveal_strlit("[s] setup persist");
    assert("[s] update persist"@[4] == 'u' && "[s] setup persist"@[4] == 's');
}

// ── Processor ───────────────────────────────────────────────────────────────

/// A row of the processor tab is marked exactly where the keys go to the content
/// and it is the row that is looked at: that of the governor, the energy
/// preference, the boost or one of the limits; the profile has a frame of its own,
/// whose border stands out.
pub proof fn law_cpu_row_marked(app: TuiApp, i: int)
    requires
        0 <= i < 6,
    ensures
        ({
            let focused = app.focus == Focus::Content;
            let at = app.cpu_section;
            let mark = scene::words("▶ "@, scene::g());
            &&& (view::cpu::governors(app.cpu, focused && at == 1)[0] == mark) == (focused && at == 1)
            &&& (view::cpu::preferences(app.cpu, focused && at == 2)[0] == mark) == (focused && at
                == 2)
            &&& (view::cpu::boost(app.cpu, focused && at == 3)[0] == mark) == (focused && at == 3)
            &&& (view::cpu::limit_rows(app)[i][0] == mark) == (focused && at == i + 4)
        }),
{
    reveal_strlit("▶ ");
    reveal_strlit("  ");
    assert("▶ "@[0] == '▶' && "  "@[0] == ' ');
}

/// The rows of the processor's frequency stand in order, and each is marked
/// where it is looked at.
pub proof fn law_cpu_rows_in_order(app: TuiApp, a: view::cpu::CpuAreas)
    ensures
        ({
            let focused = app.focus == Focus::Content;
            let block = view::cpu::frequency_block(app, a);
            &&& block.len() == 4
            &&& block[1] == scene::written(
                a.frequency@[0],
                seq![view::cpu::governors(app.cpu, focused && app.cpu_section == 1)],
            )
            &&& block[2] == scene::written(
                a.frequency@[1],
                seq![view::cpu::preferences(app.cpu, focused && app.cpu_section == 2)],
            )
            &&& block[3] == scene::written(
                a.frequency@[2],
                seq![view::cpu::boost(app.cpu, focused && app.cpu_section == 3)],
            )
            &&& app.cpu.asus_wmi_available ==> (view::cpu::profile_block(app, a)[0]
                == scene::framed(
                a.rows@[1],
                " thermal profile (bios) "@,
                scene::g(),
                scene::fg(scene::leaf()),
            )) == (focused && app.cpu_section == 0)
            &&& !app.cpu.asus_wmi_available ==> view::cpu::profile_block(app, a).len() == 0
                && view::cpu::limits_block(app, a).len() == 0
        }),
{
}

/// In the row of a limit stand its name, the value that is chosen and the one
/// that is set; it stands out exactly where they differ. The row shows the limit
/// that left and right change, and that `Enter` sets, while it is looked at.
pub proof fn law_limit_row_shows_limit(a: TuiApp, i: int)
    requires
        0 <= i < 6,
    ensures
        ({
            let kinds = seq![
                PptKind::ApuSppt,
                PptKind::Fppt,
                PptKind::Pl1Spl,
                PptKind::Pl2Sppt,
                PptKind::NvBoost,
                PptKind::NvTempTarget,
            ];
            let k = kinds[i];
            let row = view::cpu::limit_rows(a)[i];
            let chosen = a.cpu.pending_ppt.spec_get(k);
            let used = a.cpu.ppt.spec_get(k);
            &&& view::cpu::limit_rows(a).len() == 6
            &&& row[1].before == text::left_in(k.spec_label(), 22)
            &&& chosen matches Some(n) ==> row[2].before == text::right_in(
                number::dec(n as nat),
                4,
            ) + "W"@
            &&& used matches Some(n) ==> row[3].before == "  (current: "@ + number::dec(n as nat)
                + ")"@
            &&& used is None ==> row[3].before == "  (current: "@ + "-"@ + ")"@
            &&& row[1].style == scene::g() <==> chosen != used
            &&& a.cpu_section == i + 4 ==> app::cpu_pressed(a, Key::Enter).1 == Action::ApplyCpu(
                app::CpuSetting::Ppt(k),
            )
        }),
{
}

/// The temperature of the processor is red from eighty five degrees on and light
/// from seventy on; each fan that is known is told with its speed.
pub proof fn law_cpu_sensors(c: CpuManager)
    ensures
        ({
            let line = view::cpu::sensors(c);
            &&& c.cpu_temp matches Some(t) ==> {
                &&& line[0] == scene::words("cpu "@, scene::dim())
                &&& line[1].figure == Some(Figure::Thousandths(t))
                &&& line[1].style == scene::fg(
                    if t >= 85_000 {
                        scene::red()
                    } else if t >= 70_000 {
                        scene::light()
                    } else {
                        scene::white()
                    },
                )
            }
            &&& c.fan_cpu_rpm matches Some(n) ==> tells(
                line,
                scene::words("   cpu fan "@, scene::dim()),
                scene::words(number::dec(n as nat) + " RPM"@, scene::txt()),
            )
            &&& c.fan_gpu_rpm matches Some(n) ==> tells(
                line,
                scene::words("   gpu fan "@, scene::dim()),
                scene::words(number::dec(n as nat) + " RPM"@, scene::txt()),
            )
        }),
{
    let line = view::cpu::sensors(c);
    let a: int = if c.cpu_temp is Some {
        2
    } else {
        0
    };
    let b: int = a + if c.fan_cpu_rpm is Some {
        2int
    } else {
        0
    };
    if c.fan_cpu_rpm is Some {
        lemma_tells(line, a);
    }
    if c.fan_gpu_rpm is Some {
        lemma_tells(line, b);
    }
}

/// What is in use of the processor's settings is told: the boost, the governor
/// and, where there is one, the energy preference.
pub proof fn law_cpu_in_use(c: CpuManager)
    ensures
        ({
            let line = view::cpu::in_use(c);
            &&& line[1].before == (if c.boost_enabled {
                "on"@
            } else {
                "off"@
            })
            &&& line[1].style == scene::g() <==> c.boost_enabled
            &&& tells(
                line,
                scene::words("   governor "@, scene::dim()),
                scene::words(c.governor.current@, scene::txt()),
            )
            &&& c.epp.current@.len() > 0 ==> tells(
                line,
                scene::words("   epp "@, scene::dim()),
                scene::words(c.epp.current@, scene::txt()),
            )
            &&& c.epp.current@.len() == 0 ==> line.len() == 4
        }),
{
    let line = view::cpu::in_use(c);
    lemma_tells(line, 2);
    if c.epp.current@.len() > 0 {
        lemma_tells(line, 4);
    }
}

/// Of the profiles, the governors and the two states of the boost the chosen one
/// is put in brackets, and no other.
pub proof fn law_cpu_choice_marked(c: CpuManager, selected: bool, i: int)
    ensures
        ({
            let p = view::cpu::profiles(c);
            let g = view::cpu::governors(c, selected);
            &&& p[1].before == view::option_label("Silent"@, c.pending_thermal is Silent)
            &&& p[3].before == view::option_label("Balanced"@, c.pending_thermal is Balanced)
            &&& p[5].before == view::option_label("Turbo"@, c.pending_thermal is Turbo)
            &&& p[1].style == view::option_style(
                c.thermal_profile is Silent,
                c.pending_thermal is Silent,
            )
            &&& p[3].style == view::option_style(
                c.thermal_profile is Balanced,
                c.pending_thermal is Balanced,
            )
            &&& p[5].style == view::option_style(
                c.thermal_profile is Turbo,
                c.pending_thermal is Turbo,
            )
            &&& g.len() == 2 + c.governor.available@.len()
            &&& 0 <= i < c.governor.available@.len() ==> {
                let name = c.governor.available@[i]@;
                &&& g[i + 2].before == view::option_label(name, name == c.pending_governor@)
                &&& g[i + 2].style == view::option_style(
                    name == c.governor.current@,
                    name == c.pending_governor@,
                )
            }
            &&& view::cpu::boost(c, selected)[2].before == (if c.pending_boost {
                "[on]  off"@
            } else {
                " on  [off]"@
            })
            &&& view::cpu::preferences(c, selected)[2].before == c.pending_epp@
        }),
{
}

/// Below the settings stands what was last said, and else what the setting that
/// is looked at does.
pub proof fn law_cpu_row_described(app: TuiApp)
    ensures
        ({
            let at = app.cpu_section;
            let told = view::cpu::description(app);
            &&& at == 0 ==> told == app.cpu.pending_thermal.spec_description()
            &&& at == 1 ==> told
                == "CPU governor controls how the kernel scales frequency. Performance = max freq, Powersave = adaptive"@
            &&& at == 2 ==> told
                == "Energy Performance Preference hints the CPU how aggressively to boost"@
            &&& at == 3 ==> told
                == "Turbo boost allows CPU to exceed base clock. Disable to save power and reduce heat"@
            &&& at == 4 ==> told == PptKind::ApuSppt.spec_description()
            &&& at == 5 ==> told == PptKind::Fppt.spec_description()
            &&& at == 6 ==> told == PptKind::Pl1Spl.spec_description()
            &&& at == 7 ==> told == PptKind::Pl2Sppt.spec_description()
            &&& at == 8 ==> told == PptKind::NvBoost.spec_description()
            &&& at == 9 ==> told == PptKind::NvTempTarget.spec_description()
            &&& app.status matches Status::Success(m) ==> view::cpu::description_lines(app)
                == seq![seq![scene::words("  ✓  "@ + m@, scene::g())]]
            &&& app.status matches Status::Failure(m) ==> view::cpu::description_lines(app)
                == seq![seq![scene::words("  ✗  "@ + m@, scene::dng())]]
            &&& app.status is Empty && told.len() > 0 ==> view::cpu::description_lines(app)
                == seq![seq![scene::words("  "@ + told, scene::dim())]]
        }),
{
}

// ── Graphics ────────────────────────────────────────────────────────────────

/// The modes that can be chosen are offered in order, the chosen one in
/// brackets; the key that stores it stands out exactly where it is not the mode
/// in use.
pub proof fn law_gpu_modes_offered(app: TuiApp)
    ensures
        ({
            let line = view::gpu::modes(app);
            let m = app.gpu.pending_mode;
            let u = app.gpu.mode;
            &&& line[1].before == view::option_label("Integrated"@, m is Integrated)
            &&& line[1].style == view::option_style(u is Integrated, m is Integrated)
            &&& line[3].before == view::option_label("Hybrid"@, m is Hybrid)
            &&& line[3].style == view::option_style(u is Hybrid, m is Hybrid)
            &&& app.gpu.has_mux ==> line[5].before == view::option_label("Ultimate"@, m is Ultimate)
                && line[5].style == view::option_style(u is Ultimate, m is Ultimate)
            &&& app.status is Empty ==> (view::gpu::mode_action(app)[0].style == scene::g() <==> m
                != u)
            &&& !(app.status is Empty) ==> view::gpu::mode_action(app) == view::marked_status(
                app.status,
            )
        }),
{
    reveal_with_fuel(view::gpu::mode_options, 4);
    let two = seq![GpuMode::Integrated, GpuMode::Hybrid];
    let three = seq![GpuMode::Integrated, GpuMode::Hybrid, GpuMode::Ultimate];
    let one = seq![GpuMode::Integrated];
    let none = Seq::<GpuMode>::empty();
    assert(one.drop_last() =~= none);
    assert(two.drop_last() =~= one);
    assert(three.drop_last() =~= two);
    let s0 = view::gpu::mode_options(app.gpu, none);
    let s1 = view::gpu::mode_options(app.gpu, one);
    let s2 = view::gpu::mode_options(app.gpu, two);
    assert(s0.len() == 1);
    assert(s1.len() == 3);
    assert(s2.len() == 5);
}

/// The names of the adapters that are known are told, each under its own label.
pub proof fn law_gpu_names_told(app: TuiApp, a: view::gpu::GpuAreas)
    ensures
        view::gpu::gpu_tab(app, a)[1].widget matches scene::WidgetView::Text { lines, .. } && {
            &&& app.gpu.igpu_name matches Some(n) ==> tells(
                lines[0],
                scene::words("  iGPU  "@, scene::fnt()),
                scene::words(n@, scene::dim()),
            )
            &&& app.gpu.dgpu_name matches Some(n) ==> tells(
                lines[0],
                scene::words("    dGPU  "@, scene::fnt()),
                scene::words(n@, scene::dim()),
            )
            &&& app.gpu.igpu_name is None && app.gpu.dgpu_name is None ==> lines[0].len() == 0
        },
{
    let line = view::gpu::with_name(
        view::gpu::with_name(seq![], "  iGPU  "@, app.gpu.igpu_name),
        "    dGPU  "@,
        app.gpu.dgpu_name,
    );
    if app.gpu.igpu_name is Some {
        lemma_tells(line, 0);
    }
    if app.gpu.dgpu_name is Some {
        lemma_tells(line, line.len() - 2);
    }
}

// ── Audio ───────────────────────────────────────────────────────────────────

/// The row of a device tells its name and volume, that it is muted exactly where
/// it is, and bears a star exactly where it is the default.
pub proof fn law_device_row(d: AudioDevice, selected: bool)
    ensures
        ({
            let row = view::audio::device_row(d, selected);
            &&& row.len() == 5
            &&& (row[1].before == "* "@) == d.is_default
            &&& row[2].before == text::left_in(d.display_name@, 30)
            &&& row[3].before == text::right_in(number::dec(d.volume as nat), 4) + "%"@
            &&& row[3].style == scene::dng() <==> d.muted
            &&& (row[4].before == " [MUTED]"@) == d.muted
        }),
{
    reveal_strlit("* ");
    reveal_strlit("  ");
    reveal_strlit(" [MUTED]");
    reveal_strlit("");
    assert("* "@[0] == '*' && "  "@[0] == ' ');
    assert(" [MUTED]"@.len() == 8 && ""@.len() == 0);
}

/// The row of a port tells its name and that it is in use, exactly where it is,
/// or else that it is not available, exactly where it is not.
pub proof fn law_port_row(p: AudioPort, selected: bool)
    ensures
        ({
            let row = view::audio::port_row(p, selected);
            &&& row.len() == 4
            &&& row[2].before == p.display_name@
            &&& (row[1].before == "  * "@) == p.is_active
            &&& (row[3].before == "  (active)"@) == p.is_active
            &&& (row[3].before == "  (unavailable)"@) == (!p.is_active && !p.available)
            &&& row[2].style == scene::g() <==> p.is_active
        }),
{
    reveal_strlit("  * ");
    reveal_strlit("    ");
    reveal_strlit("  (active)");
    reveal_strlit("  (unavailable)");
    reveal_strlit("");
    assert("  * "@[2] == '*' && "    "@[2] == ' ');
    assert("  (active)"@.len() == 10 && "  (unavailable)"@.len() == 15 && ""@.len() == 0);
}

/// The outputs stand in the upper frame and the inputs in the lower one; only
/// the frame of the section that is looked at stands out, while the keys go to
/// it, and only in it a row is marked.
pub proof fn law_audio_sections(app: TuiApp, a: view::audio::AudioAreas)
    ensures
        ({
            let tab = view::audio::audio_tab(app, a);
            let focused = app.focus == Focus::Content;
            let out = focused && app.audio.section == 0;
            let inp = focused && app.audio.section == 1;
            &&& tab.len() == 6
            &&& (tab[0] == scene::framed(
                a.rows@[0],
                " output (speakers / headphones) "@,
                scene::g(),
                scene::fg(scene::leaf()),
            )) == out
            &&& (tab[2] == scene::framed(
                a.rows@[1],
                " input (microphones) "@,
                scene::g(),
                scene::fg(scene::leaf()),
            )) == inp
            &&& app.audio.sinks@.len() > 0 && app.audio.section == 0 ==> tab[1].widget
                == scene::written(
                a.rows@[0],
                view::audio::device_rows(app.audio.sinks@, out, app.audio.cursor),
            ).widget
            &&& app.audio.sources@.len() > 0 && app.audio.section == 1 ==> tab[3].widget
                == scene::written(
                a.rows@[1],
                view::audio::device_rows(app.audio.sources@, inp, app.audio.cursor),
            ).widget
            &&& app.audio.sinks@.len() == 0 ==> tab[1].widget == scene::written(
                a.rows@[0],
                seq![seq![scene::words("  no output devices found"@, scene::fnt())]],
            ).widget
            &&& app.audio.sources@.len() == 0 ==> tab[3].widget == scene::written(
                a.rows@[1],
                seq![seq![scene::words("  no input devices found"@, scene::fnt())]],
            ).widget
        }),
{
}

/// Below the devices stand the section that is looked at and what was last said;
/// else the keys.
pub proof fn law_audio_hints(app: TuiApp)
    ensures
        ({
            let lines = view::audio::hint_lines(app);
            &&& lines[0][0].before == "  section: "@ + (if app.audio.section == 0 {
                "output"@
            } else {
                "input"@
            }) + "  -  tab to switch"@
            &&& app.status is Empty ==> lines[2][0].before
                == "  j/k navigate   enter activate port   space mute   d default"@
            &&& app.status matches Status::Success(m) ==> lines[2][0] == scene::words(
                "  check "@ + m@,
                scene::g(),
            )
            &&& app.status matches Status::Failure(m) ==> lines[2][0] == scene::words(
                "  x  "@ + m@,
                scene::dng(),
            )
        }),
{
}

// ── Settings ────────────────────────────────────────────────────────────────

/// Each setting is shown with its value in a row of its own, and the row that is
/// looked at is marked, while the keys go to it.
pub proof fn law_settings_shown(app: TuiApp)
    ensures
        ({
            let rows = view::settings::setting_rows(app);
            let focused = app.focus == Focus::Content;
            let mark = scene::words("▶ "@, scene::g());
            &&& rows[0][2].before == text::left_in(
                number::dec(app.config.charge_limit as nat) + "%"@,
                16,
            )
            &&& rows[2][2].before == text::left_in(
                if app.config.auto_apply_on_start {
                    "on"@
                } else {
                    "off"@
                },
                16,
            )
            &&& rows[4][2].before == text::left_in(
                number::dec(app.config.refresh_secs as nat) + "s"@,
                16,
            )
            &&& rows[6][2].before == text::left_in(
                if app.battery.info.persistent_enabled {
                    "configured"@
                } else {
                    "not configured"@
                },
                16,
            )
            &&& rows[0][1].before == text::left_in("default charge limit"@, 30)
            &&& rows[2][1].before == text::left_in("apply on startup"@, 30)
            &&& rows[4][1].before == text::left_in("refresh interval"@, 30)
            &&& rows[6][1].before == text::left_in("persistence setup"@, 30)
            &&& (rows[0][0] == mark) == (focused && app.settings_cursor == 0)
            &&& (rows[2][0] == mark) == (focused && app.settings_cursor == 1)
            &&& (rows[4][0] == mark) == (focused && app.settings_cursor == 2)
            &&& (rows[6][0] == mark) == (focused && app.settings_cursor == 3)
        }),
{
    reveal_strlit("▶ ");
    reveal_strlit("  ");
    assert("▶ "@[0] == '▶' && "  "@[0] == ' ');
}

// ── System ──────────────────────────────────────────────────────────────────

/// The processor's and the graphics' temperature are told where they are known,
/// in red exactly from eighty and from eighty five degrees on; a zone is red from
/// eighty degrees on and light from sixty five on.
pub proof fn law_system_temperatures(sys: SystemInfo, z: ThermalZone, a: view::system::SystemAreas)
    ensures
        ({
            let block = view::system::processor_block(sys, a);
            let line = view::system::with_temp(
                view::system::with_temp(seq![], "cpu "@, sys.cpu_temp, 80_000),
                "   gpu "@,
                sys.gpu_temp,
                85_000,
            );
            let zone = view::system::zone_line(z);
            &&& block.last() == scene::written(a.processor@[2], seq![line])
            &&& sys.cpu_temp matches Some(t) ==> {
                &&& line[0] == scene::words("cpu "@, scene::dim())
                &&& line[1].figure == Some(Figure::Thousandths(t))
                &&& line[1].style.fg == Some(scene::red()) <==> t >= 80_000
            }
            &&& sys.gpu_temp matches Some(t) ==> {
                &&& line[line.len() - 2] == scene::words("   gpu "@, scene::dim())
                &&& line.last().figure == Some(Figure::Thousandths(t))
                &&& line.last().style.fg == Some(scene::red()) <==> t >= 85_000
            }
            &&& zone[0].before == text::left_in(z.name@, 22)
            &&& zone[1].figure == Some(Figure::ThousandthsTo1(z.temp))
            &&& zone[1].style == scene::fg(
                if z.temp >= 80_000 {
                    scene::red()
                } else if z.temp >= 65_000 {
                    scene::light()
                } else {
                    scene::white()
                },
            )
        }),
{
}

/// The zones fill two columns, the left one first: it holds as many as the right
/// one or one more, and together they hold every zone once, in order.
pub proof fn law_zones_in_columns(sys: SystemInfo, a: view::system::SystemAreas)
    requires
        sys.thermal_zones@.len() > 1,
    ensures
        ({
            let zones = sys.thermal_zones@;
            let block = view::system::zones_block(sys, a);
            &&& block.len() == 3
            &&& block[1].area == a.zones@[0]
            &&& block[2].area == a.zones@[1]
            &&& block[1].widget matches scene::WidgetView::Text { lines: left, .. }
            &&& block[2].widget matches scene::WidgetView::Text { lines: right, .. }
            &&& left.len() == right.len() || left.len() == right.len() + 1
            &&& left.len() + right.len() == zones.len()
            &&& forall|i: int|
                0 <= i < zones.len() ==> (left + right)[i] == view::system::zone_line(
                    #[trigger] zones[i],
                )
        }),
{
    let zones = sys.thermal_zones@;
    let half = (zones.len() + 1) as int / 2;
    let left = view::system::zone_lines(zones.take(half));
    let right = view::system::zone_lines(zones.skip(half));
    assert forall|i: int| 0 <= i < zones.len() implies (left + right)[i]
        == view::system::zone_line(#[trigger] zones[i]) by {
        if i < half {
            assert(zones.take(half)[i] == zones[i]);
        } else {
            assert(zones.skip(half)[i - half] == zones[i]);
        }
    }
}

/// The memory is told in megabytes, each figure under its own name; the share in
/// use is told where it can be computed, from the total and what is available.
pub proof fn law_memory_told(sys: SystemInfo, used: u64, available: u64, total: u64)
    ensures
        ({
            let line = view::system::memory_line(used, available, total);
            &&& tells(
                line,
                scene::words("used "@, scene::dim()),
                scene::words(number::dec(used as nat) + " MB  "@, scene::txt()),
            )
            &&& tells(
                line,
                scene::words("available "@, scene::dim()),
                scene::words(number::dec(available as nat) + " MB  "@, scene::txt()),
            )
            &&& tells(
                line,
                scene::words("total "@, scene::dim()),
                scene::words(number::dec(total as nat) + " MB"@, scene::txt()),
            )
            &&& view::system::memory_share(sys) matches Some(s) ==> sys.mem_total_mb == Some(
                s.total_mb,
            ) && sys.mem_available_mb == Some(s.available_mb) && s.total_mb > 0
            &&& view::system::memory_share(sys) is None ==> sys.mem_total_mb is None
                || sys.mem_available_mb is None || sys.mem_total_mb == Some(0u64)
        }),
{
    let line = view::system::memory_line(used, available, total);
    lemma_tells(line, 0);
    lemma_tells(line, 2);
    lemma_tells(line, 4);
}

// ── Areas ───────────────────────────────────────────────────────────────────

/// In the battery tab the status takes five rows, the limit eight and the details
/// five, one after the other from the top; their lines stand within their
/// borders, one below the other.
pub proof fn law_battery_rows(area: Area, a: view::battery::BatteryAreas)
    requires
        view::battery::are_areas(area, a),
        area.height >= 18,
        area.width >= 2,
        area.x + area.width <= u16::MAX,
        area.y + area.height <= u16::MAX,
    ensures
        a.rows@[0] == (Area { y: area.y, height: 5, ..area }),
        a.rows@[1] == (Area { y: (area.y + 5) as u16, height: 8, ..area }),
        a.rows@[2] == (Area { y: (area.y + 13) as u16, height: 5, ..area }),
        a.rows@[3] == (Area {
            y: (area.y + 18) as u16,
            height: (area.height - 18) as u16,
            ..area
        }),
        forall|i: int|
            0 <= i < 3 ==> (#[trigger] a.status@[i]) == (Area {
                x: (area.x + 1) as u16,
                y: (area.y + 1 + i) as u16,
                width: (area.width - 2) as u16,
                height: 1,
            }),
        forall|i: int|
            0 <= i < 5 ==> (#[trigger] a.limit@[i]) == (Area {
                x: (area.x + 1) as u16,
                y: (area.y + 6 + i) as u16,
                width: (area.width - 2) as u16,
                height: 1,
            }),
        forall|i: int|
            0 <= i < 2 ==> (#[trigger] a.details@[i]) == (Area {
                x: (area.x + 1) as u16,
                y: (area.y + 14 + i) as u16,
                width: (area.width - 2) as u16,
                height: 1,
            }),
{
    reveal_with_fuel(layout::taken, 7);
    let sizes = seq![Size::Length(5), Size::Length(8), Size::Length(5), Size::Fill(1)];
    assert(layout::fits(area, Direction::Vertical, sizes));
    let one = Size::Length(1);
    let status = seq![one, one, one];
    assert(layout::fits(layout::within(a.rows@[0]), Direction::Vertical, status));
    let limit = seq![one, one, one, one, one, Size::Fill(1)];
    assert(layout::fits(layout::within(a.rows@[1]), Direction::Vertical, limit));
    let details = seq![one, one];
    assert(layout::fits(layout::within(a.rows@[2]), Direction::Vertical, details));
}

/// In the processor tab the status takes five rows, the profile seven, the
/// frequency six and the limits nine, one after the other from the top; their
/// lines stand within their borders, one below the other.
pub proof fn law_cpu_rows(area: Area, a: view::cpu::CpuAreas)
    requires
        view::cpu::are_areas(area, a),
        area.height >= 27,
        area.width >= 2,
        area.x + area.width <= u16::MAX,
        area.y + area.height <= u16::MAX,
    ensures
        a.rows@[0] == (Area { y: area.y, height: 5, ..area }),
        a.rows@[1] == (Area { y: (area.y + 5) as u16, height: 7, ..area }),
        a.rows@[2] == (Area { y: (area.y + 12) as u16, height: 6, ..area }),
        a.rows@[3] == (Area { y: (area.y + 18) as u16, height: 9, ..area }),
        a.rows@[4] == (Area {
            y: (area.y + 27) as u16,
            height: (area.height - 27) as u16,
            ..area
        }),
        forall|i: int|
            0 <= i < 2 ==> (#[trigger] a.status@[i]) == (Area {
                x: (area.x + 1) as u16,
                y: (area.y + 1 + i) as u16,
                width: (area.width - 2) as u16,
                height: 1,
            }),
        forall|i: int|
            0 <= i < 4 ==> (#[trigger] a.profile@[i]) == (Area {
                x: (area.x + 1) as u16,
                y: (area.y + 6 + i) as u16,
                width: (area.width - 2) as u16,
                height: 1,
            }),
        forall|i: int|
            0 <= i < 3 ==> (#[trigger] a.frequency@[i]) == (Area {
                x: (area.x + 1) as u16,
                y: (area.y + 13 + i) as u16,
                width: (area.width - 2) as u16,
                height: 1,
            }),
{
    reveal_with_fuel(layout::taken, 6);
    let sizes = seq![Size::Length(5), Size::Length(7), Size::Length(6), Size::Length(9), Size::Fill(1)];
    assert(layout::fits(area, Direction::Vertical, sizes));
    let one = Size::Length(1);
    let status = seq![one, one];
    assert(layout::fits(layout::within(a.rows@[0]), Direction::Vertical, status));
    let profile = seq![one, one, one, one];
    assert(layout::fits(layout::within(a.rows@[1]), Direction::Vertical, profile));
    let frequency = seq![one, one, one];
    assert(layout::fits(layout::within(a.rows@[2]), Direction::Vertical, frequency));
}

/// In the graphics tab the mode takes seven rows at the top; its lines stand
/// within its border, one below the other.
pub proof fn law_gpu_rows(area: Area, a: view::gpu::GpuAreas)
    requires
        view::gpu::are_areas(area, a),
        area.height >= 7,
        area.width >= 2,
        area.x + area.width <= u16::MAX,
        area.y + area.height <= u16::MAX,
    ensures
        a.rows@[0] == (Area { y: area.y, height: 7, ..area }),
        a.rows@[1] == (Area {
            y: (area.y + 7) as u16,
            height: (area.height - 7) as u16,
            ..area
        }),
        forall|i: int|
            0 <= i < 5 ==> (#[trigger] a.mode@[i]) == (Area {
                x: (area.x + 1) as u16,
                y: (area.y + 1 + i) as u16,
                width: (area.width - 2) as u16,
                height: 1,
            }),
{
    reveal_with_fuel(layout::taken, 7);
    let sizes = seq![Size::Length(7), Size::Fill(1)];
    assert(layout::fits(area, Direction::Vertical, sizes));
    let one = Size::Length(1);
    let mode = seq![one, one, one, one, one, Size::Fill(1)];
    assert(layout::fits(layout::within(a.rows@[0]), Direction::Vertical, mode));
}

/// In the audio tab the outputs take ten rows at the top and the inputs ten below
/// them.
pub proof fn law_audio_rows(area: Area, a: view::audio::AudioAreas)
    requires
        view::audio::are_areas(area, a),
        area.height >= 20,
        area.width >= 2,
        area.x + area.width <= u16::MAX,
        area.y + area.height <= u16::MAX,
    ensures
        a.rows@[0] == (Area { y: area.y, height: 10, ..area }),
        a.rows@[1] == (Area { y: (area.y + 10) as u16, height: 10, ..area }),
        a.rows@[2] == (Area {
            y: (area.y + 20) as u16,
            height: (area.height - 20) as u16,
            ..area
        }),
{
    reveal_with_fuel(layout::taken, 4);
    let sizes = seq![Size::Length(10), Size::Length(10), Size::Fill(1)];
    assert(layout::fits(area, Direction::Vertical, sizes));
}

/// In the system tab the processor takes five rows at the top and the memory five
/// below it; their lines stand within their borders, one below the other.
pub proof fn law_system_rows(area: Area, a: view::system::SystemAreas)
    requires
        view::system::are_areas(area, a),
        area.height >= 10,
        area.width >= 2,
        area.x + area.width <= u16::MAX,
        area.y + area.height <= u16::MAX,
    ensures
        a.rows@[0] == (Area { y: area.y, height: 5, ..area }),
        a.rows@[1] == (Area { y: (area.y + 5) as u16, height: 5, ..area }),
        a.rows@[2] == (Area {
            y: (area.y + 10) as u16,
            height: (area.height - 10) as u16,
            ..area
        }),
        forall|i: int|
            0 <= i < 3 ==> (#[trigger] a.processor@[i]) == (Area {
                x: (area.x + 1) as u16,
                y: (area.y + 1 + i) as u16,
                width: (area.width - 2) as u16,
                height: 1,
            }),
        forall|i: int|
            0 <= i < 3 ==> (#[trigger] a.memory@[i]) == (Area {
                x: (area.x + 1) as u16,
                y: (area.y + 6 + i) as u16,
                width: (area.width - 2) as u16,
                height: 1,
            }),
{
    reveal_with_fuel(layout::taken, 4);
    let sizes = seq![Size::Length(5), Size::Length(5), Size::Fill(1)];
    assert(layout::fits(area, Direction::Vertical, sizes));
    let one = Size::Length(1);
    let processor = seq![one, one, one];
    assert(layout::fits(layout::within(a.rows@[0]), Direction::Vertical, processor));
    let memory = seq![one, one, one];
    assert(layout::fits(layout::within(a.rows@[1]), Direction::Vertical, memory));
}


/// What the battery tab shows stands in its place: each line of a block within
/// the frame of the block.
pub proof fn law_battery_tab_placed(
    app: TuiApp,
    e: view::Estimates,
    a: view::battery::BatteryAreas,
)
    ensures
        ({
            let tab = view::battery::battery_tab(app, e, a);
            &&& tab.len() == 10
            &&& tab[0].area == a.rows@[0]
            &&& tab[1].area == a.status@[0]
            &&& tab[2] == scene::written(
                a.status@[2],
                seq![view::battery::stats(app.battery.info, e.power_counts)],
            )
            &&& tab[3].area == a.rows@[1]
            &&& tab[4].area == a.limit@[0]
            &&& tab[5] == scene::written(
                a.limit@[2],
                seq![view::battery::presets(app.desired_limit)],
            )
            &&& tab[6] == scene::written(a.limit@[4], seq![view::battery::limit_action(app)])
            &&& tab[7] == scene::framed(
                a.rows@[2],
                " details "@,
                scene::fnt(),
                scene::line_border(),
            )
            &&& tab[8] == scene::written(
                a.details@[0],
                seq![view::battery::energy(app.battery.info, e.health)],
            )
            &&& tab[9] == scene::written(a.details@[1], seq![view::battery::device(app)])
        }),
{
}

/// What the processor tab shows stands in its place; the profile and the limits
/// only where the firmware has them.
pub proof fn law_cpu_tab_placed(app: TuiApp, a: view::cpu::CpuAreas)
    ensures
        ({
            let tab = view::cpu::cpu_tab(app, a);
            let n = tab.len() as int;
            &&& n == (if app.cpu.asus_wmi_available {
                15int
            } else {
                9
            })
            &&& tab[0].area == a.rows@[0]
            &&& tab[1] == scene::written(a.status@[0], seq![view::cpu::sensors(app.cpu)])
            &&& tab[2] == scene::written(a.status@[1], seq![view::cpu::in_use(app.cpu)])
            &&& app.cpu.asus_wmi_available ==> {
                &&& tab[3].area == a.rows@[1]
                &&& tab[4] == scene::written(a.profile@[0], seq![view::cpu::profiles(app.cpu)])
                &&& tab[5] == scene::written(
                    a.profile@[1],
                    seq![
                        seq![
                            scene::words(
                                "  "@ + app.cpu.pending_thermal.spec_description(),
                                scene::dim(),
                            ),
                        ],
                    ],
                )
                &&& tab[7].area == a.rows@[2]
                &&& tab[11].area == a.rows@[3]
                &&& tab[12] == scene::written(
                    layout::within(a.rows@[3]),
                    view::cpu::limit_rows(app),
                )
            }
            &&& !app.cpu.asus_wmi_available ==> tab[3].area == a.rows@[2]
            &&& tab[n - 2] == scene::boxed(a.rows@[4], scene::line_border())
            &&& tab[n - 1] == scene::written(
                layout::within(a.rows@[4]),
                view::cpu::description_lines(app),
            )
        }),
{
}

/// What the graphics tab shows stands in its place; without the firmware it says
/// what is missing in place of the modes.
pub proof fn law_gpu_tab_placed(app: TuiApp, a: view::gpu::GpuAreas)
    ensures
        ({
            let tab = view::gpu::gpu_tab(app, a);
            &&& tab[0].area == a.rows@[0]
            &&& tab[1].area == a.mode@[0]
            &&& app.gpu.asus_wmi_available ==> {
                &&& tab.len() == 5
                &&& tab[2] == scene::written(a.mode@[1], seq![view::gpu::modes(app)])
                &&& tab[3] == scene::written(
                    a.mode@[2],
                    seq![
                        seq![
                            scene::words(
                                "  "@ + app.gpu.pending_mode.spec_description(),
                                scene::dim(),
                            ),
                        ],
                    ],
                )
                &&& tab[4] == scene::written(a.mode@[4], seq![view::gpu::mode_action(app)])
            }
            &&& !app.gpu.asus_wmi_available ==> tab.len() == 3 && tab[2] == scene::written(
                a.mode@[1],
                seq![
                    seq![
                        scene::words("  ASUS GPU control not available  "@, scene::dng()),
                        scene::words("requires asus-nb-wmi kernel module"@, scene::dim()),
                    ],
                ],
            )
        }),
{
}

/// The settings stand below the names of their columns, and what was last said
/// below them.
pub proof fn law_settings_tab_placed(app: TuiApp, a: view::settings::SettingsAreas)
    ensures
        ({
            let tab = view::settings::settings_tab(app, a);
            &&& tab.len() == 3
            &&& tab[0].area == a.all
            &&& tab[1] == scene::written(a.rows@[0], seq![view::settings::columns()])
            &&& tab[2].area == a.rows@[2]
            &&& tab[2].widget matches scene::WidgetView::Text { lines, .. } && {
                &&& lines.take(8) == view::settings::setting_rows(app)
                &&& app.status matches Status::Success(m) ==> lines.last() == seq![
                    scene::words("  ✓  "@ + m@, scene::g()),
                ]
                &&& app.status matches Status::Failure(m) ==> lines.last() == seq![
                    scene::words("  ✗  "@ + m@, scene::dng()),
                ]
                &&& app.status is Empty ==> lines.len() == 8
            }
        }),
{
    let rows = view::settings::setting_rows(app);
    let lines = rows + view::status_words(app.status, "  ✓  "@, "  ✗  "@);
    assert(lines.take(8) =~= rows);
}

/// The model of the processor is shown as far as there is room for it, and the
/// memory with a bar and its figures, or as unavailable where any is unknown.
pub proof fn law_system_tab_placed(
    sys: SystemInfo,
    e: view::Estimates,
    a: view::system::SystemAreas,
)
    ensures
        ({
            let processor = view::system::processor_block(sys, a);
            let memory = view::system::memory_block(sys, e, a);
            &&& view::system::system_tab(sys, e, a) == processor + memory
                + view::system::zones_block(sys, a)
            &&& processor[0].area == a.rows@[0]
            &&& memory[0].area == a.rows@[1]
            &&& sys.cpu_model matches Some(m) ==> {
                &&& processor[1].area == a.processor@[0]
                &&& processor[1].widget matches scene::WidgetView::Text { lines, .. } && {
                    let shown = lines[0][0].before;
                    &&& shown.len() <= m@.len()
                    &&& shown == m@.take(shown.len() as int)
                    &&& layout::within(a.rows@[0]).width >= m@.len() + 2 ==> shown == m@
                    &&& shown.len() + 2 <= layout::within(a.rows@[0]).width || shown.len() == 0
                }
            }
            &&& sys.mem_total_mb is None || sys.mem_used_mb is None || sys.mem_available_mb is None
                ==> memory[1] == scene::written(
                layout::within(a.rows@[1]),
                seq![seq![scene::words("unavailable"@, scene::dim())]],
            )
            &&& sys.mem_total_mb matches Some(total) ==> (sys.mem_used_mb matches Some(used) ==> (
            sys.mem_available_mb matches Some(available) ==> {
                &&& memory[1].area == a.memory@[0]
                &&& memory[1].widget matches scene::WidgetView::Gauge { percent, style, label } && {
                    &&& total > 0 ==> percent == e.memory_percent
                    &&& total == 0 ==> percent == 0
                    &&& style.fg == Some(scene::red()) <==> total > 0 && e.memory_high
                    &&& label.after == "%  ("@ + number::dec(used as nat) + " / "@ + number::dec(
                        total as nat,
                    ) + " MB)"@ || total == 0
                }
                &&& memory[2] == scene::written(
                    a.memory@[2],
                    seq![view::system::memory_line(used, available, total)],
                )
            }))
        }),
{
    if sys.cpu_model is Some {
        let m = sys.cpu_model->0@;
        assert(m.take(m.len() as int) =~= m);
    }
}

/// The bar at the bottom shows the keys of the tab that they go to, in one line.
pub proof fn law_status_bar(app: TuiApp, area: Area)
    ensures
        ({
            let bar = view::bars::status_bar(app, area);
            &&& bar.len() == 1
            &&& bar[0].area == area
            &&& bar[0].widget matches scene::WidgetView::Text { lines, .. } && lines == seq![
                seq![
                    scene::words(
                        view::bars::key_hints(app.active_tab, app.focus),
                        scene::fnt(),
                    ),
                ],
            ]
        }),
{
}

/// The screen shows the title bar at the top, the bar of the keys at the bottom,
/// the sidebar on the left and beside it the tab that is open.
pub proof fn law_screen_shown(
    app: TuiApp,
    e: view::Estimates,
    a: view::ScreenAreas,
    shown: Seq<scene::PlacedView>,
)
    requires
        view::is_screen(app, e, a, shown),
    ensures
        shown.len() >= 4,
        shown[0] == view::bars::title_bar(app, a.rows@[0])[0],
        shown[1] == view::bars::title_bar(app, a.rows@[0])[1],
        shown[2] == view::bars::status_bar(app, a.rows@[2])[0],
        shown[3] == view::bars::sidebar(app, a.columns@[0])[0],
        app.active_tab == 0 ==> exists|b: view::battery::BatteryAreas| #[trigger]
            view::battery::are_areas(a.columns@[1], b) && shown.skip(4)
                == view::battery::battery_tab(app, e, b),
        app.active_tab == 1 ==> exists|b: view::system::SystemAreas| #[trigger]
            view::system::are_areas(a.columns@[1], b) && shown.skip(4) == view::system::system_tab(
                app.system,
                e,
                b,
            ),
        app.active_tab == 2 ==> exists|b: view::cpu::CpuAreas| #[trigger]
            view::cpu::are_areas(a.columns@[1], b) && shown.skip(4) == view::cpu::cpu_tab(app, b),
        app.active_tab == 3 ==> exists|b: view::gpu::GpuAreas| #[trigger]
            view::gpu::are_areas(a.columns@[1], b) && shown.skip(4) == view::gpu::gpu_tab(app, b),
        app.active_tab == 4 ==> exists|b: view::audio::AudioAreas| #[trigger]
            view::audio::are_areas(a.columns@[1], b) && shown.skip(4) == view::audio::audio_tab(
                app,
                b,
            ),
        app.active_tab == 5 ==> exists|b: view::settings::SettingsAreas| #[trigger]
            view::settings::are_areas(a.columns@[1], b) && shown.skip(4)
                == view::settings::settings_tab(app, b),
{
    let before = view::bars::title_bar(app, a.rows@[0]) + view::bars::status_bar(app, a.rows@[2])
        + view::bars::sidebar(app, a.columns@[0]);
    assert(before.len() == 4);
    assert(forall|i: int| 0 <= i < 4 ==> #[trigger] shown[i] == shown.take(4)[i]);
    assert(before[0] == view::bars::title_bar(app, a.rows@[0])[0]);
    assert(before[1] == view::bars::title_bar(app, a.rows@[0])[1]);
    assert(before[2] == view::bars::status_bar(app, a.rows@[2])[0]);
    assert(before[3] == view::bars::sidebar(app, a.columns@[0])[0]);
}

} // verus!

use zhelper::app::{Focus, Status, TuiApp};
use zhelper::audio::{AudioDevice, AudioManager, AudioPort};
use zhelper::battery::{BatteryFiles, BatteryManager, Health, PowerDraw, Remaining};
use zhelper::config::Config;
use zhelper::cpu::{CpuFiles, CpuManager, FanFiles, PptFiles};
use zhelper::gpu::{GpuFiles, GpuManager};
use zhelper::layout::Area;
use zhelper::process::ProcessResult;
use zhelper::scene::{
    bg, dim, dng, edge, fg, fnt, g, green, grey, leaf, light, red, txt, white, Figure, Line, Placed,
    Scene, Span, Style, Widget,
};
use zhelper::system::{MemoryShare, SystemFiles, SystemInfo, ThermalZone};
use zhelper::view::audio::{audio_areas, render_device_list};
use zhelper::view::bars::{render_sidebar, render_statusbar, render_titlebar};
use zhelper::view::battery::battery_areas;
use zhelper::view::cpu::cpu_areas;
use zhelper::view::gpu::gpu_areas;
use zhelper::view::settings::settings_areas;
use zhelper::view::system::system_areas;
use zhelper::view::{render, render_tab, screen_areas, Band, Estimates};

fn s(x: &str) -> Option<String> {
    Some(x.to_string())
}

fn area() -> Area {
    Area { x: 0, y: 0, width: 100, height: 40 }
}

fn estimates() -> Estimates {
    Estimates { power_counts: true, health: Band::Fair, memory_percent: 75, memory_high: false }
}

fn battery_files() -> BatteryFiles {
    BatteryFiles {
        capacity: s("7"),
        status: s("Discharging"),
        charge_limit: s("60"),
        voltage_now: s("15000000"),
        current_now: s("-2000000"),
        energy_now: s("4000000"),
        energy_full: s("50000000"),
        energy_full_design: s("70000000"),
        power_now: s("30000000"),
        cycle_count: s("12"),
        technology: s("Li-ion"),
        manufacturer: None,
        model_name: None,
        limit_exists: true,
        limit_opens: true,
        service_active: false,
    }
}

fn cpu_files() -> CpuFiles {
    CpuFiles {
        thermal_policy: s("1"),
        fans: vec![FanFiles {
            fan1_label: s("cpu_fan"),
            fan1_input: s("2400"),
            fan2_label: s("gpu_fan"),
            fan2_input: s("0"),
        }],
        governor: s("powersave"),
        governors: s("performance powersave"),
        epp: s("power"),
        epps: s("default power"),
        boost: s("0"),
        ppt: PptFiles {
            apu_sppt: s("45"),
            fppt: None,
            pl1_spl: s("100"),
            pl2_sppt: s("2"),
            nv_boost: s("3"),
            nv_temp_target: s("87"),
        },
    }
}

fn devices() -> Vec<AudioDevice> {
    let port = |name: &str, available: bool, is_active: bool| AudioPort {
        port_name: name.to_string(),
        display_name: name.to_string(),
        available,
        is_active,
    };
    vec![
        AudioDevice {
            pactl_name: "speakers".to_string(),
            display_name: "Speakers".to_string(),
            volume: 40,
            muted: false,
            is_default: true,
            ports: vec![port("a", true, true), port("b", false, false), port("c", true, false)],
            active_port: None,
        },
        AudioDevice {
            pactl_name: "hdmi".to_string(),
            display_name: "HDMI".to_string(),
            volume: 148,
            muted: true,
            is_default: false,
            ports: Vec::new(),
            active_port: None,
        },
    ]
}

fn app_with(asus: bool) -> TuiApp {
    let listing = "01:00.0 3D controller: NVIDIA Corporation X [RTX] (rev a1)\n\
        06:00.0 VGA compatible controller: Intel Corporation UHD\n";
    let system = SystemFiles {
        cpuinfo: s("model name: Ryzen 9\n"),
        zones: Vec::new(),
        hwmon: Vec::new(),
        supplies: Vec::new(),
        meminfo: s("MemTotal: 16384 kB\nMemAvailable: 4096 kB\n"),
    };
    let gpu = GpuFiles { dgpu_disable: s("0"), gpu_mux_mode: s("1"), pending: None };
    TuiApp::new(
        Config::default(),
        BatteryManager::new(s("BAT0"), &battery_files()),
        SystemInfo::new(&system),
        GpuManager::new(
            asus,
            true,
            &gpu,
            ProcessResult::Done {
                success: true,
                stdout: listing.as_bytes().to_vec(),
                stderr: Vec::new(),
            },
        ),
        CpuManager::new(asus, true, &cpu_files()),
        AudioManager::new(devices(), Vec::new()),
        0,
    )
}

fn at(tab: usize) -> TuiApp {
    let mut a = app_with(true);
    a.active_tab = tab;
    a.focus = Focus::Content;
    a
}

fn plain(s: &Span) -> String {
    let figure = match s.figure {
        Some(f) => format!("<{:?}>", f),
        None => String::new(),
    };
    format!("{}{}{}", s.before, figure, s.after)
}

fn row(l: &Line) -> String {
    l.spans.iter().map(plain).collect()
}

fn rows(p: &Placed) -> Vec<String> {
    match &p.widget {
        Widget::Text { lines, .. } => lines.iter().map(row).collect(),
        _ => panic!("no text"),
    }
}

fn title(p: &Placed) -> (String, Style, Style) {
    match &p.widget {
        Widget::Frame { title: Some(t), border } => (plain(t), t.style, *border),
        Widget::Frame { title: None, border } => (String::new(), *border, *border),
        _ => panic!("no frame"),
    }
}

fn gauge(p: &Placed) -> (u16, Style, String, Style) {
    match &p.widget {
        Widget::Gauge { percent, style, label } => (*percent, *style, plain(label), label.style),
        _ => panic!("no bar"),
    }
}

fn spans(p: &Placed) -> Vec<Span> {
    match &p.widget {
        Widget::Text { lines, .. } => lines[0].spans.clone(),
        _ => panic!("no text"),
    }
}

fn tab(a: &TuiApp) -> Scene {
    render_tab(a, &estimates(), area())
}

#[test]
fn the_screen_is_divided() {
    let a = screen_areas(area());
    assert_eq!(a.rows[0], Area { x: 0, y: 0, width: 100, height: 1 });
    assert_eq!(a.rows[2], Area { x: 0, y: 39, width: 100, height: 1 });
    assert_eq!(a.columns[0], Area { x: 0, y: 1, width: 18, height: 38 });
    assert_eq!(a.columns[1], Area { x: 18, y: 1, width: 82, height: 38 });
}

#[test]
fn lengths_that_fit_are_kept() {
    let a = battery_areas(Area { x: 3, y: 2, width: 50, height: 30 });
    let heights: Vec<(u16, u16)> = a.rows.iter().map(|r| (r.y, r.height)).collect();
    assert_eq!(heights, vec![(2, 5), (7, 8), (15, 5), (20, 12)]);
    let cells: Vec<Area> = a.status;
    assert_eq!(cells[0], Area { x: 4, y: 3, width: 48, height: 1 });
    assert_eq!(cells[2], Area { x: 4, y: 5, width: 48, height: 1 });
    let limit: Vec<(u16, u16)> = a.limit.iter().map(|r| (r.y, r.height)).collect();
    assert_eq!(limit, vec![(8, 1), (9, 1), (10, 1), (11, 1), (12, 1), (13, 1)]);
    let details: Vec<(u16, u16)> = a.details.iter().map(|r| (r.y, r.height)).collect();
    assert_eq!(details, vec![(16, 1), (17, 1)]);
}

#[test]
fn areas_without_room_have_as_many_parts() {
    for h in 0..12u16 {
        let small = Area { x: 5, y: 9, width: 1, height: h };
        assert_eq!(battery_areas(small).rows.len(), 4);
        assert_eq!(cpu_areas(small).rows.len(), 5);
        assert_eq!(gpu_areas(small).mode.len(), 6);
        let sys = system_areas(small);
        assert_eq!((sys.rows.len(), sys.zones.len()), (3, 2));
        for r in settings_areas(small).rows {
            assert_eq!((r.x, r.width), (6, 0));
        }
        for r in sys.rows {
            assert_eq!((r.x, r.width), (5, 1));
        }
    }
}

#[test]
fn borders_leave_the_inside() {
    let inside = |x: u16, y: u16, width: u16, height: u16| {
        settings_areas(Area { x, y, width, height }).rows[0]
    };
    assert_eq!(inside(2, 3, 10, 10), Area { x: 3, y: 4, width: 8, height: 1 });
    assert_eq!((inside(2, 3, 1, 10).x, inside(2, 3, 1, 10).width), (3, 0));
    assert_eq!((inside(2, 3, 0, 10).x, inside(2, 3, 0, 10).width), (2, 0));
    assert_eq!(inside(65535, 3, 5, 10).x, 65535);
}

#[test]
fn the_title_bar() {
    let mut a = app_with(true);
    a.system.cpu_temp = Some(80000);
    a.system.gpu_temp = Some(84999);
    let r = render_titlebar(&a, area());
    assert_eq!(
        rows(&r.placed[0]),
        vec!["  zhelper  ·  bat 7%  ·  cpu <Thousandths(80000)>°c  ·  gpu <Thousandths(84999)>°c"]
    );
    let sp = spans(&r.placed[0]);
    assert_eq!(sp[0].style, bg().on(grey(11)));
    assert_eq!(sp[2].style, dng().on(grey(11)));
    assert_eq!(sp[4].style, fg(red()).on(grey(11)));
    assert_eq!(sp[6].style, fg(light()).on(grey(11)));
    assert_eq!(rows(&r.placed[1]), vec!["bat  "]);
    assert!(matches!(r.placed[1].widget, Widget::Text { right: true, .. }));
    a.system.ac_connected = true;
    a.system.cpu_temp = None;
    a.system.gpu_temp = None;
    a.battery.info.capacity = 20;
    let r = render_titlebar(&a, area());
    assert_eq!(rows(&r.placed[0]), vec!["  zhelper  ·  bat 20%"]);
    assert_eq!(spans(&r.placed[0])[2].style, dim().on(grey(11)));
    assert_eq!(rows(&r.placed[1]), vec!["ac  "]);
}

#[test]
fn the_sidebar_lists_the_tabs() {
    let mut a = at(3);
    match &render_sidebar(&a, area()).placed[0].widget {
        Widget::List { items, border, chosen_style, chosen_mark, chosen } => {
            let names: Vec<String> = items.iter().map(plain).collect();
            assert_eq!(
                names,
                vec!["  battery", "  system", "  cpu", "  gpu", "  audio", "  settings"]
            );
            assert_eq!(*border, fg(edge()));
            assert_eq!(*chosen_style, bg());
            assert_eq!(chosen_mark, "▶ ");
            assert_eq!(*chosen, 3);
        }
        _ => panic!("no list"),
    }
    a.focus = Focus::Sidebar;
    match &render_sidebar(&a, area()).placed[0].widget {
        Widget::List { border, .. } => assert_eq!(*border, fg(grey(45))),
        _ => panic!("no list"),
    }
}

#[test]
fn the_status_bar_names_the_keys() {
    for (i, part) in [
        "1/2/3 presets",
        "tab→sidebar   r refresh",
        "space toggle",
        "select mode",
        "d default",
        "space/↵ toggle",
    ]
    .into_iter()
    .enumerate()
    {
        let r = render_statusbar(&at(i), area());
        assert!(rows(&r.placed[0])[0].contains(part), "{}", part);
    }
    let mut a = at(2);
    a.focus = Focus::Sidebar;
    assert_eq!(
        rows(&render_statusbar(&a, area()).placed[0]),
        vec!["  q quit   j/k navigate   ↵/→ select tab   tab→content   r refresh"]
    );
    let mut a = at(2);
    a.active_tab = 6;
    assert_eq!(rows(&render_statusbar(&a, area()).placed[0]), vec!["  q quit"]);
}

#[test]
fn the_battery_tab() {
    let mut a = at(0);
    let r = tab(&a);
    assert_eq!(r.placed.len(), 10);
    assert_eq!(title(&r.placed[0]), (" battery status ".to_string(), dim(), fg(grey(40))));
    assert_eq!(
        gauge(&r.placed[1]),
        (7, fg(red()).on(grey(22)), "  7%  Discharging".to_string(), txt().strong())
    );
    let power = PowerDraw::Reported(30000000);
    let left = Remaining::ToEmpty { now: 4000000, power };
    assert_eq!(
        rows(&r.placed[2]),
        vec![format!(
            "voltage <{:?}>V  current <{:?}>A  power <{:?}>W  remaining <{:?}>  ",
            Figure::Millionths(15000000),
            Figure::Magnitude(-2000000),
            Figure::Power(power),
            Figure::Hours(left)
        )]
    );
    assert_eq!(title(&r.placed[3]), (" charge limit ".to_string(), g(), fg(leaf())));
    assert_eq!(
        gauge(&r.placed[4]),
        (80, fg(green()).on(grey(22)), " 80%  ←→ adjust  shift+←→ ±5".to_string(), txt())
    );
    assert_eq!(rows(&r.placed[5]), vec!["  presets   60%   [80%]   100%    1 / 2 / 3"]);
    assert_eq!(spans(&r.placed[5])[3].style, bg());
    assert_eq!(rows(&r.placed[6]), vec!["  [a/↵] apply  [s] setup persist"]);
    assert_eq!(spans(&r.placed[6])[0].style, g());
    let health = Health { full: 50000000, design: 70000000 };
    assert_eq!(
        rows(&r.placed[8]),
        vec![format!(
            "energy now <{:?}>Wh  full <{:?}>Wh  health <{:?}>%",
            Figure::Millionths(4000000),
            Figure::Millionths(50000000),
            Figure::Health(health)
        )]
    );
    assert_eq!(spans(&r.placed[8])[5].style, fg(light()));
    assert_eq!(
        rows(&r.placed[9]),
        vec!["cycles 12  tech Li-ion  device BAT0  persistent not set"]
    );
    a.focus = Focus::Sidebar;
    a.desired_limit = 60;
    a.status = Status::Success("done".to_string());
    a.battery.info.persistent_enabled = true;
    let r = tab(&a);
    assert_eq!(title(&r.placed[0]).2, fg(edge()));
    assert_eq!(
        gauge(&r.placed[4]),
        (60, fg(grey(48)).on(grey(22)), " 60%  (focus with tab)".to_string(), dim())
    );
    assert_eq!(rows(&r.placed[6]), vec!["  ✓  done"]);
    assert!(rows(&r.placed[9])[0].ends_with("persistent active"));
    a.status = Status::Failure("bad".to_string());
    assert_eq!(rows(&tab(&a).placed[6]), vec!["  ✗  bad"]);
}

#[test]
fn a_weak_power_gives_no_time() {
    let a = at(0);
    let mut e = estimates();
    e.power_counts = false;
    e.health = Band::Poor;
    let r = render_tab(&a, &e, area());
    assert!(!rows(&r.placed[2])[0].contains("remaining"));
    assert_eq!(spans(&r.placed[8])[5].style, fg(red()));
}

#[test]
fn a_charging_battery_gives_the_time_to_full() {
    let mut a = at(0);
    a.battery.info.status = zhelper::battery::ChargeStatus::Charging;
    let r = tab(&a);
    assert!(rows(&r.placed[2])[0].contains("to full <"));
    assert_eq!(gauge(&r.placed[1]).1, fg(green()).on(grey(22)));
}

#[test]
fn the_system_tab() {
    let mut a = at(1);
    a.system.cpu_temp = Some(79999);
    a.system.gpu_temp = Some(85000);
    for (i, t) in [80000, 65000, 64999].into_iter().enumerate() {
        a.system.thermal_zones.push(ThermalZone { name: format!("zone{}", i), temp: t });
    }
    let r = tab(&a);
    assert_eq!(r.placed.len(), 9);
    assert_eq!(rows(&r.placed[1]), vec!["Ryzen 9"]);
    assert_eq!(
        rows(&r.placed[2]),
        vec!["cpu <Thousandths(79999)>°C   gpu <Thousandths(85000)>°C"]
    );
    assert_eq!(spans(&r.placed[2])[1].style, fg(white()));
    assert_eq!(spans(&r.placed[2])[3].style, fg(red()));
    let share = MemoryShare { total_mb: 16, available_mb: 4 };
    assert_eq!(
        gauge(&r.placed[4]),
        (
            75,
            fg(green()).on(grey(22)),
            format!("<{:?}>%  (12 / 16 MB)", Figure::Share(share)),
            txt()
        )
    );
    assert_eq!(rows(&r.placed[5]), vec!["used 12 MB  available 4 MB  total 16 MB"]);
    assert_eq!(
        rows(&r.placed[7]),
        vec![
            "zone0                 <ThousandthsTo1(80000)>°C",
            "zone1                 <ThousandthsTo1(65000)>°C"
        ]
    );
    assert_eq!(rows(&r.placed[8]), vec!["zone2                 <ThousandthsTo1(64999)>°C"]);
    assert_eq!(spans(&r.placed[7])[1].style, fg(red()));
    assert_eq!(spans(&r.placed[8])[1].style, fg(white()));
}

#[test]
fn the_system_tab_without_figures() {
    let mut a = at(1);
    a.system.cpu_model = s("A very long model name");
    a.system.mem_used_mb = None;
    let narrow = Area { x: 0, y: 0, width: 9, height: 40 };
    let r = render_tab(&a, &estimates(), narrow);
    assert_eq!(rows(&r.placed[1]), vec!["A ver"]);
    assert_eq!(rows(&r.placed[4]), vec!["unavailable"]);
    assert_eq!(r.placed[4].area, Area { x: 1, y: 6, width: 7, height: 3 });
    assert_eq!(r.placed.len(), 5);
    a.system.mem_used_mb = Some(0);
    a.system.mem_total_mb = Some(0);
    let mut e = estimates();
    e.memory_high = true;
    let r = render_tab(&a, &e, area());
    assert_eq!(
        gauge(&r.placed[4]),
        (0, fg(green()).on(grey(22)), "0%  (0 / 0 MB)".to_string(), txt())
    );
    a.system.mem_total_mb = Some(16);
    assert_eq!(gauge(&render_tab(&a, &e, area()).placed[4]).1, fg(red()).on(grey(22)));
    a.system.cpu_model = None;
    a.system.thermal_zones.push(ThermalZone { name: "one".to_string(), temp: 1 });
    assert_eq!(tab(&a).placed.len(), 7);
}

#[test]
fn the_processor_tab() {
    let mut a = at(2);
    a.cpu.cpu_temp = Some(70000);
    let r = tab(&a);
    assert_eq!(r.placed.len(), 15);
    assert_eq!(
        rows(&r.placed[1]),
        vec!["cpu <Thousandths(70000)>°C   cpu fan 2400 RPM   gpu fan 0 RPM"]
    );
    assert_eq!(spans(&r.placed[1])[1].style, fg(light()));
    assert_eq!(rows(&r.placed[2]), vec!["boost off   governor powersave   epp power"]);
    assert_eq!(title(&r.placed[3]), (" thermal profile (bios) ".to_string(), g(), fg(leaf())));
    assert_eq!(rows(&r.placed[4]), vec!["  profile   Silent   [Balanced]   Turbo   "]);
    assert_eq!(spans(&r.placed[4])[3].style, bg());
    assert_eq!(rows(&r.placed[5]), vec!["  Adaptive fan curve for everyday use"]);
    assert_eq!(
        rows(&r.placed[6]),
        vec!["  current value maps to bios fan curve + power limits"]
    );
    assert_eq!(rows(&r.placed[8]), vec!["  governor  performance [powersave]"]);
    assert_eq!(rows(&r.placed[9]), vec!["  epp power   available: default power"]);
    assert_eq!(rows(&r.placed[10]), vec!["  cpu boost  on  [off]"]);
    assert_eq!(spans(&r.placed[10])[2].style, dim());
    let limits = rows(&r.placed[12]);
    assert_eq!(limits.len(), 6);
    assert_eq!(limits[0], "  sustained (APU)         45W  (current: 45)");
    assert_eq!(limits[1], "  fast                     -W  (current: -)");
    assert_eq!(rows(&r.placed[14]), vec!["  Adaptive fan curve for everyday use"]);
    assert_eq!(r.placed[14].area, Area { x: 1, y: 28, width: 98, height: 11 });
}

#[test]
fn rows_of_the_processor_are_marked() {
    let mut a = at(2);
    a.cpu_section = 1;
    a.cpu.lower(1);
    let r = tab(&a);
    assert_eq!(title(&r.placed[3]).1, dim());
    assert_eq!(rows(&r.placed[8]), vec!["▶ governor [performance] powersave "]);
    assert_eq!(spans(&r.placed[8])[2].style, txt().strong());
    assert_eq!(spans(&r.placed[8])[3].style, g());
    assert!(rows(&r.placed[14])[0].starts_with("  CPU governor controls"));
    a.cpu_section = 2;
    assert_eq!(rows(&tab(&a).placed[9]), vec!["▶ epp power   available: default power"]);
    a.cpu_section = 3;
    a.cpu.raise(3);
    assert_eq!(rows(&tab(&a).placed[10]), vec!["▶ cpu boost [on]  off"]);
    a.cpu_section = 6;
    a.cpu.lower(6);
    let r = tab(&a);
    assert_eq!(rows(&r.placed[12])[2], "▶ PL1                     99W  (current: 100)  ←→");
    assert_eq!(
        rows(&r.placed[14]),
        vec![format!("  {}", zhelper::cpu::PptKind::Pl1Spl.description())]
    );
    a.status = Status::Failure("bad".to_string());
    assert_eq!(rows(&tab(&a).placed[14]), vec!["  ✗  bad"]);
    a.status = Status::Empty;
    a.cpu_section = 0;
    a.cpu.pending_thermal = zhelper::cpu::ThermalProfile::Unknown;
    assert_eq!(rows(&tab(&a).placed[14]).len(), 0);
}

#[test]
fn without_the_firmware_less_is_shown() {
    let mut a = app_with(false);
    a.active_tab = 2;
    assert_eq!(tab(&a).placed.len(), 9);
    a.active_tab = 3;
    let r = tab(&a);
    assert_eq!(r.placed.len(), 3);
    assert_eq!(
        rows(&r.placed[2]),
        vec!["  ASUS GPU control not available  requires asus-nb-wmi kernel module"]
    );
}

#[test]
fn the_graphics_tab() {
    let mut a = at(3);
    let r = tab(&a);
    assert_eq!(r.placed.len(), 5);
    assert_eq!(title(&r.placed[0]), (" graphics mode ".to_string(), g(), fg(leaf())));
    assert_eq!(rows(&r.placed[1]), vec!["  iGPU  Intel UHD    dGPU  NVIDIA RTX"]);
    assert_eq!(rows(&r.placed[2]), vec!["  mode   Integrated   [Hybrid]   Ultimate   ← →"]);
    assert_eq!(rows(&r.placed[3]), vec!["  iGPU + dGPU both active, on-demand rendering"]);
    assert_eq!(rows(&r.placed[4]), vec!["  [a/↵] apply  queued until shutdown"]);
    assert_eq!(spans(&r.placed[4])[0].style, dim());
    a.gpu.choose_next();
    a.focus = Focus::Sidebar;
    let r = tab(&a);
    assert_eq!(rows(&r.placed[2]), vec!["  mode   Integrated    Hybrid   [Ultimate]  "]);
    assert_eq!(spans(&r.placed[2])[3].style, g());
    assert_eq!(spans(&r.placed[2])[5].style, txt().strong());
    assert_eq!(spans(&r.placed[4])[0].style, g());
    a.status = Status::Success("fine".to_string());
    assert_eq!(rows(&tab(&a).placed[4]), vec!["  ✓  fine"]);
}

#[test]
fn devices_and_ports_are_listed() {
    let list: Vec<String> = render_device_list(&devices(), true, 2).iter().map(row).collect();
    assert_eq!(
        list,
        vec![
            "  * Speakers                        40%",
            "    * a  (active)",
            ">     b  (unavailable)",
            "      c",
            "    HDMI                           148% [MUTED]"
        ]
    );
    let lines = render_device_list(&devices(), true, 2);
    assert_eq!(lines[1].spans[2].style, g());
    assert_eq!(lines[2].spans[2].style, txt().strong());
    assert_eq!(lines[3].spans[2].style, txt());
    assert_eq!(lines[4].spans[3].style, dng());
    let idle = render_device_list(&devices(), false, 2);
    assert_eq!(idle[2].spans[2].style, fnt());
    for l in &idle {
        assert_eq!(l.spans[0].before, "  ");
    }
    for at in 0..5usize {
        for (i, l) in render_device_list(&devices(), true, at).iter().enumerate() {
            assert_eq!(l.spans[0].before == "> ", i == at);
        }
    }
}

#[test]
fn the_audio_tab() {
    let mut a = at(4);
    let r = tab(&a);
    assert_eq!(r.placed.len(), 6);
    assert_eq!(
        title(&r.placed[0]),
        (" output (speakers / headphones) ".to_string(), g(), fg(leaf()))
    );
    assert_eq!(rows(&r.placed[1]).len(), 5);
    assert!(rows(&r.placed[1])[0].starts_with("> * Speakers"));
    assert_eq!(title(&r.placed[2]), (" input (microphones) ".to_string(), dim(), fg(edge())));
    assert_eq!(rows(&r.placed[3]), vec!["  no input devices found"]);
    assert_eq!(
        rows(&r.placed[5]),
        vec![
            "  section: output  -  tab to switch",
            "",
            "  j/k navigate   enter activate port   space mute   d default"
        ]
    );
    a.audio.section = 1;
    a.status = Status::Success("toggled mute".to_string());
    let r = tab(&a);
    assert!(rows(&r.placed[1])[0].starts_with("  * Speakers"));
    assert_eq!(
        rows(&r.placed[5]),
        vec!["  section: input  -  tab to switch", "", "  check toggled mute"]
    );
    a.status = Status::Failure("No device".to_string());
    assert_eq!(rows(&tab(&a).placed[5])[2], "  x  No device");
    a.audio.sinks.clear();
    assert_eq!(rows(&tab(&a).placed[1]), vec!["  no output devices found"]);
}

#[test]
fn the_settings_tab() {
    let mut a = at(5);
    a.settings_cursor = 2;
    let r = tab(&a);
    assert_eq!(r.placed.len(), 3);
    assert_eq!(title(&r.placed[0]), (" settings ".to_string(), fnt(), fg(grey(35))));
    assert_eq!(
        rows(&r.placed[1]),
        vec![format!("  {:<32}{:<16}key", "setting", "value")]
    );
    let line = |mark: &str, label: &str, value: &str, key: &str| {
        format!("{}{:<30}{:<16}[{}]", mark, label, value, key)
    };
    assert_eq!(
        rows(&r.placed[2]),
        vec![
            line("  ", "default charge limit", "80%", "← →"),
            String::new(),
            line("  ", "apply on startup", "off", "space/↵"),
            String::new(),
            line("▶ ", "refresh interval", "5s", "← →"),
            String::new(),
            line("  ", "persistence setup", "not configured", "↵"),
            String::new(),
        ]
    );
    a.config.auto_apply_on_start = true;
    a.battery.info.persistent_enabled = true;
    a.status = Status::Success("fine".to_string());
    let shown = rows(&tab(&a).placed[2]);
    assert_eq!(shown[2], line("  ", "apply on startup", "on", "space/↵"));
    assert_eq!(shown[6], line("  ", "persistence setup", "configured", "↵"));
    assert_eq!(shown[8], "  ✓  fine");
}

#[test]
fn the_screen_holds_everything() {
    for i in 0..6usize {
        let a = at(i);
        let r = render(&a, &estimates(), area());
        let content = render_tab(&a, &estimates(), screen_areas(area()).columns[1]);
        assert_eq!(r.placed.len(), 4 + content.placed.len());
        assert_eq!(r.placed[0].area.y, 0);
        assert_eq!(r.placed[2].area.y, 39);
        assert!(matches!(r.placed[3].widget, Widget::List { .. }));
        for (p, q) in r.placed[4..].iter().zip(content.placed.iter()) {
            assert_eq!(p.area, q.area);
        }
    }
    let mut a = at(0);
    a.active_tab = 6;
    assert_eq!(render(&a, &estimates(), area()).placed.len(), 4);
}

fn covers(parts: &[Area], y: u16, height: u16, lengths: &[u16]) {
    let mut next = y;
    for (i, p) in parts.iter().enumerate() {
        assert_eq!(p.y, next);
        if i < lengths.len() && lengths.iter().sum::<u16>() > height {
            assert!(p.height <= lengths[i]);
        }
        next += p.height;
    }
    assert_eq!(next, y + height);
}

#[test]
fn parts_fill_areas_that_are_too_small() {
    for y in [0u16, 1, 7, 1000] {
        for height in 0..60u16 {
            let a = Area { x: 2, y, width: 80, height };
            let cpu = cpu_areas(a);
            covers(&cpu.rows, y, height, &[5, 7, 6, 9, 0]);
            covers(&battery_areas(a).rows, y, height, &[5, 8, 5, 0]);
            covers(&system_areas(a).rows, y, height, &[5, 5, 0]);
            covers(&gpu_areas(a).rows, y, height, &[7, 0]);
            covers(&audio_areas(a).rows, y, height, &[10, 10, 0]);
            covers(&screen_areas(a).rows, y, height, &[1, 0, 1]);
            for (block, cells, n) in [
                (cpu.rows[0], cpu.status, 2u16),
                (cpu.rows[1], cpu.profile, 4),
                (cpu.rows[2], cpu.frequency, 3),
            ] {
                let inside = if block.height < 2 { 0 } else { block.height - 2 };
                if inside < n {
                    let top = if block.height > 0 { block.y + 1 } else { block.y };
                    covers(&cells, top, inside, &[1, 1, 1, 1]);
                }
            }
        }
    }
}

#[test]
fn thermal_zones_are_shown_in_two_halves() {
    for width in 2..120u16 {
        let a = system_areas(Area { x: 5, y: 0, width, height: 30 });
        let e = width - 2;
        assert_eq!((a.zones[0].x, a.zones[0].width), (6, (e + 1) / 2));
        assert_eq!((a.zones[1].x, a.zones[1].width), (6 + (e + 1) / 2, e / 2));
    }
}

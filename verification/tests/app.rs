use zhelper::app::{Action, AudioChange, CpuSetting, Focus, Key, Status, TuiApp};
use zhelper::audio::{AudioDevice, AudioManager, AudioPort};
use zhelper::battery::{BatteryFiles, BatteryManager};
use zhelper::config::Config;
use zhelper::cpu::{CpuFiles, CpuManager, PptFiles, PptKind, ThermalProfile};
use zhelper::gpu::{GpuFiles, GpuManager, GpuMode};
use zhelper::process::ProcessResult;
use zhelper::system::{SystemFiles, SystemInfo};

const SECOND: u64 = 1_000_000_000;

fn s(x: &str) -> Option<String> {
    Some(x.to_string())
}

fn battery_files() -> BatteryFiles {
    BatteryFiles {
        capacity: s("50"),
        status: s("Full"),
        charge_limit: s("80"),
        voltage_now: None,
        current_now: None,
        energy_now: None,
        energy_full: None,
        energy_full_design: None,
        power_now: None,
        cycle_count: None,
        technology: None,
        manufacturer: None,
        model_name: None,
        limit_exists: true,
        limit_opens: true,
        service_active: false,
    }
}

fn system_files() -> SystemFiles {
    SystemFiles {
        cpuinfo: None,
        zones: Vec::new(),
        hwmon: Vec::new(),
        supplies: Vec::new(),
        meminfo: None,
    }
}

fn cpu_files() -> CpuFiles {
    CpuFiles {
        thermal_policy: s("1"),
        fans: Vec::new(),
        governor: s("powersave"),
        governors: s("performance powersave"),
        epp: s("power"),
        epps: s("default power"),
        boost: s("1"),
        ppt: PptFiles {
            apu_sppt: s("45"),
            fppt: None,
            pl1_spl: s("1"),
            pl2_sppt: s("2"),
            nv_boost: s("3"),
            nv_temp_target: s("87"),
        },
    }
}

fn gpu_files() -> GpuFiles {
    GpuFiles { dgpu_disable: s("0"), gpu_mux_mode: s("1"), pending: None }
}

fn devices() -> Vec<AudioDevice> {
    let port = |name: &str| AudioPort {
        port_name: name.to_string(),
        display_name: name.to_string(),
        available: true,
        is_active: false,
    };
    vec![
        AudioDevice {
            pactl_name: "speakers".to_string(),
            display_name: "Speakers".to_string(),
            volume: 40,
            muted: false,
            is_default: true,
            ports: vec![port("a"), port("b")],
            active_port: None,
        },
        AudioDevice {
            pactl_name: "hdmi".to_string(),
            display_name: "HDMI".to_string(),
            volume: 148,
            muted: true,
            is_default: false,
            ports: Vec::new(),
            active_port: None,
        },
    ]
}

fn app_with(asus: bool) -> TuiApp {
    let listing = ProcessResult::Failed("none".to_string());
    TuiApp::new(
        Config::default(),
        BatteryManager::new(s("BAT0"), &battery_files()),
        SystemInfo::new(&system_files()),
        GpuManager::new(asus, true, &gpu_files(), listing),
        CpuManager::new(asus, true, &cpu_files()),
        AudioManager::new(devices(), Vec::new()),
        SECOND,
    )
}

fn app() -> TuiApp {
    app_with(true)
}

fn at(tab: usize) -> TuiApp {
    let mut a = app();
    a.active_tab = tab;
    a.focus = Focus::Content;
    a
}

fn press(a: &mut TuiApp, key: Key) -> Action {
    a.handle_key(key, false, 10 * SECOND)
}

fn nothing(a: Action) {
    assert!(matches!(a, Action::Nothing));
}

fn failure(a: &TuiApp, text: &str, until: u64) {
    match &a.status {
        Status::Failure(m) => assert_eq!(m, text),
        _ => panic!("no failure"),
    }
    assert_eq!(a.status_until, Some((until * SECOND) as u128));
}

fn success(a: &TuiApp, text: &str, until: u64) {
    match &a.status {
        Status::Success(m) => assert_eq!(m, text),
        _ => panic!("no success"),
    }
    assert_eq!(a.status_until, Some((until * SECOND) as u128));
}

fn pactl(action: Action, want: &[&str], change: AudioChange) {
    match action {
        Action::Pactl { args, change: c } => {
            assert_eq!(args, want);
            assert_eq!(c, change);
        }
        _ => panic!("no run of pactl"),
    }
}

#[test]
fn the_panel_at_its_start() {
    let mut a = app();
    assert_eq!(a.active_tab, 0);
    assert_eq!(a.focus, Focus::Sidebar);
    assert_eq!(a.desired_limit, 80);
    assert!(matches!(a.status, Status::Empty));
    assert!(!a.should_quit);
    assert_eq!(a.last_refresh, SECOND);
    assert_eq!(a.limit_at_start(), None);
    a.config.auto_apply_on_start = true;
    assert_eq!(a.limit_at_start(), Some(80));
}

#[test]
fn global_keys() {
    let mut a = app();
    assert!(matches!(press(&mut a, Key::Char('r')), Action::Refresh));
    assert!(matches!(press(&mut a, Key::Char('R')), Action::Refresh));
    assert!(!a.should_quit);
    nothing(press(&mut a, Key::Tab));
    assert_eq!(a.focus, Focus::Content);
    nothing(press(&mut a, Key::Tab));
    assert_eq!(a.focus, Focus::Sidebar);
    nothing(press(&mut a, Key::Char('q')));
    assert!(a.should_quit);
    let mut a = at(4);
    nothing(press(&mut a, Key::Char('Q')));
    assert!(a.should_quit);
}

#[test]
fn the_sidebar() {
    let mut a = app();
    nothing(press(&mut a, Key::Up));
    assert_eq!(a.active_tab, 0);
    for want in [1, 2, 3, 4, 5, 5] {
        nothing(press(&mut a, Key::Char('j')));
        assert_eq!(a.active_tab, want);
    }
    nothing(press(&mut a, Key::Char('k')));
    assert_eq!(a.active_tab, 4);
    for key in [Key::Right, Key::Enter, Key::Char('l')] {
        a.focus = Focus::Sidebar;
        nothing(press(&mut a, key));
        assert_eq!(a.focus, Focus::Content);
    }
    for key in [Key::Esc, Key::BackTab] {
        a.focus = Focus::Content;
        nothing(press(&mut a, key));
        assert_eq!(a.focus, Focus::Sidebar);
    }
    nothing(press(&mut a, Key::Char('a')));
    nothing(press(&mut a, Key::Other));
}

#[test]
fn the_charge_limit() {
    let mut a = at(0);
    nothing(press(&mut a, Key::Right));
    assert_eq!(a.desired_limit, 81);
    nothing(press(&mut a, Key::Left));
    assert_eq!(a.desired_limit, 80);
    nothing(a.handle_key(Key::Left, true, 0));
    assert_eq!(a.desired_limit, 75);
    a.desired_limit = 22;
    nothing(a.handle_key(Key::Left, true, 0));
    assert_eq!(a.desired_limit, 20);
    nothing(press(&mut a, Key::Left));
    assert_eq!(a.desired_limit, 20);
    a.desired_limit = 98;
    nothing(a.handle_key(Key::Right, true, 0));
    assert_eq!(a.desired_limit, 100);
    nothing(press(&mut a, Key::Right));
    assert_eq!(a.desired_limit, 100);
    for (key, want) in [('1', 60), ('2', 80), ('3', 100)] {
        nothing(press(&mut a, Key::Char(key)));
        assert_eq!(a.desired_limit, want);
    }
    assert!(matches!(press(&mut a, Key::Enter), Action::ApplyLimit(100)));
    assert!(matches!(press(&mut a, Key::Char('a')), Action::ApplyLimit(100)));
    assert!(matches!(press(&mut a, Key::Char('s')), Action::RunSetup(100)));
    a.battery.info.persistent_enabled = true;
    assert!(matches!(press(&mut a, Key::Char('s')), Action::UpdatePersistent(100)));
    assert_eq!(a.config.charge_limit, 80);
}

#[test]
fn every_limit_that_keys_reach_is_in_range() {
    let keys = [Key::Left, Key::Right, Key::Char('1'), Key::Char('3'), Key::Enter, Key::Up, Key::Down];
    for tab in [0, 5] {
        let mut a = at(tab);
        for i in 0..400usize {
            let key = keys[(i * i + i / 7) % 7];
            a.handle_key(key, i % 3 == 0, 0);
            assert!(20 <= a.desired_limit && a.desired_limit <= 100);
            assert!(20 <= a.config.charge_limit && a.config.charge_limit <= 100);
            assert!(1 <= a.config.refresh_secs && a.config.refresh_secs <= 60);
            assert!(a.settings_cursor <= 3);
        }
    }
}

#[test]
fn the_system_tab_is_read_only() {
    let mut a = at(1);
    for key in [Key::Left, Key::Right, Key::Up, Key::Down, Key::Enter, Key::Char('a'), Key::Char(' ')] {
        nothing(press(&mut a, key));
        assert_eq!(a.active_tab, 1);
        assert_eq!(a.desired_limit, 80);
        assert_eq!(a.cpu_section, 0);
    }
}

#[test]
fn keys_of_the_graphics_tab() {
    let mut a = at(3);
    assert_eq!(a.gpu.pending_mode, GpuMode::Hybrid);
    nothing(press(&mut a, Key::Right));
    assert_eq!(a.gpu.pending_mode, GpuMode::Ultimate);
    nothing(press(&mut a, Key::Left));
    nothing(press(&mut a, Key::Left));
    assert_eq!(a.gpu.pending_mode, GpuMode::Integrated);
    assert_eq!(a.gpu.mode, GpuMode::Hybrid);
    assert!(matches!(press(&mut a, Key::Char('a')), Action::QueueGpu));
    a.do_apply_gpu(Ok(()), SECOND);
    success(&a, "Integrated mode queued", 5);
    assert_eq!(a.gpu.queued_mode, Some(GpuMode::Integrated));
    a.do_apply_gpu(Err("no".to_string()), SECOND);
    failure(&a, "no", 9);
}

#[test]
fn keys_of_the_processor_tab() {
    let mut a = at(2);
    nothing(press(&mut a, Key::Right));
    assert_eq!(a.cpu.pending_thermal, ThermalProfile::Turbo);
    assert!(matches!(press(&mut a, Key::Enter), Action::ApplyCpu(CpuSetting::Thermal)));
    nothing(press(&mut a, Key::Char(' ')));
    for _ in 0..3 {
        nothing(press(&mut a, Key::Down));
    }
    assert_eq!(a.cpu_section, 3);
    assert!(matches!(press(&mut a, Key::Char(' ')), Action::ApplyCpu(CpuSetting::Boost)));
    assert!(!a.cpu.pending_boost && a.cpu.boost_enabled);
    for _ in 0..9 {
        nothing(press(&mut a, Key::Char('j')));
    }
    assert_eq!(a.cpu_section, 9);
    assert!(matches!(
        press(&mut a, Key::Char('a')),
        Action::ApplyCpu(CpuSetting::Ppt(PptKind::NvTempTarget))
    ));
    nothing(press(&mut a, Key::Left));
    assert_eq!(a.cpu.pending_ppt.get(PptKind::NvTempTarget), Some(86));
    nothing(press(&mut a, Key::Char('k')));
    assert_eq!(a.cpu_section, 8);
    let mut a = app_with(false);
    a.active_tab = 2;
    a.focus = Focus::Content;
    for _ in 0..9 {
        nothing(press(&mut a, Key::Down));
    }
    assert_eq!(a.cpu_section, 3);
}

#[test]
fn settings_of_the_processor_are_set() {
    let mut a = at(2);
    a.cpu.raise(0);
    a.cpu_apply(CpuSetting::Thermal, Err("busy".to_string()), 0);
    failure(&a, "busy", 8);
    assert_eq!(a.cpu.thermal_profile, ThermalProfile::Balanced);
    a.cpu_apply(CpuSetting::Thermal, Ok(()), 0);
    success(&a, "Turbo thermal profile active", 4);
    assert_eq!(a.cpu.thermal_profile, ThermalProfile::Turbo);
    a.cpu.lower(1);
    a.cpu_apply(CpuSetting::Governor, Ok(()), 0);
    success(&a, "governor: performance", 4);
    assert_eq!(a.cpu.governor.current, "performance");
    a.cpu.lower(2);
    a.cpu_apply(CpuSetting::Epp, Ok(()), 0);
    success(&a, "EPP: default", 4);
    a.cpu_apply(CpuSetting::Boost, Ok(()), 0);
    success(&a, "CPU boost enabled", 4);
    a.cpu.lower(3);
    a.cpu_apply(CpuSetting::Boost, Ok(()), 0);
    success(&a, "CPU boost disabled", 4);
    assert!(!a.cpu.boost_enabled);
    a.cpu.raise(4);
    a.cpu_apply(CpuSetting::Ppt(PptKind::ApuSppt), Ok(()), 0);
    success(&a, &format!("{} updated", PptKind::ApuSppt.label()), 4);
    assert_eq!(a.cpu.ppt.get(PptKind::ApuSppt), Some(46));
}

#[test]
fn the_audio_tab_moves() {
    let mut a = at(4);
    for want in [1, 2, 3, 3] {
        nothing(press(&mut a, Key::Down));
        assert_eq!(a.audio.cursor, want);
    }
    nothing(press(&mut a, Key::Char('k')));
    assert_eq!(a.audio.cursor, 2);
    nothing(press(&mut a, Key::Tab));
    assert_eq!((a.audio.section, a.audio.cursor), (1, 0));
    assert_eq!(a.focus, Focus::Content);
    nothing(press(&mut a, Key::Down));
    assert_eq!(a.audio.cursor, 0);
    nothing(press(&mut a, Key::Tab));
    assert_eq!((a.audio.section, a.audio.cursor), (0, 0));
}

#[test]
fn the_audio_tab_asks_for_pactl() {
    let mut a = at(4);
    pactl(press(&mut a, Key::Left), &["set-sink-volume", "speakers", "35%"], AudioChange::Volume);
    pactl(press(&mut a, Key::Right), &["set-sink-volume", "speakers", "45%"], AudioChange::Volume);
    pactl(press(&mut a, Key::Char(' ')), &["set-sink-mute", "speakers", "toggle"], AudioChange::Mute);
    pactl(press(&mut a, Key::Enter), &["set-sink-mute", "speakers", "toggle"], AudioChange::Mute);
    pactl(
        press(&mut a, Key::Char('d')),
        &["set-default-sink", "speakers"],
        AudioChange::DefaultDevice,
    );
    a.audio.cursor = 2;
    pactl(press(&mut a, Key::Enter), &["set-sink-port", "speakers", "b"], AudioChange::Port);
    pactl(press(&mut a, Key::Char('a')), &["set-sink-port", "speakers", "b"], AudioChange::Port);
    a.audio.cursor = 0;
    nothing(press(&mut a, Key::Char('a')));
    a.audio.cursor = 3;
    pactl(press(&mut a, Key::Right), &["set-sink-volume", "hdmi", "150%"], AudioChange::Volume);
    a.audio.section = 1;
    a.audio.cursor = 0;
    for key in [Key::Left, Key::Right, Key::Char(' '), Key::Enter, Key::Char('d')] {
        a.status = Status::Empty;
        nothing(press(&mut a, key));
        failure(&a, "No device", 14);
    }
}

#[test]
fn what_came_of_pactl() {
    let mut a = at(4);
    assert!(a.audio_apply(AudioChange::Volume, Ok(()), 0));
    assert!(matches!(a.status, Status::Empty));
    assert!(a.audio_apply(AudioChange::Mute, Ok(()), 0));
    success(&a, "toggled mute", 2);
    assert!(a.audio_apply(AudioChange::Port, Ok(()), 0));
    success(&a, "port activated", 3);
    assert!(a.audio_apply(AudioChange::DefaultDevice, Ok(()), 0));
    success(&a, "default output set", 3);
    a.audio.section = 1;
    assert!(a.audio_apply(AudioChange::DefaultDevice, Ok(()), 0));
    success(&a, "default input set", 3);
    assert!(!a.audio_apply(AudioChange::Volume, Err("no".to_string()), 0));
    failure(&a, "no", 4);
}

#[test]
fn keys_of_the_settings_tab() {
    let mut a = at(5);
    assert!(matches!(press(&mut a, Key::Right), Action::SaveConfig));
    assert_eq!((a.config.charge_limit, a.desired_limit), (81, 81));
    assert!(matches!(press(&mut a, Key::Left), Action::SaveConfig));
    assert_eq!((a.config.charge_limit, a.desired_limit), (80, 80));
    nothing(press(&mut a, Key::Enter));
    nothing(press(&mut a, Key::Down));
    nothing(press(&mut a, Key::Left));
    nothing(press(&mut a, Key::Right));
    assert!(matches!(press(&mut a, Key::Char(' ')), Action::SaveConfig));
    assert!(a.config.auto_apply_on_start);
    assert!(matches!(press(&mut a, Key::Enter), Action::SaveConfig));
    assert!(!a.config.auto_apply_on_start);
    nothing(press(&mut a, Key::Down));
    assert!(matches!(press(&mut a, Key::Left), Action::SaveConfig));
    assert_eq!(a.config.refresh_secs, 4);
    a.config.refresh_secs = 1;
    nothing(press(&mut a, Key::Left));
    assert_eq!(a.config.refresh_secs, 1);
    a.config.refresh_secs = 59;
    assert!(matches!(press(&mut a, Key::Right), Action::SaveConfig));
    nothing(press(&mut a, Key::Right));
    assert_eq!(a.config.refresh_secs, 60);
    nothing(press(&mut a, Key::Char('j')));
    nothing(press(&mut a, Key::Char('j')));
    assert_eq!(a.settings_cursor, 3);
    assert!(matches!(press(&mut a, Key::Enter), Action::RunSetup(80)));
    nothing(press(&mut a, Key::Char('k')));
    assert_eq!(a.settings_cursor, 2);
}

#[test]
fn what_came_of_setting_the_limit() {
    let mut a = at(0);
    a.desired_limit = 60;
    assert!(!a.do_apply(Err("No battery found".to_string()), 0));
    failure(&a, "No battery found", 8);
    assert_eq!(a.config.charge_limit, 80);
    assert!(a.do_apply(Ok(()), SECOND));
    success(&a, "limit set to 60%", 5);
    assert_eq!(a.config.charge_limit, 60);
    assert!(a.do_setup(Ok(()), 0));
    success(&a, "setup complete — persistent limit active", 6);
    assert!(a.config.persistent_limit);
    assert!(!a.do_setup(Err("x".to_string()), 0));
    failure(&a, "x", 10);
    a.do_persist(Ok(()), 0);
    success(&a, "persistent limit updated", 4);
    a.do_persist(Err("y".to_string()), 0);
    failure(&a, "y", 8);
}

#[test]
fn a_status_is_shown_until_its_time() {
    let mut a = app();
    a.ok("done".to_string(), 4, SECOND);
    a.expire_status(5 * SECOND);
    assert!(matches!(a.status, Status::Success(_)));
    a.expire_status(5 * SECOND + 1);
    assert!(matches!(a.status, Status::Empty));
    assert_eq!(a.status_until, None);
    a.expire_status(u64::MAX);
    a.err("bad".to_string(), u64::MAX, u64::MAX);
    a.expire_status(u64::MAX);
    assert!(matches!(a.status, Status::Failure(_)));
}

#[test]
fn reading_again_is_due_after_the_interval() {
    let mut a = app();
    assert!(!a.refresh_due(0));
    assert!(!a.refresh_due(6 * SECOND - 1));
    assert!(a.refresh_due(6 * SECOND));
    a.config.refresh_secs = 0;
    assert!(a.refresh_due(0));
    a.config.refresh_secs = u64::MAX;
    assert!(!a.refresh_due(u64::MAX));
}

#[test]
fn everything_is_read_again() {
    let mut a = at(4);
    a.audio.cursor = 3;
    let mut bat = battery_files();
    bat.capacity = s("51");
    let mut sys = system_files();
    sys.hwmon.push(zhelper::system::HwmonFiles {
        name: s("k10temp"),
        sensors: vec![zhelper::system::SensorFiles { index: 1, temp: s("70500"), label: None }],
    });
    let gpu = GpuFiles { dgpu_disable: s("1"), gpu_mux_mode: s("1"), pending: s("0,0") };
    let mut cpu = cpu_files();
    cpu.thermal_policy = s("2");
    a.refresh(&bat, &sys, &gpu, &cpu, Vec::new(), devices(), 77);
    assert_eq!(a.battery.info.capacity, 51);
    assert_eq!(a.system.cpu_temp, Some(70500));
    assert_eq!(a.cpu.cpu_temp, Some(70500));
    assert_eq!(a.gpu.mode, GpuMode::Integrated);
    assert_eq!(a.gpu.queued_mode, Some(GpuMode::Ultimate));
    assert_eq!(a.cpu.thermal_profile, ThermalProfile::Turbo);
    assert_eq!(a.audio.cursor, 0);
    assert_eq!(a.audio.sources.len(), 2);
    assert_eq!(a.last_refresh, 77);
    assert_eq!(a.active_tab, 4);
}

#[test]
fn an_applied_limit_is_to_persist_where_the_service_is_active() {
    let mut a = at(0);
    a.desired_limit = 65;
    assert!(a.do_apply(Ok(()), 0));
    assert_eq!(a.limit_to_persist(), None);
    a.battery.info.persistent_enabled = true;
    a.desired_limit = 70;
    assert!(!a.do_apply(Err("no".to_string()), 0));
    assert_eq!(a.config.charge_limit, 65);
    assert!(a.do_apply(Ok(()), SECOND));
    assert_eq!(a.limit_to_persist(), Some(70));
    a.limit_persisted(Ok(()), SECOND);
    success(&a, "limit set to 70%", 5);
    a.limit_persisted(Err("denied".to_string()), SECOND);
    failure(&a, "denied", 9);
}

#[test]
fn figures_of_memory_stay_where_none_are_given() {
    let mut a = at(1);
    a.system.mem_total_mb = Some(16);
    a.system.mem_used_mb = Some(12);
    a.system.mem_available_mb = Some(4);
    a.refresh(&battery_files(), &system_files(), &gpu_files(), &cpu_files(), Vec::new(), Vec::new(), 1);
    assert_eq!(a.system.mem_total_mb, Some(16));
    assert_eq!(a.system.mem_used_mb, Some(12));
    assert_eq!(a.system.mem_available_mb, Some(4));
}

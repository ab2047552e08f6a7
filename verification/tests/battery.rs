use zhelper::battery::{
    find_battery, limit_written, persistent_limit_written, read_info, service_active,
    service_command, setup_result, write_privileged, BatteryFiles, BatteryInfo, BatteryManager, ChargeStatus, Health, PowerDraw,
    Remaining,
};
use zhelper::process::ProcessResult;
use zhelper::sysutil::{FailureKind, PipedResult, WriteFailure, WriteStep};

fn s(x: &str) -> Option<String> {
    Some(x.to_string())
}

fn files() -> BatteryFiles {
    BatteryFiles {
        capacity: s("77\n"),
        status: s("Discharging\n"),
        charge_limit: s("80\n"),
        voltage_now: s("15500000\n"),
        current_now: s("-1200000\n"),
        energy_now: s("40000000\n"),
        energy_full: s("60000000\n"),
        energy_full_design: s("76000000\n"),
        power_now: s("12000000\n"),
        cycle_count: s("123\n"),
        technology: s("Li-ion\n"),
        manufacturer: s("ASUS \n"),
        model_name: s("A32\n"),
        limit_exists: true,
        limit_opens: true,
        service_active: false,
    }
}

fn no_files() -> BatteryFiles {
    BatteryFiles {
        capacity: None,
        status: None,
        charge_limit: None,
        voltage_now: None,
        current_now: None,
        energy_now: None,
        energy_full: None,
        energy_full_design: None,
        power_now: None,
        cycle_count: None,
        technology: None,
        manufacturer: None,
        model_name: None,
        limit_exists: false,
        limit_opens: true,
        service_active: true,
    }
}

#[test]
fn status_words() {
    assert_eq!(ChargeStatus::from_str(" Charging\n"), ChargeStatus::Charging);
    assert_eq!(ChargeStatus::from_str("Discharging"), ChargeStatus::Discharging);
    assert_eq!(ChargeStatus::from_str("Full"), ChargeStatus::Full);
    assert_eq!(ChargeStatus::from_str("Not charging"), ChargeStatus::NotCharging);
    assert_eq!(ChargeStatus::from_str("Not Charging"), ChargeStatus::NotCharging);
    assert_eq!(ChargeStatus::from_str("charging"), ChargeStatus::Unknown);
    assert_eq!(ChargeStatus::from_str(""), ChargeStatus::Unknown);
}

#[test]
fn status_names_are_read_back() {
    let all = [
        ChargeStatus::Charging,
        ChargeStatus::Discharging,
        ChargeStatus::Full,
        ChargeStatus::NotCharging,
        ChargeStatus::Unknown,
    ];
    let names = ["Charging", "Discharging", "Full", "Not Charging", "Unknown"];
    let plugged = [true, false, true, true, false];
    for i in 0..5 {
        assert_eq!(all[i].label(), names[i]);
        assert_eq!(all[i].is_plugged(), plugged[i]);
        assert_eq!(ChargeStatus::from_str(all[i].label()), all[i]);
    }
}

#[test]
fn files_are_read() {
    let i = read_info(&files());
    assert_eq!(i.capacity, 77);
    assert_eq!(i.status, ChargeStatus::Discharging);
    assert_eq!(i.charge_limit, 80);
    assert_eq!(i.voltage, Some(15500000));
    assert_eq!(i.current, Some(-1200000));
    assert_eq!(i.energy_now, Some(40000000));
    assert_eq!(i.energy_full, Some(60000000));
    assert_eq!(i.energy_full_design, Some(76000000));
    assert_eq!(i.power, Some(PowerDraw::Reported(12000000)));
    assert_eq!(i.cycle_count, Some(123));
    assert_eq!(i.technology, s("Li-ion"));
    assert_eq!(i.manufacturer, s("ASUS"));
    assert_eq!(i.model_name, s("A32"));
    assert!(i.can_write_limit && i.has_limit_support && !i.persistent_enabled);
}

#[test]
fn missing_files_leave_defaults() {
    let i = read_info(&no_files());
    assert_eq!(i.capacity, 0);
    assert_eq!(i.status, ChargeStatus::Unknown);
    assert_eq!(i.charge_limit, 100);
    assert_eq!(i.voltage, None);
    assert_eq!(i.power, None);
    assert!(!i.can_write_limit && !i.has_limit_support && i.persistent_enabled);
}

#[test]
fn power_falls_back_to_voltage_and_current() {
    let derived = Some(PowerDraw::Derived { microvolts: 15500000, microamps: -1200000 });
    let mut f = files();
    f.power_now = s("-1");
    assert_eq!(read_info(&f).power, derived);
    f.power_now = None;
    assert_eq!(read_info(&f).power, derived);
    f.power_now = s("0");
    assert_eq!(read_info(&f).power, Some(PowerDraw::Reported(0)));
    f.power_now = s("much");
    f.voltage_now = s("0");
    assert_eq!(read_info(&f).voltage, None);
    assert_eq!(read_info(&f).power, None);
}

#[test]
fn a_limit_that_cannot_be_read_is_a_hundred() {
    let mut f = files();
    f.charge_limit = s("300");
    assert_eq!(read_info(&f).charge_limit, 100);
    f.charge_limit = s("60");
    f.limit_exists = false;
    assert_eq!(read_info(&f).charge_limit, 100);
    assert!(!read_info(&f).can_write_limit);
}

#[test]
fn health_and_time() {
    let mut i = read_info(&files());
    assert_eq!(i.health_percent(), Some(Health { full: 60000000, design: 76000000 }));
    let power = PowerDraw::Reported(12000000);
    assert_eq!(i.time_remaining_h(true), Some(Remaining::ToEmpty { now: 40000000, power }));
    i.status = ChargeStatus::Charging;
    assert_eq!(
        i.time_remaining_h(true),
        Some(Remaining::ToFull { now: 40000000, full: 60000000, power })
    );
    assert_eq!(i.time_remaining_h(false), None);
    i.status = ChargeStatus::Full;
    assert_eq!(i.time_remaining_h(true), None);
    i.energy_full_design = Some(0);
    assert_eq!(i.health_percent(), None);
    assert_eq!(BatteryInfo::default().health_percent(), None);
    assert_eq!(BatteryInfo::default().charge_limit, 100);
}

#[test]
fn the_first_battery_is_found() {
    let dirs = |v: &[&str]| v.iter().map(|x| x.to_string()).collect::<Vec<String>>();
    assert_eq!(find_battery(&dirs(&["AC0", "BATT", "BAT1"])), s("BAT1"));
    assert_eq!(find_battery(&dirs(&["BAT1", "BAT0"])), s("BAT0"));
    assert_eq!(find_battery(&dirs(&["BATC"])), s("BATC"));
    assert_eq!(find_battery(&dirs(&["AC0"])), None);
}

#[test]
fn setting_the_limit() {
    let m = BatteryManager::new(s("BAT1"), &files());
    let w = m.set_charge_limit(true, 80).unwrap_or_else(|e| panic!("{}", e));
    assert_eq!(w.path, "/sys/class/power_supply/BAT1/charge_control_end_threshold");
    assert_eq!(w.value, "80");
    assert_eq!(
        m.set_charge_limit(false, 80).err(),
        s("Battery charge limit is not supported on this device.\nEnsure the asus-nb-wmi kernel module is loaded:\nsudo modprobe asus-nb-wmi")
    );
    let none = BatteryManager::new(None, &files());
    assert_eq!(none.set_charge_limit(true, 80).err(), s("No battery found"));
    assert_eq!(none.info.capacity, 0);
    assert_eq!(none.bat_name(), "Unknown");
    assert_eq!(m.bat_name(), "BAT1");
}

#[test]
fn a_written_limit_is_read_back() {
    let m = BatteryManager::new(s("BAT0"), &files());
    for limit in [0u8, 20, 60, 99, 100, 255] {
        let w = m.set_charge_limit(true, limit).unwrap_or_else(|e| panic!("{}", e));
        let mut f = files();
        f.charge_limit = Some(w.value);
        assert_eq!(read_info(&f).charge_limit, limit);
    }
}

#[test]
fn refreshing_reads_again_where_there_is_a_battery() {
    let mut m = BatteryManager::new(s("BAT0"), &no_files());
    assert_eq!(m.info.capacity, 0);
    m.refresh(&files());
    assert_eq!(m.info.capacity, 77);
    let mut none = BatteryManager::new(None, &files());
    none.refresh(&files());
    assert_eq!(none.info.capacity, 0);
}

#[test]
fn setup_script() {
    let script = BatteryManager::new(s("BAT1"), &files()).run_setup(65);
    assert!(script.starts_with("#!/usr/bin/env bash\nset -e\n\nRULE_FILE="));
    assert!(script.contains("echo \"65\" > \"$CONF_FILE\""));
    assert!(script.contains("xargs -I{} bash -c 'echo {} | tee /sys/class/power_supply/BAT1/charge_control_end_threshold'\"\nRemainAfterExit=yes"));
    assert!(script.ends_with("echo \"ZHelper setup complete.\"\n"));
    let script = BatteryManager::new(None, &files()).run_setup(65);
    assert!(script.contains("/sys/class/power_supply/BAT0/charge_control"));
}

#[test]
fn persistent_limit() {
    let w = BatteryManager::new(None, &files()).update_persistent_limit(70);
    assert_eq!(w.path, "/etc/zhelper/charge_limit");
    assert_eq!(w.value, "70");
}

#[test]
fn outcomes_of_writing_a_limit() {
    let fail = |kind: FailureKind| {
        Err(WriteFailure { kind, os_code: None, message: "boom".to_string() })
    };
    assert!(matches!(limit_written(Ok(())), WriteStep::Done));
    assert!(matches!(limit_written(fail(FailureKind::PermissionDenied)), WriteStep::Privileged));
    match limit_written(fail(FailureKind::Other)) {
        WriteStep::Fail(m) => assert_eq!(m, "Write error: boom"),
        _ => panic!("no failure"),
    }
    assert!(matches!(persistent_limit_written(Ok(())), WriteStep::Done));
    assert!(matches!(
        persistent_limit_written(fail(FailureKind::PermissionDenied)),
        WriteStep::Privileged
    ));
    match persistent_limit_written(fail(FailureKind::Different)) {
        WriteStep::Fail(m) => assert_eq!(m, "boom"),
        _ => panic!("no failure"),
    }
}

#[test]
fn outcomes_of_writing_a_limit_with_rights() {
    let e = |x: &str| x.to_string();
    assert_eq!(write_privileged(Err(e("pipe"))), Err(e("Stdin write error: pipe")));
    assert_eq!(
        write_privileged(Ok(PipedResult::LaunchFailed(e("x")))),
        Err(e("Failed to launch pkexec: x\nRun Setup to configure permissions."))
    );
    assert_eq!(
        write_privileged(Ok(PipedResult::WaitFailed(e("x")))),
        Err(e("pkexec wait failed: x"))
    );
    assert_eq!(
        write_privileged(Ok(PipedResult::Exited { success: true, stderr: vec![1] })),
        Ok(())
    );
    assert_eq!(
        write_privileged(Ok(PipedResult::Exited { success: false, stderr: vec![b'n', b'o'] })),
        Err(e("Permission denied.\nRun Setup to configure passwordless battery control.\nno"))
    );
}

#[test]
fn outcomes_of_the_setup() {
    let e = |x: &str| x.to_string();
    let done = |success: bool| ProcessResult::Done {
        success,
        stdout: Vec::new(),
        stderr: b"bad".to_vec(),
    };
    assert_eq!(setup_result(Err(e("full"))), Err(e("Failed to write setup script: full")));
    assert_eq!(setup_result(Ok(ProcessResult::Failed(e("x")))), Err(e("pkexec failed: x")));
    assert_eq!(setup_result(Ok(done(true))), Ok(()));
    assert_eq!(setup_result(Ok(done(false))), Err(e("Setup failed:\nbad")));
}

#[test]
fn a_limit_persists_where_the_service_is_active() {
    assert_eq!(service_command(), vec!["is-active", "--quiet", "battery-charge-limit.service"]);
    let done = |success: bool| ProcessResult::Done {
        success,
        stdout: b"active".to_vec(),
        stderr: Vec::new(),
    };
    assert!(service_active(done(true)));
    assert!(!service_active(done(false)));
    assert!(!service_active(ProcessResult::Failed("gone".to_string())));
    for active in [true, false] {
        let mut f = files();
        f.service_active = active;
        assert_eq!(read_info(&f).persistent_enabled, active);
    }
}

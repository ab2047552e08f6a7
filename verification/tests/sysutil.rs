use zhelper::process::{err_msg, ProcessResult};
use zhelper::sysutil::{
    ac_connected, count_cpus, read_cpu_temp, tee_command, write_asus, write_privileged, write_sysfs,
    FailureKind, PipedResult, SupplyFiles, WriteFailure, WriteStep, ZoneFiles,
};

fn s(x: &str) -> Option<String> {
    Some(x.to_string())
}

fn failure(kind: FailureKind, os_code: Option<i32>) -> Result<(), WriteFailure> {
    Err(WriteFailure { kind, os_code, message: "boom".to_string() })
}

fn supply(kind: &str, online: Option<&str>) -> SupplyFiles {
    SupplyFiles { kind: s(kind), online: online.map(|x| x.to_string()) }
}

fn zone(name: &str, kind: Option<&str>, temp: Option<&str>) -> ZoneFiles {
    ZoneFiles {
        name: s(name),
        kind: kind.map(|x| x.to_string()),
        temp: temp.map(|x| x.to_string()),
    }
}

#[test]
fn driver_files_have_the_driver_path() {
    let w = write_asus("throttle_thermal_policy", "2");
    assert_eq!(w.path, "/sys/devices/platform/asus-nb-wmi/throttle_thermal_policy");
    assert_eq!(w.value, "2");
    assert_eq!(tee_command("/x/y"), vec!["tee".to_string(), "/x/y".to_string()]);
}

#[test]
fn a_write_that_succeeds_is_done() {
    assert!(matches!(write_sysfs(0, Ok(())), WriteStep::Done));
    assert!(matches!(write_sysfs(2, Ok(())), WriteStep::Done));
}

#[test]
fn a_forbidden_write_asks_for_rights() {
    let step = write_sysfs(1, failure(FailureKind::PermissionDenied, Some(13)));
    assert!(matches!(step, WriteStep::Privileged));
}

#[test]
fn a_busy_device_is_tried_three_times() {
    for a in 0..2 {
        assert!(matches!(
            write_sysfs(a, failure(FailureKind::Different, Some(5))),
            WriteStep::Retry
        ));
        assert!(matches!(write_sysfs(a, failure(FailureKind::Other, None)), WriteStep::Retry));
    }
    match write_sysfs(2, failure(FailureKind::Other, Some(5))) {
        WriteStep::Fail(m) => assert_eq!(m, "Write error (device may be busy): boom"),
        _ => panic!("no failure"),
    }
}

#[test]
fn another_failure_is_reported_at_once() {
    match write_sysfs(0, failure(FailureKind::Different, Some(2))) {
        WriteStep::Fail(m) => assert_eq!(m, "Write error: boom"),
        _ => panic!("no failure"),
    }
}

#[test]
fn privileged_writes_report_what_came_of_them() {
    assert_eq!(
        write_privileged(PipedResult::LaunchFailed("gone".to_string())),
        Err("Failed to launch pkexec: gone".to_string())
    );
    assert_eq!(
        write_privileged(PipedResult::WaitFailed("x".to_string())),
        Err("pkexec wait failed: x".to_string())
    );
    assert_eq!(
        write_privileged(PipedResult::Exited { success: true, stderr: Vec::new() }),
        Ok(())
    );
    assert_eq!(
        write_privileged(PipedResult::Exited { success: false, stderr: vec![b'n', b'o', 0xff] }),
        Err("Permission denied or write failed.\nno\u{fffd}".to_string())
    );
}

#[test]
fn mains_power() {
    assert!(!ac_connected(&Vec::new()));
    assert!(ac_connected(&vec![supply("Battery\n", Some("1")), supply("Mains\n", Some("1\n"))]));
    assert!(!ac_connected(&vec![supply("Mains", Some("0")), supply("Mains", Some("1"))]));
    assert!(ac_connected(&vec![supply("Mains", None), supply("Mains", Some("1"))]));
    assert!(!ac_connected(&vec![supply("USB", Some("1"))]));
}

#[test]
fn processor_temperature() {
    let zones = vec![
        zone("cooling_device0", None, None),
        zone("thermal_zone0", Some("acpitz\n"), Some("30000")),
        zone("thermal_zone1", Some("x86_pkg_temp\n"), Some(" 45500\n")),
    ];
    assert_eq!(read_cpu_temp(&zones), s("45500"));
    assert_eq!(read_cpu_temp(&vec![zone("thermal_zone0", None, None)]), None);
    assert_eq!(read_cpu_temp(&vec![zone("thermal_zone0", Some("Tctl"), Some("warm"))]), None);
    assert_eq!(read_cpu_temp(&vec![zone("thermal_zone0", Some("k10temp"), Some("4e4"))]), s("4e4"));
    assert_eq!(
        read_cpu_temp(&vec![ZoneFiles { name: None, kind: s("Tdie"), temp: s("1") }]),
        None
    );
}

#[test]
fn processors_are_counted() {
    assert_eq!(count_cpus(&None), 1);
    assert_eq!(count_cpus(&s("")), 0);
    assert_eq!(
        count_cpus(&s("processor\t: 0\nmodel name: x\n\nprocessor\t: 1\n processor: 2\n")),
        2
    );
}

#[test]
fn error_output_is_read_with_replacements() {
    assert_eq!(err_msg(b" not found \n"), "not found");
    assert_eq!(err_msg(&[b'a', 0xc3, b'b']), "a\u{fffd}b");
}

#[test]
fn output_counts_where_the_program_succeeded() {
    let done = |success: bool, stdout: &[u8]| ProcessResult::Done {
        success,
        stdout: stdout.to_vec(),
        stderr: Vec::new(),
    };
    assert_eq!(done(true, "h\u{e9}".as_bytes()).into_stdout(), s("h\u{e9}"));
    assert_eq!(done(true, &[0xff]).into_stdout(), None);
    assert_eq!(done(false, b"hi").into_stdout(), None);
    assert_eq!(ProcessResult::Failed("x".to_string()).into_stdout(), None);
}

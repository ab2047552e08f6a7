use zhelper::gpu::{
    adapter_slot, is_adapter_line, mode_written, read_adapter_name, read_gpu_names, read_mode,
    read_queued_mode, shorten_gpu_name, GpuFiles, GpuManager, GpuMode, Slot,
};
use zhelper::process::ProcessResult;
use zhelper::sysutil::{FailureKind, WriteFailure, WriteStep};

fn s(x: &str) -> Option<String> {
    Some(x.to_string())
}

fn listing(text: &str) -> ProcessResult {
    ProcessResult::Done { success: true, stdout: text.as_bytes().to_vec(), stderr: Vec::new() }
}

fn files(dgpu: Option<&str>, mux: Option<&str>, pending: Option<&str>) -> GpuFiles {
    GpuFiles {
        dgpu_disable: dgpu.map(|x| x.to_string()),
        gpu_mux_mode: mux.map(|x| x.to_string()),
        pending: pending.map(|x| x.to_string()),
    }
}

#[test]
fn modes() {
    assert_eq!(GpuMode::Integrated.label(), "Integrated");
    assert_eq!(GpuMode::Unknown.label(), "Unknown");
    assert_eq!(GpuMode::Hybrid.description(), "iGPU + dGPU both active, on-demand rendering");
    assert_eq!(GpuMode::Unknown.description(), "");
    assert_eq!(
        GpuMode::variants(true),
        vec![GpuMode::Integrated, GpuMode::Hybrid, GpuMode::Ultimate]
    );
    assert_eq!(GpuMode::variants(false), vec![GpuMode::Integrated, GpuMode::Hybrid]);
    assert_eq!(GpuMode::Ultimate.index(false), 1);
    assert_eq!(GpuMode::Unknown.index(true), 0);
    for mux in [true, false] {
        for (i, m) in GpuMode::variants(mux).iter().enumerate() {
            assert_eq!(m.index(mux), i);
        }
    }
    assert_eq!(GpuMode::Integrated.firmware_values(), (1, 1));
    assert_eq!(GpuMode::Hybrid.firmware_values(), (0, 1));
    assert_eq!(GpuMode::Ultimate.firmware_values(), (0, 0));
    assert_eq!(GpuMode::Unknown.firmware_values(), (0, 1));
}

#[test]
fn the_mode_in_use() {
    assert_eq!(read_mode(true, &s("1\n"), &s("0\n")), GpuMode::Integrated);
    assert_eq!(read_mode(true, &s("0"), &s("0")), GpuMode::Ultimate);
    assert_eq!(read_mode(true, &None, &s("1")), GpuMode::Hybrid);
    assert_eq!(read_mode(true, &None, &None), GpuMode::Hybrid);
    assert_eq!(read_mode(false, &s("1"), &s("0")), GpuMode::Integrated);
    assert_eq!(read_mode(false, &s("0"), &s("0")), GpuMode::Hybrid);
    assert_eq!(read_mode(false, &s("2"), &None), GpuMode::Unknown);
    assert_eq!(read_mode(false, &None, &None), GpuMode::Unknown);
}

#[test]
fn the_mode_for_the_next_start() {
    assert_eq!(read_queued_mode(true, &s("1,1\n")), Some(GpuMode::Integrated));
    assert_eq!(read_queued_mode(true, &s(" 0 , 0 ")), Some(GpuMode::Ultimate));
    assert_eq!(read_queued_mode(true, &s("0,1")), Some(GpuMode::Hybrid));
    assert_eq!(read_queued_mode(true, &s("7,7")), Some(GpuMode::Hybrid));
    assert_eq!(read_queued_mode(false, &s("0,0")), Some(GpuMode::Hybrid));
    assert_eq!(read_queued_mode(false, &s("2,0")), None);
    assert_eq!(read_queued_mode(true, &s("1")), None);
    assert_eq!(read_queued_mode(true, &s("1,1,1")), None);
    assert_eq!(read_queued_mode(true, &s("1,x")), None);
    assert_eq!(read_queued_mode(true, &None), None);
}

#[test]
fn a_queued_mode_is_read_back() {
    for mux in [true, false] {
        for &m in GpuMode::variants(mux) {
            let mut g = GpuManager::new(true, mux, &files(None, None, None), listing(""));
            g.pending_mode = m;
            let w = g.queue_request().unwrap_or_else(|e| panic!("{}", e));
            assert_eq!(w.path, "/etc/zhelper/gpu_pending");
            assert_eq!(read_queued_mode(mux, &Some(w.value)), Some(m));
        }
    }
}

#[test]
fn lines_about_adapters() {
    assert!(is_adapter_line("01:00.0 vga compatible controller: x"));
    assert!(is_adapter_line("01:00.0 3d controller: x"));
    assert!(is_adapter_line("01:00.0 display controller: x"));
    assert!(!is_adapter_line("01:00.0 audio device: x"));
    let cs = |x: &str| x.chars().collect::<Vec<char>>();
    assert_eq!(
        read_adapter_name(&cs("01:00.0 VGA compatible controller: NVIDIA GA106 (rev a1)")),
        s("NVIDIA GA106")
    );
    assert_eq!(read_adapter_name(&cs("01:00.0")), None);
    assert_eq!(read_adapter_name(&cs("01:00.0 VGA")), None);
    assert_eq!(adapter_slot("intel uhd"), Some(Slot::Integrated));
    assert_eq!(adapter_slot("nvidia x"), Some(Slot::Dedicated));
    assert_eq!(adapter_slot("advanced micro devices rembrandt"), Some(Slot::Integrated));
    assert_eq!(adapter_slot("amd radeon rx 6800"), Some(Slot::Dedicated));
    assert_eq!(adapter_slot("amd radeon pro"), Some(Slot::Dedicated));
    assert_eq!(adapter_slot("matrox"), None);
}

#[test]
fn adapter_names_are_shortened() {
    assert_eq!(
        shorten_gpu_name("NVIDIA Corporation GA106M [GeForce RTX 3060 Mobile / Max-Q]"),
        "NVIDIA GeForce RTX 3060 Mobile / Max-Q"
    );
    assert_eq!(
        shorten_gpu_name("Advanced Micro Devices, Inc. [AMD/ATI] Rembrandt [Radeon 680M]"),
        "AMD Radeon 680M"
    );
    assert_eq!(shorten_gpu_name("Intel Corporation UHD Graphics"), "Intel UHD Graphics");
    assert_eq!(shorten_gpu_name("odd ] name ["), "odd ] name [");
}

#[test]
fn adapters_are_listed() {
    let text = "00:00.0 Host bridge: Intel Corporation Bridge\n\
        01:00.0 3D controller: NVIDIA Corporation GA106M [GeForce RTX 3060] (rev a1)\n\
        06:00.0 VGA compatible controller: Advanced Micro Devices, Inc. [AMD/ATI] Rembrandt [Radeon 680M] (rev c8)\n";
    assert_eq!(
        read_gpu_names(listing(text)),
        (s("AMD Radeon 680M"), s("NVIDIA GeForce RTX 3060"))
    );
    assert_eq!(read_gpu_names(ProcessResult::Failed("x".to_string())), (None, None));
    let failed = ProcessResult::Done {
        success: false,
        stdout: text.as_bytes().to_vec(),
        stderr: Vec::new(),
    };
    assert_eq!(read_gpu_names(failed), (None, None));
}

#[test]
fn the_manager_starts_with_what_is_queued() {
    let g = GpuManager::new(true, true, &files(Some("0"), Some("1"), Some("1,1")), listing(""));
    assert_eq!(g.mode, GpuMode::Hybrid);
    assert_eq!(g.queued_mode, Some(GpuMode::Integrated));
    assert_eq!(g.pending_mode, GpuMode::Integrated);
    let g = GpuManager::new(false, false, &files(Some("0"), None, None), listing(""));
    assert_eq!(g.mode, GpuMode::Unknown);
    assert_eq!(g.pending_mode, GpuMode::Unknown);
    assert_eq!(
        g.queue_request().err(),
        s("ASUS WMI not available on this device")
    );
}

#[test]
fn steps_through_the_modes() {
    let mut g = GpuManager::new(true, true, &files(Some("1"), Some("1"), None), listing(""));
    g.choose_previous();
    assert_eq!(g.pending_mode, GpuMode::Integrated);
    g.choose_next();
    assert_eq!(g.pending_mode, GpuMode::Hybrid);
    g.choose_next();
    g.choose_next();
    assert_eq!(g.pending_mode, GpuMode::Ultimate);
    g.choose_previous();
    assert_eq!(g.pending_mode, GpuMode::Hybrid);
    g.refresh(&files(Some("0"), Some("0"), Some("0,1")));
    assert_eq!(g.mode, GpuMode::Ultimate);
    assert_eq!(g.queued_mode, Some(GpuMode::Hybrid));
    assert_eq!(g.pending_mode, GpuMode::Hybrid);
}

#[test]
fn storing_a_mode() {
    let mut g = GpuManager::new(true, false, &files(Some("0"), None, None), listing(""));
    g.choose_previous();
    assert_eq!(g.queue_gpu_mode(Err("no".to_string())), Err("no".to_string()));
    assert_eq!(g.queued_mode, None);
    assert_eq!(g.queue_gpu_mode(Ok(())), Ok(()));
    assert_eq!(g.queued_mode, Some(GpuMode::Integrated));
    let fail = |kind: FailureKind| {
        Err(WriteFailure { kind, os_code: None, message: "boom".to_string() })
    };
    assert!(matches!(mode_written(Ok(())), WriteStep::Done));
    assert!(matches!(mode_written(fail(FailureKind::PermissionDenied)), WriteStep::Privileged));
    match mode_written(fail(FailureKind::Different)) {
        WriteStep::Fail(m) => assert_eq!(m, "Failed to write GPU config: boom"),
        _ => panic!("no failure"),
    }
}

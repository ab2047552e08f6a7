use zhelper::cpu::{
    section_kind, Choice, CpuFiles, CpuManager, FanFiles, PptFiles, PptKind, PptLimits,
    ThermalProfile,
};

fn s(x: &str) -> Option<String> {
    Some(x.to_string())
}

fn files() -> CpuFiles {
    CpuFiles {
        thermal_policy: s("0\n"),
        fans: vec![
            FanFiles { fan1_label: None, fan1_input: s("1"), fan2_label: s("x"), fan2_input: s("2") },
            FanFiles {
                fan1_label: s("cpu_fan\n"),
                fan1_input: s("2400\n"),
                fan2_label: s("gpu_fan\n"),
                fan2_input: s("off\n"),
            },
        ],
        governor: s("powersave\n"),
        governors: s("performance powersave\n"),
        epp: s("balance_power\n"),
        epps: s("default performance balance_power power\n"),
        boost: s("1\n"),
        ppt: PptFiles {
            apu_sppt: s("45\n"),
            fppt: s("65"),
            pl1_spl: s("150"),
            pl2_sppt: None,
            nv_boost: s("0"),
            nv_temp_target: s("87"),
        },
    }
}

#[test]
fn profiles() {
    let all = ThermalProfile::variants();
    assert_eq!(all, [ThermalProfile::Silent, ThermalProfile::Balanced, ThermalProfile::Turbo]);
    for (i, p) in all.into_iter().enumerate() {
        assert_eq!(p.index(), i);
        assert_eq!(p.sysfs_value(), i.to_string());
        assert_eq!(ThermalProfile::from_sysfs(p.sysfs_value()), p);
    }
    assert_eq!(ThermalProfile::from_sysfs(" 2\n"), ThermalProfile::Turbo);
    assert_eq!(ThermalProfile::from_sysfs("3"), ThermalProfile::Unknown);
    assert_eq!(ThermalProfile::Unknown.index(), 1);
    assert_eq!(ThermalProfile::Unknown.sysfs_value(), "1");
    assert_eq!(ThermalProfile::Unknown.label(), "Unknown");
    assert_eq!(ThermalProfile::Silent.label(), "Silent");
    assert_eq!(
        ThermalProfile::Balanced.description(),
        "Adaptive fan curve for everyday use"
    );
    assert_eq!(ThermalProfile::Unknown.description(), "");
}

#[test]
fn limits_are_got_and_set() {
    let mut l = PptLimits {
        apu_sppt: Some(1),
        fppt: Some(2),
        pl1_spl: Some(3),
        pl2_sppt: Some(4),
        nv_boost: Some(5),
        nv_temp_target: Some(6),
    };
    for section in 4..10usize {
        let k = section_kind(section);
        assert_eq!(l.get(k), Some(section as u32 - 3));
        l.set(k, Some(section as u32));
        assert_eq!(l.get(k), Some(section as u32));
    }
    l.set(PptKind::Fppt, None);
    assert_eq!(l.get(PptKind::Fppt), None);
    assert_eq!(l.get(PptKind::ApuSppt), Some(4));
    assert_eq!(PptKind::ApuSppt.max(), 150);
    assert_eq!(PptKind::NvTempTarget.max(), 100);
}

#[test]
fn steps_through_a_choice() {
    let c = Choice {
        current: "b".to_string(),
        available: vec!["a".to_string(), "b".to_string(), "c".to_string()],
    };
    assert_eq!(c.next(&"a".to_string()), "b");
    assert_eq!(c.previous(&"b".to_string()), "a");
    assert_eq!(c.previous(&"a".to_string()), "a");
    assert_eq!(c.next(&"c".to_string()), "c");
    assert_eq!(c.next(&"unknown".to_string()), "b");
    assert_eq!(c.previous(&"unknown".to_string()), "a");
    let none = Choice { current: "".to_string(), available: Vec::new() };
    assert_eq!(none.next(&"x".to_string()), "x");
    assert_eq!(none.previous(&"x".to_string()), "x");
}

#[test]
fn the_processor_is_read() {
    let c = CpuManager::new(true, true, &files());
    assert_eq!(c.thermal_profile, ThermalProfile::Silent);
    assert_eq!(c.pending_thermal, ThermalProfile::Silent);
    assert_eq!(c.fan_cpu_rpm, Some(2400));
    assert_eq!(c.fan_gpu_rpm, None);
    assert_eq!(c.governor.current, "powersave");
    assert_eq!(c.governor.available, vec!["performance".to_string(), "powersave".to_string()]);
    assert_eq!(c.pending_governor, "powersave");
    assert_eq!(c.pending_epp, "balance_power");
    assert!(c.boost_enabled && c.pending_boost);
    assert_eq!(c.ppt.get(PptKind::ApuSppt), Some(45));
    assert_eq!(c.pending_ppt.get(PptKind::Pl2Sppt), None);
    assert_eq!(c.cpu_temp, None);
}

#[test]
fn without_the_firmware_nothing_is_known() {
    let c = CpuManager::new(false, false, &files());
    assert_eq!(c.thermal_profile, ThermalProfile::Unknown);
    assert_eq!(c.fan_cpu_rpm, None);
    assert!(!c.boost_enabled);
    for section in 4..10usize {
        assert_eq!(c.ppt.get(section_kind(section)), None);
    }
    assert_eq!(c.governor.current, "powersave");
}

#[test]
fn refreshing_keeps_what_is_chosen() {
    let mut c = CpuManager::new(true, true, &files());
    c.raise(0);
    c.lower(3);
    let mut f = files();
    f.thermal_policy = None;
    f.boost = s("yes");
    f.fans = Vec::new();
    f.epp = None;
    f.epps = None;
    c.refresh(&f, Some(61000));
    assert_eq!(c.thermal_profile, ThermalProfile::Unknown);
    assert_eq!(c.pending_thermal, ThermalProfile::Balanced);
    assert!(!c.boost_enabled && !c.pending_boost);
    assert_eq!(c.fan_cpu_rpm, Some(2400));
    assert_eq!(c.cpu_temp, Some(61000));
    assert_eq!(c.epp.current, "");
    assert_eq!(c.epp.available.len(), 0);
    assert_eq!(c.pending_epp, "balance_power");
}

#[test]
fn settings_go_down_and_up() {
    let mut c = CpuManager::new(true, true, &files());
    c.lower(0);
    assert_eq!(c.pending_thermal, ThermalProfile::Silent);
    c.raise(0);
    c.raise(0);
    c.raise(0);
    assert_eq!(c.pending_thermal, ThermalProfile::Turbo);
    c.lower(1);
    assert_eq!(c.pending_governor, "performance");
    c.raise(2);
    assert_eq!(c.pending_epp, "power");
    c.lower(3);
    assert!(!c.pending_boost);
    c.raise(3);
    assert!(c.pending_boost);
    c.raise(4);
    assert_eq!(c.pending_ppt.get(PptKind::ApuSppt), Some(46));
    c.lower(4);
    assert_eq!(c.pending_ppt.get(PptKind::ApuSppt), Some(45));
    c.raise(6);
    assert_eq!(c.pending_ppt.get(PptKind::Pl1Spl), Some(150));
    c.raise(7);
    c.lower(7);
    assert_eq!(c.pending_ppt.get(PptKind::Pl2Sppt), None);
    c.lower(8);
    assert_eq!(c.pending_ppt.get(PptKind::NvBoost), Some(0));
    c.pending_ppt.set(PptKind::NvTempTarget, Some(170));
    c.raise(9);
    assert_eq!(c.pending_ppt.get(PptKind::NvTempTarget), Some(100));
    assert_eq!(c.ppt.get(PptKind::ApuSppt), Some(45));
}

#[test]
fn requests() {
    let mut c = CpuManager::new(true, true, &files());
    let w = c.thermal_request();
    assert_eq!(w.path, "/sys/devices/platform/asus-nb-wmi/throttle_thermal_policy");
    assert_eq!(w.value, "0");
    let w = c.boost_request();
    assert_eq!(w.path, "/sys/devices/system/cpu/cpufreq/boost");
    assert_eq!(w.value, "1");
    c.lower(3);
    assert_eq!(c.boost_request().value, "0");
    let w = c.governor_request(11);
    assert_eq!(w.path, "/sys/devices/system/cpu/cpu11/cpufreq/scaling_governor");
    assert_eq!(w.value, "powersave");
    let w = c.epp_request(0);
    assert_eq!(w.path, "/sys/devices/system/cpu/cpu0/cpufreq/energy_performance_preference");
    assert_eq!(w.value, "balance_power");
    let w = c.ppt_request(PptKind::Fppt).unwrap_or_else(|e| panic!("{}", e));
    assert_eq!(w.path, "/sys/devices/platform/asus-nb-wmi/ppt_fppt");
    assert_eq!(w.value, "65");
    assert_eq!(c.ppt_request(PptKind::Pl2Sppt).err(), s("PL2 is not available"));
}

#[test]
fn what_is_set_comes_into_use() {
    let mut c = CpuManager::new(true, true, &files());
    c.raise(0);
    assert_eq!(c.apply_thermal_profile(Err("no".to_string())), Err("no".to_string()));
    assert_eq!(c.thermal_profile, ThermalProfile::Silent);
    assert_eq!(c.apply_thermal_profile(Ok(())), Ok(()));
    assert_eq!(c.thermal_profile, ThermalProfile::Balanced);
    c.lower(1);
    assert_eq!(c.apply_governor(Ok(())), Ok(()));
    assert_eq!(c.governor.current, "performance");
    assert_eq!(c.governor.available.len(), 2);
    c.raise(2);
    assert_eq!(c.apply_epp(Err("e".to_string())), Err("e".to_string()));
    assert_eq!(c.epp.current, "balance_power");
    assert_eq!(c.apply_epp(Ok(())), Ok(()));
    assert_eq!(c.epp.current, "power");
    c.lower(3);
    assert_eq!(c.apply_boost(Ok(())), Ok(()));
    assert!(!c.boost_enabled);
    c.raise(5);
    assert_eq!(c.apply_ppt(PptKind::Fppt, Ok(())), Ok(()));
    assert_eq!(c.ppt.get(PptKind::Fppt), Some(66));
}

#[test]
fn what_is_written_is_read_back() {
    for p in ThermalProfile::variants() {
        let mut c = CpuManager::new(true, true, &files());
        c.pending_thermal = p;
        let mut f = files();
        f.thermal_policy = Some(c.thermal_request().value);
        assert_eq!(CpuManager::new(true, true, &f).thermal_profile, p);
    }
    for on in [true, false] {
        let mut c = CpuManager::new(true, true, &files());
        c.pending_boost = on;
        let mut f = files();
        f.boost = Some(c.boost_request().value);
        assert_eq!(CpuManager::new(true, true, &f).boost_enabled, on);
    }
    for v in [0u32, 45, 150, u32::MAX] {
        let mut c = CpuManager::new(true, true, &files());
        c.pending_ppt.set(PptKind::Fppt, Some(v));
        let w = c.ppt_request(PptKind::Fppt).unwrap_or_else(|e| panic!("{}", e));
        let mut f = files();
        f.ppt.fppt = Some(w.value);
        assert_eq!(CpuManager::new(true, true, &f).ppt.get(PptKind::Fppt), Some(v));
    }
}

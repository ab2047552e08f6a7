use zhelper::system::{
    find_cpu_zone, find_gpu_zone, guess_cpu_temp, guess_gpu_temp, parse_kb_line, read_cpu_model,
    read_meminfo, read_thermal_zones, where_listed, HwmonFiles, MemoryShare, SensorFiles, SystemFiles,
    SystemInfo, ThermalZone,
};
use zhelper::sysutil::{SupplyFiles, ZoneFiles};

fn s(x: &str) -> Option<String> {
    Some(x.to_string())
}

fn zone(name: &str, kind: Option<&str>, temp: Option<&str>) -> ZoneFiles {
    ZoneFiles {
        name: s(name),
        kind: kind.map(|x| x.to_string()),
        temp: temp.map(|x| x.to_string()),
    }
}

fn sensor(index: u8, temp: &str, label: Option<&str>) -> SensorFiles {
    SensorFiles { index, temp: s(temp), label: label.map(|x| x.to_string()) }
}

fn named(names: &[&str]) -> Vec<ThermalZone> {
    let mut v = Vec::new();
    for (i, n) in names.iter().enumerate() {
        v.push(ThermalZone { name: n.to_string(), temp: 1000 * i as i64 });
    }
    v
}

#[test]
fn processor_model() {
    let info = "processor : 0\nmodel name\t: Intel(R) Core(TM)  i9-13900H : x\nmodel name: y\n";
    assert_eq!(read_cpu_model(&s(info)), s("Intel Core i9-13900H : x"));
    assert_eq!(read_cpu_model(&s("model name\nmodel name: x")), None);
    assert_eq!(read_cpu_model(&s("vendor: x")), None);
    assert_eq!(read_cpu_model(&None), None);
}

#[test]
fn zones_are_named_and_sorted() {
    let zones = vec![
        zone("thermal_zone1", Some("x86_pkg_temp\n"), Some("45000\n")),
        zone("cooling_device0", Some("fan"), Some("1")),
        zone("thermal_zone0", None, Some("-1500")),
        zone("thermal_zone2", Some("broken"), Some("hot")),
    ];
    let hwmon = vec![
        HwmonFiles {
            name: s("nvme\n"),
            sensors: vec![sensor(1, "38850", Some("Composite\n")), sensor(3, "40000", None)],
        },
        HwmonFiles {
            name: None,
            sensors: vec![sensor(2, "1", Some("Composite")), sensor(8, "2000", None)],
        },
    ];
    let got: Vec<(String, i64)> =
        read_thermal_zones(&zones, &hwmon).into_iter().map(|z| (z.name, z.temp)).collect();
    let want: Vec<(String, i64)> = vec![
        ("/8".to_string(), 2000),
        ("Composite".to_string(), 38850),
        ("nvme/3".to_string(), 40000),
        ("thermal_zone0".to_string(), -1500),
        ("x86_pkg_temp".to_string(), 45000),
    ];
    assert_eq!(got, want);
}

#[test]
fn zones_of_one_name_stay_in_order() {
    let zones = vec![
        zone("thermal_zone0", Some("b"), Some("1")),
        zone("thermal_zone1", Some("a"), Some("2")),
        zone("thermal_zone2", Some("b"), Some("3")),
    ];
    let got: Vec<i64> =
        read_thermal_zones(&zones, &Vec::new()).into_iter().map(|z| z.temp).collect();
    assert_eq!(got, vec![2, 1, 3]);
}

#[test]
fn the_processor_is_guessed_by_the_best_name() {
    assert_eq!(guess_cpu_temp(&named(&["acpitz", "coretemp/1", "X86_PKG_TEMP"])), Some(2000));
    assert_eq!(guess_cpu_temp(&named(&["acpitz", "Tctl", "Tdie"])), Some(2000));
    assert_eq!(guess_cpu_temp(&named(&["a", "PACKAGE ID 0"])), Some(1000));
    assert_eq!(guess_cpu_temp(&named(&["a", "b"])), Some(0));
    assert_eq!(guess_cpu_temp(&Vec::new()), None);
}

#[test]
fn the_graphics_are_guessed_by_the_best_name() {
    assert_eq!(guess_gpu_temp(&named(&["a gpu", "nvidia", "AmdGPU edge"])), Some(2000));
    assert_eq!(guess_gpu_temp(&named(&["a gpu", "b"])), Some(0));
    assert_eq!(guess_gpu_temp(&named(&["a", "b"])), None);
}

#[test]
fn zones_are_found_by_lower_case_names() {
    let names = |v: &[&str]| v.iter().map(|x| x.to_string()).collect::<Vec<String>>();
    assert_eq!(find_cpu_zone(&names(&["acpitz", "k10temp"])), Some(1));
    assert_eq!(find_cpu_zone(&names(&["K10TEMP", "z"])), Some(0));
    assert_eq!(find_cpu_zone(&names(&[])), None);
    assert_eq!(find_gpu_zone(&names(&["gpu", "nouveau"])), Some(1));
    assert_eq!(find_gpu_zone(&names(&["GPU"])), None);
}

#[test]
fn memory_lines() {
    let cs = |x: &str| x.chars().collect::<Vec<char>>();
    assert_eq!(parse_kb_line(&cs("MemTotal:      16384 kB")), Some(16384));
    assert_eq!(parse_kb_line(&cs("MemTotal:")), None);
    assert_eq!(parse_kb_line(&cs("MemTotal: many")), None);
    let info = "MemTotal: 16384 kB\nMemFree: 1 kB\nMemAvailable: 4096 kB\nMemTotal: 1 kB\n";
    assert_eq!(read_meminfo(&s(info)), Some((16384, 4096)));
    assert_eq!(read_meminfo(&s("MemTotal: 5 kB\nMemTotal: 6 kB\nMemAvailable: 4 kB")), Some((6, 4)));
    assert_eq!(read_meminfo(&s("MemTotal: 5 kB\n")), None);
    assert_eq!(read_meminfo(&None), None);
}

fn system_files(meminfo: Option<String>) -> SystemFiles {
    SystemFiles {
        cpuinfo: s("model name: Ryzen\n"),
        zones: vec![
            zone("thermal_zone0", Some("k10temp"), Some("50000")),
            zone("thermal_zone1", Some("amdgpu"), Some("60000")),
        ],
        hwmon: Vec::new(),
        supplies: vec![SupplyFiles { kind: s("Mains"), online: s("1") }],
        meminfo,
    }
}

#[test]
fn the_system_is_read() {
    let mut i = SystemInfo::new(&system_files(s("MemTotal: 16777216 kB\nMemAvailable: 4194304 kB\n")));
    assert_eq!(i.cpu_model, s("Ryzen"));
    assert_eq!(i.cpu_temp, Some(50000));
    assert_eq!(i.gpu_temp, Some(60000));
    assert!(i.ac_connected);
    assert_eq!(i.mem_total_mb, Some(16384));
    assert_eq!(i.mem_available_mb, Some(4096));
    assert_eq!(i.mem_used_mb, Some(12288));
    assert_eq!(
        i.mem_used_percent(),
        Some(MemoryShare { total_mb: 16384, available_mb: 4096 })
    );
    i.refresh(&system_files(None));
    assert_eq!(i.mem_total_mb, Some(16384));
    assert_eq!(SystemInfo::new(&system_files(None)).mem_total_mb, None);
    assert_eq!(SystemInfo::default().mem_used_percent(), None);
    let tiny = SystemInfo::new(&system_files(s("MemTotal: 1000 kB\nMemAvailable: 10 kB\n")));
    assert_eq!(tiny.mem_total_mb, Some(0));
    assert_eq!(tiny.mem_used_percent(), None);
}

#[test]
fn sensors_count_where_the_zones_are_listed() {
    let hwmon = || vec![HwmonFiles { name: s("nvme"), sensors: vec![sensor(1, "38850", None)] }];
    let (z, h) = where_listed(None, hwmon());
    assert_eq!((z.len(), h.len()), (0, 0));
    assert_eq!(read_thermal_zones(&z, &h).len(), 0);
    let (z, h) = where_listed(Some(Vec::new()), hwmon());
    assert_eq!(read_thermal_zones(&z, &h).len(), 1);
    let (z, h) = where_listed(Some(vec![zone("thermal_zone0", None, Some("1"))]), hwmon());
    assert_eq!(read_thermal_zones(&z, &h).len(), 2);
}

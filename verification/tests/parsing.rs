//! The normalizer, loose parsing, probe-output parsers and the merge
//! engine, exercised on concrete tool output.

use monitord::merge::{
    combine_temps, filter_positive_temps, gpus_from_components, merge_gpu_stats, merge_sensors,
    select_gpu_base,
};
use monitord::normalize::normalize_windows_thermal_zone_temp;
use monitord::numeric::{format_centi_1dp, parse_u64_loose, parse_value_loose, u64_dec_string};
use monitord::probes::{
    decode_cmd_stdout, is_lhm_cpu_temp_sensor, linux_zone_temp, parse_cim_temps,
    parse_lhm_snapshot, parse_nvidia_gpus, parse_nvidia_temps, parse_typeperf_temps,
    parse_wmic_temps, parse_windows_gpus, pick_fallback_temps,
};
use monitord::sensors::collect_builtin_sensor_stats;
use monitord::stats::{network_speed_totals, GpuStat, SensorStat, TempStat};
use monitord::system::{average_cpu_usage, disk_stat_from_raw, kb_to_bytes};

#[test]
fn thermal_zone_rule_is_stable_on_celsius() {
    // An already-correct Celsius value passes through unchanged.
    assert_eq!(normalize_windows_thermal_zone_temp(4550), Some(4550));
    // Kelvin readings lose the offset.
    assert_eq!(normalize_windows_thermal_zone_temp(31000), Some(3685));
    // Tenths of Kelvin are scaled first.
    assert_eq!(normalize_windows_thermal_zone_temp(308150), Some(3500));
    // Non-positive and implausible readings are rejected.
    assert_eq!(normalize_windows_thermal_zone_temp(0), None);
    assert_eq!(normalize_windows_thermal_zone_temp(-500), None);
    assert_eq!(normalize_windows_thermal_zone_temp(20001), None);
}

#[test]
fn loose_parsing_tries_three_stages() {
    assert_eq!(parse_value_loose("84.5"), Some(8450));
    assert_eq!(parse_value_loose("84,5"), Some(8450));
    assert_eq!(parse_value_loose(" 84.5% "), Some(8450));
    assert_eq!(parse_value_loose("-12.25"), Some(-1225));
    assert_eq!(parse_value_loose("42 C"), Some(4200));
    assert_eq!(parse_value_loose("n/a"), None);
    assert_eq!(parse_value_loose(""), None);
}

#[test]
fn loose_u64_clamps_negatives() {
    assert_eq!(parse_u64_loose("1024"), Some(1024));
    assert_eq!(parse_u64_loose("-3"), Some(0));
    assert_eq!(parse_u64_loose("7.9"), Some(7));
    assert_eq!(parse_u64_loose("x"), None);
}

#[test]
fn decimal_rendering_rounds_to_one_place() {
    assert_eq!(u64_dec_string(0), "0");
    assert_eq!(u64_dec_string(907), "907");
    assert_eq!(format_centi_1dp(8437), "84.4");
    assert_eq!(format_centi_1dp(9200), "92.0");
    assert_eq!(format_centi_1dp(-125), "-1.3");
}

#[test]
fn nvidia_csv_parses_fixed_columns() {
    let text = "0, GeForce RTX 3080, 45, 1024, 10240, 67\nbroken line\n";
    let gpus = parse_nvidia_gpus(text);
    assert_eq!(gpus.len(), 1);
    assert_eq!(gpus[0].id, "0");
    assert_eq!(gpus[0].name, "GeForce RTX 3080");
    assert_eq!(gpus[0].utilization_centi_pct, Some(4500));
    assert_eq!(gpus[0].memory_used_bytes, Some(1024 * 1024 * 1024));
    assert_eq!(gpus[0].memory_total_bytes, Some(10240 * 1024 * 1024));
    assert_eq!(gpus[0].temperature_centi, Some(6700));
}

#[test]
fn nvidia_temps_skip_non_positive() {
    let text = "GeForce RTX 3080, 67\nOther GPU, 0\n";
    let temps = parse_nvidia_temps(text);
    assert_eq!(temps.len(), 1);
    assert_eq!(temps[0].sensor, "GPU GeForce RTX 3080");
    assert_eq!(temps[0].temperature_centi, 6700);
}

#[test]
fn wmic_csv_normalizes_decikelvin() {
    let text = "Node,ACPI\\ThermalZone\\TZ00_0,3010\nshort\n";
    let temps = parse_wmic_temps(text);
    assert_eq!(temps.len(), 1);
    assert_eq!(temps[0].sensor, "ACPI ACPI\\ThermalZone\\TZ00_0 (fallback)");
    assert_eq!(temps[0].temperature_centi, 2785);
}

#[test]
fn cim_records_normalize_decikelvin() {
    let text = "CPU Zone|3010\n|3010\nGarbage\n";
    let temps = parse_cim_temps(text);
    assert_eq!(temps.len(), 1);
    assert_eq!(temps[0].sensor, "ACPI CPU Zone (fallback)");
    assert_eq!(temps[0].temperature_centi, 2785);
}

#[test]
fn typeperf_text_yields_hottest_counter() {
    let text = "\"01/02/2024 10:00:00.000\",\"3010.5\",\"2980.0\"\nExiting, please wait...\n";
    let temps = parse_typeperf_temps(text);
    assert_eq!(temps.len(), 1);
    assert_eq!(temps[0].sensor, "ACPI CPU thermal zone (fallback)");
    assert_eq!(temps[0].temperature_centi, 2790);
}

#[test]
fn linux_zone_divides_millidegrees() {
    let t = linux_zone_temp(Some("x86_pkg_temp\n"), "thermal_zone0", "45000\n").unwrap();
    assert_eq!(t.sensor, "x86_pkg_temp");
    assert_eq!(t.temperature_centi, 4500);

    let small = linux_zone_temp(None, "thermal_zone1", "52").unwrap();
    assert_eq!(small.sensor, "thermal_zone1");
    assert_eq!(small.temperature_centi, 5200);

    assert!(linux_zone_temp(None, "z", "0").is_none());
    assert!(linux_zone_temp(None, "z", "junk").is_none());
}

#[test]
fn windows_gpu_records_parse() {
    let text = "0|Intel UHD|37.5|104857600|2147483648\nshort|line\n";
    let gpus = parse_windows_gpus(text);
    assert_eq!(gpus.len(), 1);
    assert_eq!(gpus[0].id, "0");
    assert_eq!(gpus[0].name, "Intel UHD");
    assert_eq!(gpus[0].utilization_centi_pct, Some(3750));
    assert_eq!(gpus[0].memory_used_bytes, Some(104857600));
    assert_eq!(gpus[0].memory_total_bytes, Some(2147483648));
    assert!(gpus[0].temperature_centi.is_none());
}

#[test]
fn lhm_snapshot_collects_all_three_categories() {
    let text = "Temperature|CPU Package|55.5|50|60|/intelcpu/0/temperature/0|/intelcpu/0\nLoad|GPU Core|50|0|100|/gpu-nvidia/0/load/0|/gpu-nvidia/0\nSmallData|GPU Memory Used|512|0|1024|/gpu-nvidia/0/smalldata/0|/gpu-nvidia/0\n";
    let (temps, gpus, sensors) = parse_lhm_snapshot(text);

    assert_eq!(sensors.len(), 3);
    assert_eq!(sensors[0].sensor_type, "temperature");
    assert_eq!(sensors[0].identifier, "/intelcpu/0/temperature/0");
    assert_eq!(sensors[0].value_centi, 5550);
    assert_eq!(sensors[0].min_centi, Some(5000));
    assert_eq!(sensors[0].max_centi, Some(6000));

    assert_eq!(temps.len(), 1);
    assert_eq!(temps[0].sensor, "CPU CPU Package");
    assert_eq!(temps[0].temperature_centi, 5550);

    assert_eq!(gpus.len(), 1);
    assert_eq!(gpus[0].id, "0");
    assert_eq!(gpus[0].name, "/gpu-nvidia/0");
    assert_eq!(gpus[0].utilization_centi_pct, Some(5000));
    assert_eq!(gpus[0].memory_used_bytes, Some(512 * 1024 * 1024));
}

#[test]
fn lhm_fallback_picks_hottest_non_gpu() {
    let text = "Temperature|Edge|80|0|100|/gpu-amd/0/temperature/0|/gpu-amd/0\nTemperature|Tctl|65.5|0|100|/lpc/nct6791d/temperature/0|/lpc/nct6791d\n";
    let (temps, _gpus, _sensors) = parse_lhm_snapshot(text);
    assert_eq!(temps.len(), 1);
    assert_eq!(temps[0].sensor, "CPU Tctl");
    assert_eq!(temps[0].temperature_centi, 6550);
}

#[test]
fn lhm_cpu_marker_rules() {
    assert!(is_lhm_cpu_temp_sensor(
        "/intelcpu/0/temperature/0",
        "/intelcpu/0",
        "cpu package"
    ));
    assert!(!is_lhm_cpu_temp_sensor(
        "/gpu-nvidia/0/temperature/0",
        "/gpu-nvidia/0",
        "gpu core"
    ));
    assert!(!is_lhm_cpu_temp_sensor("/hdd/0/temperature/0", "/hdd/0", "hdd"));
}

#[test]
fn command_output_decodes_utf8_and_utf16() {
    assert_eq!(decode_cmd_stdout(b"abc"), "abc");
    assert_eq!(decode_cmd_stdout(&[0x3d, 0xd8, 0x00, 0xde]), "\u{1f600}");
    assert_eq!(decode_cmd_stdout(&[0xff]), "\u{fffd}");
}

fn gpu(id: &str, name: &str) -> GpuStat {
    GpuStat {
        id: id.to_string(),
        name: name.to_string(),
        utilization_centi_pct: None,
        memory_used_bytes: None,
        memory_total_bytes: None,
        temperature_centi: None,
    }
}

#[test]
fn gpu_merge_overlays_set_fields_only() {
    let mut base_gpu = gpu("0", "GeForce RTX 3080");
    base_gpu.utilization_centi_pct = Some(4500);
    base_gpu.memory_total_bytes = Some(10_000_000);

    let mut overlay = gpu("", "geforce rtx 3080");
    overlay.temperature_centi = Some(6700);
    overlay.memory_total_bytes = Some(12_000_000);

    let merged = merge_gpu_stats(vec![base_gpu], vec![overlay, gpu("7", "Other GPU")]);
    assert_eq!(merged.len(), 2);
    // Matched by case-insensitive name: overlay fields win, unset fields
    // pass through.
    assert_eq!(merged[0].id, "0");
    assert_eq!(merged[0].name, "geforce rtx 3080");
    assert_eq!(merged[0].utilization_centi_pct, Some(4500));
    assert_eq!(merged[0].temperature_centi, Some(6700));
    assert_eq!(merged[0].memory_total_bytes, Some(12_000_000));
    // Unmatched overlay records are appended.
    assert_eq!(merged[1].id, "7");
}

#[test]
fn gpu_merge_empty_sides_pass_through() {
    let only = vec![gpu("0", "A")];
    assert_eq!(merge_gpu_stats(vec![], only.clone()).len(), 1);
    assert_eq!(merge_gpu_stats(only, vec![]).len(), 1);
}

fn sensor(ty: &str, ident: &str, value: i64) -> SensorStat {
    SensorStat {
        sensor_type: ty.to_string(),
        name: ident.to_string(),
        identifier: ident.to_string(),
        parent: "/".to_string(),
        value_centi: value,
        min_centi: None,
        max_centi: None,
    }
}

#[test]
fn sensor_merge_overlay_wins_on_key_collision() {
    let base = vec![sensor("load", "/cpu/load", 100), sensor("data", "/mem/used", 200)];
    let extra = vec![sensor("load", "/cpu/load", 999), sensor("fan", "/fan/0", 300)];
    let merged = merge_sensors(base, extra);
    assert_eq!(merged.len(), 3);
    let cpu = merged
        .iter()
        .find(|s| s.sensor_type == "load" && s.identifier == "/cpu/load")
        .unwrap();
    assert_eq!(cpu.value_centi, 999);
    assert!(merged
        .iter()
        .any(|s| s.sensor_type == "data" && s.value_centi == 200));
    assert!(merged
        .iter()
        .any(|s| s.sensor_type == "fan" && s.value_centi == 300));
}

#[test]
fn temp_sources_concatenate_in_order() {
    let t = |name: &str| TempStat {
        sensor: name.to_string(),
        temperature_centi: 1000,
        critical_temperature_centi: None,
    };
    let all = combine_temps(
        vec![t("builtin")],
        vec![t("nvidia")],
        vec![],
        vec![t("linux")],
        vec![t("bridge")],
    );
    let names: Vec<&str> = all.iter().map(|x| x.sensor.as_str()).collect();
    assert_eq!(names, vec!["builtin", "nvidia", "linux", "bridge"]);
}

#[test]
fn positive_filter_drops_zero_readings() {
    let t = |v: i64| TempStat {
        sensor: "s".to_string(),
        temperature_centi: v,
        critical_temperature_centi: None,
    };
    let kept = filter_positive_temps(&vec![t(0), t(2500), t(-100)]);
    assert_eq!(kept.len(), 1);
    assert_eq!(kept[0].temperature_centi, 2500);
}

#[test]
fn gpu_base_selection_follows_precedence() {
    let nvidia = vec![gpu("0", "N")];
    let comp = vec![gpu("c", "C")];
    let win = vec![gpu("w", "W")];
    assert_eq!(select_gpu_base(nvidia.clone(), comp.clone(), win.clone())[0].name, "N");
    assert_eq!(select_gpu_base(vec![], comp, win.clone())[0].name, "C");
    assert_eq!(select_gpu_base(vec![], vec![], win)[0].name, "W");
}

#[test]
fn components_with_gpu_labels_become_gpus() {
    let comps = vec![
        TempStat {
            sensor: "NVIDIA GeForce".to_string(),
            temperature_centi: 6500,
            critical_temperature_centi: None,
        },
        TempStat {
            sensor: "coretemp".to_string(),
            temperature_centi: 5000,
            critical_temperature_centi: None,
        },
    ];
    let gpus = gpus_from_components(&comps);
    assert_eq!(gpus.len(), 1);
    assert_eq!(gpus[0].id, "nvidia geforce");
    assert_eq!(gpus[0].name, "NVIDIA GeForce");
    assert_eq!(gpus[0].temperature_centi, Some(6500));
}

#[test]
fn fallback_chain_takes_first_non_empty() {
    let t = |name: &str| TempStat {
        sensor: name.to_string(),
        temperature_centi: 1000,
        critical_temperature_centi: None,
    };
    assert_eq!(pick_fallback_temps(vec![t("w")], vec![t("c")], vec![t("p")])[0].sensor, "w");
    assert_eq!(pick_fallback_temps(vec![], vec![t("c")], vec![t("p")])[0].sensor, "c");
    assert_eq!(pick_fallback_temps(vec![], vec![], vec![t("p")])[0].sensor, "p");
}

#[test]
fn builtin_sensors_cover_every_category() {
    let disks = vec![monitord::stats::DiskStat {
        mount: "data".to_string(),
        used_bytes: 1024 * 1024 * 1024,
        total_bytes: 4 * 1024 * 1024 * 1024,
    }];
    let net = vec![monitord::stats::NetStat {
        iface: "eth0".to_string(),
        rx_bytes_total: 10 * 1024 * 1024,
        tx_bytes_total: 5 * 1024 * 1024,
        rx_bytes_per_sec: 2048,
        tx_bytes_per_sec: 1024,
    }];
    let temps = vec![TempStat {
        sensor: "coretemp".to_string(),
        temperature_centi: 5500,
        critical_temperature_centi: Some(10000),
    }];
    let mut g = gpu("0", "GPU");
    g.utilization_centi_pct = Some(4000);
    let sensors = collect_builtin_sensor_stats(
        2500,
        2 * 1024 * 1024 * 1024,
        8 * 1024 * 1024 * 1024,
        &disks,
        &net,
        &temps,
        &vec![g],
    );

    let by_ident = |ident: &str| {
        sensors
            .iter()
            .find(|s| s.identifier == ident)
            .unwrap_or_else(|| panic!("missing sensor {}", ident))
            .clone()
    };
    assert_eq!(by_ident("/cpu/package/load").value_centi, 2500);
    assert_eq!(by_ident("/memory/load").value_centi, 2500);
    assert_eq!(by_ident("/memory/used").value_centi, 200);
    assert_eq!(by_ident("/disk/data/load").value_centi, 2500);
    assert_eq!(by_ident("/disk/data/free").value_centi, 300);
    assert_eq!(by_ident("/net/eth0/rx").value_centi, 204800);
    assert_eq!(by_ident("/net/eth0/rx_total").value_centi, 1000);
    assert_eq!(by_ident("/temperature/coretemp").value_centi, 5500);
    assert_eq!(by_ident("/temperature/coretemp").max_centi, Some(10000));
    assert_eq!(by_ident("/gpu/0/load").value_centi, 4000);
}

#[test]
fn system_helpers_fold_raw_readings() {
    assert_eq!(average_cpu_usage(&vec![1000, 2000, 3000]), 2000);
    assert_eq!(average_cpu_usage(&vec![]), 0);
    assert_eq!(kb_to_bytes(4), 4096);
    let d = disk_stat_from_raw("/".to_string(), 100, 30);
    assert_eq!(d.used_bytes, 70);
    // Saturating subtraction keeps the invariant even on odd readings.
    let odd = disk_stat_from_raw("/".to_string(), 10, 30);
    assert_eq!(odd.used_bytes, 0);
}

#[test]
fn network_totals_saturate() {
    let n = |rx: u64, tx: u64| monitord::stats::NetStat {
        iface: "i".to_string(),
        rx_bytes_total: 0,
        tx_bytes_total: 0,
        rx_bytes_per_sec: rx,
        tx_bytes_per_sec: tx,
    };
    let (rx, tx) = network_speed_totals(&vec![n(10, 1), n(20, 2)]);
    assert_eq!((rx, tx), (30, 3));
    let (rx, _tx) = network_speed_totals(&vec![n(u64::MAX, 0), n(5, 0)]);
    assert_eq!(rx, u64::MAX);
}

use vibepanel::gpu::{
    discover_amdgpu, discover_hwmon, discover_nvidia, poll_amd, poll_nvidia, read_device_name,
    read_sysfs_string, read_sysfs_u32, read_sysfs_u64, AmdReading, CardEntry, GpuSnapshot,
    NvidiaReading, SensorEntry, SensorReading,
};

#[test]
fn test_gpu_snapshot_defaults() {
    let snap = GpuSnapshot::default();
    assert!(!snap.available);
    assert!(snap.gpu_usage.is_none());
    assert!(snap.vram_used.is_none());
    assert!(snap.vram_total.is_none());
    assert!(snap.temperature_millidegrees.is_none());
    assert!(snap.clock_mhz.is_none());
    assert!(snap.power_microwatts.is_none());
    assert!(snap.device_name.is_none());
}

#[test]
fn test_is_gpu_high() {
    let mut snap = GpuSnapshot::default();
    assert!(!snap.is_gpu_high());

    snap.gpu_usage = Some(89);
    assert!(!snap.is_gpu_high());

    snap.gpu_usage = Some(90);
    assert!(snap.is_gpu_high());

    snap.gpu_usage = Some(100);
    assert!(snap.is_gpu_high());
}

#[test]
fn test_vram_percent() {
    let mut snap = GpuSnapshot::default();
    assert!(snap.vram_share().is_none());

    snap.vram_used = Some(4 * 1024 * 1024 * 1024); // 4 GB
    snap.vram_total = Some(8 * 1024 * 1024 * 1024); // 8 GB
    let (used, total) = snap.vram_share().unwrap();
    let pct = used as f32 / total as f32 * 100.0;
    assert!((pct - 50.0).abs() < 0.01);
}

#[test]
fn test_vram_percent_zero_total() {
    let snap = GpuSnapshot {
        vram_used: Some(0),
        vram_total: Some(0),
        ..Default::default()
    };
    assert!(snap.vram_share().is_none());
}

fn file(content: &str) -> Option<String> {
    Some(content.to_string())
}

#[test]
fn kernel_files_are_read() {
    assert_eq!(read_sysfs_u32(&file(" 42\n")), Some(42));
    assert_eq!(read_sysfs_u32(&file("+7")), Some(7));
    assert_eq!(read_sysfs_u32(&file("4294967295")), Some(u32::MAX));
    assert_eq!(read_sysfs_u32(&file("4294967296")), None);
    assert_eq!(read_sysfs_u64(&file("18446744073709551615\n")), Some(u64::MAX));
    assert_eq!(read_sysfs_u64(&file("18446744073709551616")), None);
    assert_eq!(read_sysfs_u64(&file("0000000000000000000000012")), Some(12));
    for bad in ["", " \n", "+", "-1", "0x10", "12 3", "++1"] {
        assert_eq!(read_sysfs_u64(&file(bad)), None);
        assert!(bad.trim().parse::<u64>().is_err());
    }
    assert_eq!(read_sysfs_u64(&None), None);
    assert_eq!(read_sysfs_string(&file(" Radeon \n")), file("Radeon"));
    assert_eq!(read_sysfs_string(&file(" \n")), None);
}

#[test]
fn cards_are_named_by_product_or_number() {
    assert_eq!(
        read_device_name(&file("Radeon RX\n"), &file("0x1002"), &file("0x73bf")),
        file("Radeon RX")
    );
    assert_eq!(
        read_device_name(&file("\n"), &file("0x1002\n"), &file("0x0x73bf\n")),
        file("GPU [1002:73bf]")
    );
    assert_eq!(read_device_name(&None, &None, &file("0x73bf")), None);
    assert_eq!(read_device_name(&None, &file("0x1002"), &file("")), None);
}

fn card(name: &str, driver: Option<&str>) -> CardEntry {
    CardEntry {
        name: name.to_string(),
        driver: driver.map(str::to_string),
    }
}

#[test]
fn the_first_card_by_name_is_taken() {
    assert_eq!(discover_amdgpu(&vec![]), None);
    let cards = vec![
        card("card1-HDMI-A-1", Some("amdgpu")),
        card("card2", Some("amdgpu")),
        card("renderD128", Some("amdgpu")),
        card("card1", Some("amdgpu")),
        card("card0", Some("i915")),
        card("card3", None),
    ];
    assert_eq!(discover_amdgpu(&cards), Some(3));
}

#[test]
fn the_first_directory_of_sensors_is_taken() {
    let entry = |name: &str, is_dir| SensorEntry {
        name: name.to_string(),
        is_dir,
    };
    assert_eq!(
        discover_hwmon(&vec![entry("hwmon0", false), entry("power", true), entry("hwmon3", true)]),
        Some(2)
    );
    assert_eq!(discover_hwmon(&vec![entry("power", true)]), None);
}

#[test]
fn readings_are_shown() {
    let reading = AmdReading {
        gpu_busy_percent: file("120\n"),
        mem_info_vram_used: file("100\n"),
        mem_info_vram_total: file("200\n"),
        sensors: Some(SensorReading {
            temp1_input: file("45500\n"),
            freq1_input: file("1500900000\n"),
            power1_average: file("12500000\n"),
        }),
    };
    let snap = poll_amd(&reading, &file("Radeon"));
    assert!(snap.available);
    assert_eq!(snap.gpu_usage, Some(100));
    assert_eq!(snap.vram_share(), Some((100, 200)));
    assert_eq!(snap.temperature_millidegrees, Some(45_500));
    assert_eq!(snap.clock_mhz, Some(1_500));
    assert_eq!(snap.power_microwatts, Some(12_500_000));
    assert_eq!(snap.device_name, file("Radeon"));
    let bare = AmdReading {
        gpu_busy_percent: file("7"),
        sensors: None,
        ..reading
    };
    let snap = poll_amd(&bare, &None);
    assert_eq!(snap.gpu_usage, Some(7));
    assert_eq!(snap.clock_mhz, None);
    let snap = poll_nvidia(
        Some(NvidiaReading {
            utilization: Some(95),
            memory: Some((1, 2)),
            temperature: Some(60),
            clock: Some(1_800),
            power: Some(70_500),
        }),
        &file("GeForce"),
    );
    assert!(snap.is_gpu_high());
    assert_eq!(snap.temperature_millidegrees, Some(60_000));
    assert_eq!(snap.power_microwatts, Some(70_500_000));
    let snap = poll_nvidia(None, &file("GeForce"));
    assert!(snap.available && snap.gpu_usage.is_none());
    assert_eq!(snap.device_name, file("GeForce"));
    assert!(GpuSnapshot::initial(true).available);
    assert!(!GpuSnapshot::unknown().available);
}

#[test]
fn the_first_card_of_the_driver_is_taken() {
    assert_eq!(discover_nvidia(None, true), None);
    assert_eq!(discover_nvidia(Some(0), true), None);
    assert_eq!(discover_nvidia(Some(2), false), None);
    assert_eq!(discover_nvidia(Some(2), true), Some(0));
}

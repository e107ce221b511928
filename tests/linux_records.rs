use rcpufetch::cache::{CacheIndex, CacheSize};
use rcpufetch::linux::{LinuxCpuInfo, LinuxSources};
use rcpufetch::record::{ByteOrder, ExtractionError};
use rcpufetch::vendor::Vendor;

fn block(model: &str, package: u32, core: u32) -> String {
    format!(
        "processor\t: 0\nvendor_id\t: GenuineIntel\nmodel name\t: {}\nphysical id\t: {}\ncore id\t\t: {}\ncache size\t: 1024 KB\nflags\t\t: fpu sse sse2\n",
        model, package, core
    )
}

fn sources(cpuinfo: String) -> LinuxSources {
    LinuxSources {
        cpuinfo,
        machine: Some("x86_64\n".to_string()),
        max_freq_readings: Vec::new(),
        cache_entries: Vec::new(),
        byte_order: ByteOrder::LittleEndian,
    }
}

fn index(level: &str, kind: &str, size: &str) -> CacheIndex {
    CacheIndex { level: level.to_string(), kind: kind.to_string(), size: size.to_string() }
}

#[test]
fn distinct_identities_count_as_physical_cores() {
    let mut text = String::new();
    for i in 0..8u32 {
        text.push_str(&block("Chip", i / 4, i % 4));
        text.push('\n');
    }
    let info = LinuxCpuInfo::new(&sources(text)).unwrap().info;
    assert_eq!(info.physical_cores, 8);
    assert_eq!(info.logical_cores, 8);
}

#[test]
fn repeated_identities_count_once() {
    let mut text = String::new();
    for i in 0..6u32 {
        text.push_str(&block("Chip", 0, i % 3));
        text.push('\n');
    }
    let info = LinuxCpuInfo::new(&sources(text)).unwrap().info;
    assert_eq!(info.physical_cores, 3);
    assert_eq!(info.logical_cores, 6);
}

#[test]
fn two_blocks_with_one_identity_are_one_core() {
    let text = format!("{}\n{}", block("Chip", 0, 0), block("Chip", 0, 0));
    let info = LinuxCpuInfo::new(&sources(text)).unwrap().info;
    assert_eq!(info.physical_cores, 1);
    assert_eq!(info.logical_cores, 2);
}

#[test]
fn blocks_without_identity_fall_back_to_one_core() {
    let text = "processor : 0\nmodel name : Board\n\nprocessor : 1\n\nprocessor : 2\n\n\nprocessor : 3\n".to_string();
    let info = LinuxCpuInfo::new(&sources(text)).unwrap().info;
    assert_eq!(info.physical_cores, 1);
    assert_eq!(info.logical_cores, 4);
}

#[test]
fn package_ids_alone_count_packages() {
    let text = "processor : 0\nphysical id : 0\n\nprocessor : 1\nphysical id : 1\n\nprocessor : 2\nphysical id : 1\n".to_string();
    let info = LinuxCpuInfo::new(&sources(text)).unwrap().info;
    assert_eq!(info.physical_cores, 2);
    assert_eq!(info.logical_cores, 3);
}

#[test]
fn end_to_end_example_machine() {
    let mut text = String::new();
    for i in 0..8u32 {
        text.push_str(&block("Example CPU X9", 0, i % 4));
        text.push('\n');
    }
    let mut src = sources(text);
    src.cache_entries = vec![
        index("1\n", "Data\n", "32K\n"),
        index("1", "Instruction", "32K"),
        index("2", "Unified", "512K"),
        index("3", "Unified", "16384K"),
    ];
    let info = LinuxCpuInfo::new(&src).unwrap().info;
    assert_eq!(info.model, "Example CPU X9");
    assert_eq!(info.physical_cores, 4);
    assert_eq!(info.logical_cores, 8);
    assert_eq!(info.caches.l1d, Some(CacheSize { per_unit_kb: 32, total_kb: 128 }));
    assert_eq!(info.caches.l1i, Some(CacheSize { per_unit_kb: 32, total_kb: 128 }));
    assert_eq!(info.caches.l2, Some(CacheSize { per_unit_kb: 512, total_kb: 2048 }));
    assert_eq!(info.caches.l3, Some(CacheSize { per_unit_kb: 16384, total_kb: 16384 }));
    assert_eq!(info.vendor, Vendor::Intel);
    assert_eq!(info.architecture, Some("x86_64".to_string()));
    assert_eq!(info.flags, vec!["fpu".to_string(), "sse".to_string(), "sse2".to_string()]);
}

#[test]
fn missing_frequency_is_absent_and_not_fatal() {
    let info = LinuxCpuInfo::new(&sources(block("Chip", 0, 0))).unwrap().info;
    assert_eq!(info.frequency_khz, None);
}

#[test]
fn frequency_from_report_takes_highest_reading() {
    let text = "processor : 0\ncpu MHz : 800.000\n\nprocessor : 1\ncpu MHz : 3400.125\n\nprocessor : 2\ncpu MHz : 1200.5\n".to_string();
    let info = LinuxCpuInfo::new(&sources(text)).unwrap().info;
    assert_eq!(info.frequency_khz, Some(3_400_125));
}

#[test]
fn frequency_files_take_precedence() {
    let text = "processor : 0\ncpu MHz : 3400.000\n".to_string();
    let mut src = sources(text);
    src.max_freq_readings = vec!["4500000\n".to_string(), "bad".to_string(), "4700000".to_string()];
    let info = LinuxCpuInfo::new(&src).unwrap().info;
    assert_eq!(info.frequency_khz, Some(4_700_000));
}

#[test]
fn zero_frequency_files_fall_back_to_report() {
    let text = "processor : 0\ncpu MHz : 2000.000\n".to_string();
    let mut src = sources(text);
    src.max_freq_readings = vec!["0".to_string()];
    let info = LinuxCpuInfo::new(&src).unwrap().info;
    assert_eq!(info.frequency_khz, Some(2_000_000));
}

#[test]
fn report_cache_size_fills_second_level_only_without_tree() {
    let text = format!("{}\n{}", block("Chip", 0, 0), block("Chip", 0, 1));
    let info = LinuxCpuInfo::new(&sources(text.clone())).unwrap().info;
    assert_eq!(info.caches.l2, Some(CacheSize { per_unit_kb: 1024, total_kb: 2048 }));
    assert_eq!(info.caches.l1d, None);
    assert_eq!(info.caches.l3, None);
    let mut src = sources(text);
    src.cache_entries = vec![index("2", "Unified", "256K")];
    let info = LinuxCpuInfo::new(&src).unwrap().info;
    assert_eq!(info.caches.l2, Some(CacheSize { per_unit_kb: 256, total_kb: 512 }));
}

#[test]
fn later_cache_entry_wins() {
    let mut src = sources(block("Chip", 0, 0));
    src.cache_entries = vec![index("1", "Data", "48K"), index("1", "Data", "32K"), index("1", "Data", "junk")];
    let info = LinuxCpuInfo::new(&src).unwrap().info;
    assert_eq!(info.caches.l1d, Some(CacheSize { per_unit_kb: 32, total_kb: 32 }));
}

#[test]
fn empty_report_is_insufficient() {
    let r = LinuxCpuInfo::new(&sources("  \n\n\n".to_string()));
    assert!(matches!(r, Err(ExtractionError::InsufficientData)));
}

#[test]
fn first_non_empty_model_wins() {
    let text = "processor : 0\nmodel name :\n\nprocessor : 1\nmodel name : Second\n\nprocessor : 2\nmodel name : Third\n".to_string();
    let info = LinuxCpuInfo::new(&sources(text)).unwrap().info;
    assert_eq!(info.model, "Second");
    assert_eq!(info.vendor, Vendor::Unknown);
}

#[test]
fn vendor_falls_back_to_model_name() {
    let text = "processor : 0\nvendor_id : HygonGenuine\nmodel name : AMD-compatible part\n".to_string();
    let info = LinuxCpuInfo::new(&sources(text)).unwrap().info;
    assert_eq!(info.vendor, Vendor::Amd);
}

#[test]
fn missing_machine_type_is_absent() {
    let mut src = sources(block("Chip", 0, 0));
    src.machine = None;
    let info = LinuxCpuInfo::new(&src).unwrap().info;
    assert_eq!(info.architecture, None);
    assert_eq!(info.byte_order, ByteOrder::LittleEndian);
}

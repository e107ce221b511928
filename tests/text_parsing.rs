use rcpufetch::cache::{cache_size, cache_table, parse_cache_size, CacheIndex, CacheLevel, CacheSize, CacheType};
use rcpufetch::cpuinfo::{parse_units, summarize};
use rcpufetch::text::split_words;
use rcpufetch::vendor::Vendor;

#[test]
fn cache_size_with_kilobyte_suffix() {
    assert_eq!(parse_cache_size("512K"), Some(512));
    assert_eq!(parse_cache_size("32KB"), Some(32));
}

#[test]
fn cache_size_with_megabyte_suffix() {
    assert_eq!(parse_cache_size("2M"), Some(2048));
    assert_eq!(parse_cache_size("3MB"), Some(3072));
}

#[test]
fn cache_size_without_suffix() {
    assert_eq!(parse_cache_size("1024"), Some(1024));
}

#[test]
fn malformed_cache_size_is_absent() {
    assert_eq!(parse_cache_size("abc"), None);
    assert_eq!(parse_cache_size(""), None);
    assert_eq!(parse_cache_size("K"), None);
    assert_eq!(parse_cache_size("4294967296K"), None);
    assert_eq!(parse_cache_size("4194304M"), None);
}

#[test]
fn per_core_level_total_multiplies() {
    assert_eq!(cache_size(CacheLevel::L1, 32, 4), CacheSize { per_unit_kb: 32, total_kb: 128 });
    assert_eq!(cache_size(CacheLevel::L2, 512, 6), CacheSize { per_unit_kb: 512, total_kb: 3072 });
}

#[test]
fn shared_level_total_is_unchanged() {
    assert_eq!(cache_size(CacheLevel::L3, 16384, 4), CacheSize { per_unit_kb: 16384, total_kb: 16384 });
}

#[test]
fn intel_fragment_in_any_case() {
    assert_eq!(Vendor::from_text("Intel(R) Core(TM) i7-8700K"), Vendor::Intel);
    assert_eq!(Vendor::from_text("genuineintel"), Vendor::Intel);
    assert_eq!(Vendor::from_text("xxINTELxx"), Vendor::Intel);
    assert_eq!(Vendor::Intel.key(), "GenuineIntel");
}

#[test]
fn intel_and_amd_resolve_to_intel() {
    assert_eq!(Vendor::from_text("AMD board with Intel chip"), Vendor::Intel);
    assert_eq!(Vendor::from_text("AuthenticAMD"), Vendor::Amd);
    assert_eq!(Vendor::Amd.key(), "AuthenticAMD");
}

#[test]
fn other_vendor_fragments() {
    assert_eq!(Vendor::from_text("Apple M2"), Vendor::Apple);
    assert_eq!(Vendor::from_text("NVIDIA Grace"), Vendor::Nvidia);
    assert_eq!(Vendor::from_text("PowerPC G5"), Vendor::PowerPc);
    assert_eq!(Vendor::from_text("ARM Cortex"), Vendor::Arm);
    assert_eq!(Vendor::from_text("RISC-V"), Vendor::Unknown);
    assert_eq!(Vendor::Unknown.key(), "Unknown");
}

#[test]
fn logo_names_ignore_case() {
    assert_eq!(Vendor::from_logo_name("Intel"), Some(Vendor::Intel));
    assert_eq!(Vendor::from_logo_name("AMD"), Some(Vendor::Amd));
    assert_eq!(Vendor::from_logo_name("powerpc"), Some(Vendor::PowerPc));
    assert_eq!(Vendor::from_logo_name("intelx"), None);
}

#[test]
fn words_split_on_white_space() {
    let w = split_words("  fpu\tvme  de\npse ");
    assert_eq!(w, vec!["fpu".to_string(), "vme".to_string(), "de".to_string(), "pse".to_string()]);
    assert!(split_words("   ").is_empty());
}

#[test]
fn units_keep_their_fields() {
    let units = parse_units("processor : 0\nphysical id : 1\ncore id : 7\ncpu MHz : 1.5\ncache size : 256 KB\n\nprocessor : 1\ncore id : x\n");
    assert_eq!(units.len(), 2);
    assert_eq!(units[0].package_id, Some(1));
    assert_eq!(units[0].core_id, Some(7));
    assert_eq!(units[0].khz_readings, vec![1500]);
    assert_eq!(units[0].cache_kb, Some(256));
    assert_eq!(units[1].core_id, None);
    let s = summarize(&units);
    assert_eq!(s.physical_cores, 1);
    assert_eq!(s.logical_cores, 2);
    assert_eq!(s.max_khz, Some(1500));
    assert_eq!(s.cache_kb, Some(256));
}

#[test]
fn no_units_summarize_to_one_core() {
    let s = summarize(&parse_units(""));
    assert_eq!(s.physical_cores, 1);
    assert_eq!(s.logical_cores, 0);
    assert_eq!(s.max_khz, None);
}

#[test]
fn cache_table_lookup_by_level_and_type() {
    let entries = vec![
        CacheIndex { level: "1".to_string(), kind: "Instruction".to_string(), size: "64K".to_string() },
        CacheIndex { level: "2".to_string(), kind: "Data".to_string(), size: "1M".to_string() },
        CacheIndex { level: "3".to_string(), kind: "Unified".to_string(), size: "8M".to_string() },
    ];
    let t = cache_table(&entries, 2);
    assert_eq!(t.get(CacheLevel::L1, CacheType::Instruction), Some(CacheSize { per_unit_kb: 64, total_kb: 128 }));
    assert_eq!(t.get(CacheLevel::L1, CacheType::Data), None);
    assert_eq!(t.get(CacheLevel::L2, CacheType::Data), None);
    assert_eq!(t.get(CacheLevel::L2, CacheType::Unified), None);
    assert_eq!(t.get(CacheLevel::L3, CacheType::Unified), Some(CacheSize { per_unit_kb: 8192, total_kb: 8192 }));
}

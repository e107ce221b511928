use rcpufetch::cla::{ArgError, Args, Shell};
use rcpufetch::layout::{side_by_side, wrap_words};
use rcpufetch::logos::{get_logo_lines_for_vendor, C_FG_CYAN, C_FG_RED, C_FG_WHITE};
use rcpufetch::macos::{ClusterCaches, MacOSCpuInfo, MacSysctl};
use rcpufetch::record::{ByteOrder, ExtractionError};
use rcpufetch::vendor::Vendor;
use rcpufetch::windows::WindowsCpuInfo;
use rcpufetch::cache::CacheSize;

fn argv(words: &[&str]) -> Vec<String> {
    let mut v = vec!["rcpufetch".to_string()];
    v.extend(words.iter().map(|w| w.to_string()));
    v
}

#[test]
fn amd_logo_is_colored() {
    let lines = get_logo_lines_for_vendor("AuthenticAMD").unwrap();
    assert_eq!(lines.len(), 15);
    assert!(lines[0].starts_with(C_FG_RED));
    assert!(lines[14].starts_with(C_FG_WHITE));
    assert!(!lines.iter().any(|l| l.contains("$C")));
    assert_eq!(get_logo_lines_for_vendor("amd"), Some(lines));
}

#[test]
fn logo_catalog_keys() {
    assert_eq!(get_logo_lines_for_vendor("GenuineIntel").unwrap().len(), 9);
    assert!(get_logo_lines_for_vendor("intel").unwrap()[0].starts_with(C_FG_CYAN));
    assert_eq!(get_logo_lines_for_vendor("Apple").unwrap().len(), 17);
    assert_eq!(get_logo_lines_for_vendor("arm").unwrap().len(), 5);
    assert_eq!(get_logo_lines_for_vendor("NVIDIA").unwrap().len(), 18);
    assert_eq!(get_logo_lines_for_vendor("powerpc").unwrap().len(), 5);
    assert_eq!(get_logo_lines_for_vendor("Unknown"), None);
    assert_eq!(get_logo_lines_for_vendor("AMD"), None);
}

#[test]
fn arguments_set_options() {
    let a = Args::parse(&argv(&["-n", "--logo", "intel", "-V"])).unwrap();
    assert!(a.no_logo && a.version && !a.help && !a.license);
    assert_eq!(a.logo, Some("intel".to_string()));
    let a = Args::parse(&argv(&["--logo=amd", "--completions", "zsh", "--license", "-h"])).unwrap();
    assert_eq!(a.logo, Some("amd".to_string()));
    assert_eq!(a.completions, Some("zsh".to_string()));
    assert!(a.license && a.help);
    let a = Args::parse(&argv(&[])).unwrap();
    assert!(!a.no_logo && a.logo.is_none() && a.completions.is_none());
}

#[test]
fn argument_errors() {
    let e = Args::parse(&argv(&["--logo"])).unwrap_err();
    assert_eq!(e.message(), "Error: --logo requires a value");
    assert!(matches!(Args::parse(&argv(&["--logo="])), Err(ArgError::MissingLogoValue)));
    let e = Args::parse(&argv(&["--completions"])).unwrap_err();
    assert_eq!(e.message(), "Error: --completions requires a shell name (fish, bash, zsh)");
    let e = Args::parse(&argv(&["-x"])).unwrap_err();
    assert_eq!(e.message(), "Error: Unknown argument '-x'");
}

#[test]
fn shell_names() {
    assert_eq!(Shell::from_name("FISH"), Some(Shell::Fish));
    assert_eq!(Shell::from_name("bash"), Some(Shell::Bash));
    assert_eq!(Shell::from_name("Zsh"), Some(Shell::Zsh));
    assert_eq!(Shell::from_name("tcsh"), None);
}

#[test]
fn flags_wrap_at_width() {
    let words: Vec<String> = ["aaaa", "bbbb", "cccc", "dddd"].iter().map(|s| s.to_string()).collect();
    let lines = wrap_words(&words, "Flags: ", " ", "       ", 17);
    assert_eq!(lines, vec!["Flags: aaaa bbbb".to_string(), "       cccc dddd".to_string()]);
    let lines = wrap_words(&words, "Flags: ", ", ", "       ", 100);
    assert_eq!(lines, vec!["Flags: aaaa, bbbb, cccc, dddd".to_string()]);
    assert_eq!(wrap_words(&Vec::new(), "Flags: ", " ", "", 10), vec!["Flags: ".to_string()]);
}

#[test]
fn logo_beside_facts() {
    let logo = vec!["ab".to_string(), "abcd".to_string(), "a".to_string()];
    let info = vec!["x".to_string()];
    let rows = side_by_side(&logo, &info);
    assert_eq!(rows, vec!["ab     x".to_string(), "abcd   ".to_string(), "a      ".to_string()]);
    let rows = side_by_side(&Vec::new(), &vec!["p".to_string(), "q".to_string()]);
    assert_eq!(rows, vec!["   p".to_string(), "   q".to_string()]);
}

fn sysctl() -> MacSysctl {
    MacSysctl {
        brand: Some("Intel(R) Core(TM) i5\n".to_string()),
        machine: Some("x86_64\n".to_string()),
        byte_order: Some("1234".to_string()),
        core_count: Some("4".to_string()),
        cores_per_package: None,
        thread_count: Some("8".to_string()),
        logical_per_package: None,
        max_basic: Some("22".to_string()),
        cache_sizes: Some("17179869184 32768 262144 8388608".to_string()),
        cache_config: Some("8 2 2 8".to_string()),
        perf0_l1i: None,
        perf0_l1d: None,
        perf0_l2: None,
        perf1_l1i: None,
        perf1_l1d: None,
        perf1_l2: None,
        arm_features: None,
    }
}

#[test]
fn mac_record_from_sysctl() {
    let info = MacOSCpuInfo::new(&sysctl()).unwrap().info;
    assert_eq!(info.model, "Intel(R) Core(TM) i5");
    assert_eq!(info.vendor, Vendor::Intel);
    assert_eq!(info.byte_order, ByteOrder::LittleEndian);
    assert_eq!(info.physical_cores, 4);
    assert_eq!(info.logical_cores, 8);
    assert_eq!(info.frequency_khz, Some(22_000));
    assert_eq!(info.caches.l1d, Some(CacheSize { per_unit_kb: 32, total_kb: 128 }));
    assert_eq!(info.caches.l2, Some(CacheSize { per_unit_kb: 256, total_kb: 1024 }));
    assert_eq!(info.caches.l3, Some(CacheSize { per_unit_kb: 8192, total_kb: 8192 }));
    assert_eq!(info.caches.l1i, None);
}

#[test]
fn mac_apple_silicon_fallbacks() {
    let mut s = sysctl();
    s.brand = Some("Apple M1".to_string());
    s.byte_order = Some("4321".to_string());
    s.core_count = None;
    s.cores_per_package = Some("8".to_string());
    s.thread_count = Some("2".to_string());
    s.cache_sizes = Some("0 65536 4194304".to_string());
    s.perf0_l2 = Some("12582912".to_string());
    s.perf1_l2 = Some("4194304".to_string());
    s.perf0_l1i = Some("196608".to_string());
    s.perf0_l1d = Some("131072".to_string());
    s.perf1_l1d = Some("65536".to_string());
    s.arm_features = Some("hw.optional.arm.FEAT_AES: 1\nhw.optional.arm.FEAT_SHA3: 0\nhw.optional.arm.FEAT_CRC32: 1\nother.key: 1\n".to_string());
    let mac = MacOSCpuInfo::new(&s).unwrap();
    assert_eq!(mac.performance, ClusterCaches { l1i_kb: Some(192), l1d_kb: Some(128), l2_kb: Some(12288) });
    assert_eq!(mac.efficiency, ClusterCaches { l1i_kb: None, l1d_kb: Some(64), l2_kb: Some(4096) });
    let info = mac.info;
    assert_eq!(info.vendor, Vendor::Apple);
    assert_eq!(info.byte_order, ByteOrder::BigEndian);
    assert_eq!(info.physical_cores, 8);
    assert_eq!(info.logical_cores, 8);
    assert_eq!(info.caches.l3, Some(CacheSize { per_unit_kb: 12288, total_kb: 12288 }));
    assert_eq!(info.flags, vec!["FEAT_AES".to_string(), "FEAT_CRC32".to_string()]);
}

#[test]
fn mac_errors() {
    let mut s = sysctl();
    s.brand = None;
    assert!(matches!(MacOSCpuInfo::new(&s), Err(ExtractionError::SourceUnavailable(_))));
    let mut s = sysctl();
    s.brand = Some("  ".to_string());
    s.core_count = None;
    s.thread_count = None;
    let r = MacOSCpuInfo::new(&s);
    assert!(matches!(r, Err(ExtractionError::InsufficientData)));
    assert_eq!(r.err().unwrap().message(), "no processor information found");
}

#[test]
fn windows_has_no_source() {
    assert!(matches!(WindowsCpuInfo::new(), Err(ExtractionError::InsufficientData)));
}

#[test]
fn byte_order_labels() {
    assert_eq!(ByteOrder::LittleEndian.label(), "Little Endian");
    assert_eq!(ByteOrder::BigEndian.label(), "Big Endian");
    assert_eq!(ByteOrder::Unknown.label(), "Unknown");
}

use alpha_core::platform::{
    check_system_requirements, get_default_config_path, get_default_data_dir,
    get_default_db_dir, get_default_keystore_dir, get_default_log_dir, kb_to_mb,
    parse_leading_u64, NodeType, Os, RequirementError, SystemInfo,
};

fn info(cpu_count: usize, available_memory: u64, available_disk_space: u64) -> SystemInfo {
    SystemInfo {
        os: "linux".to_string(),
        arch: "x86_64".to_string(),
        cpu_count,
        available_memory,
        available_disk_space,
    }
}

#[test]
fn data_dir_follows_platform_conventions() {
    assert_eq!(
        get_default_data_dir(Os::Other, None, None, Some("/home/u".to_string())),
        "/home/u/.local/share/alpha-node"
    );
    assert_eq!(
        get_default_data_dir(Os::MacOs, None, None, Some("/Users/u".to_string())),
        "/Users/u/Library/Application Support/AlphaNode"
    );
    assert_eq!(
        get_default_data_dir(Os::Windows, Some("C:/AppData".to_string()), None, None),
        "C:/AppData/AlphaNode"
    );
}

#[test]
fn data_dir_falls_back_in_order() {
    assert_eq!(
        get_default_data_dir(Os::Windows, None, Some("C:/Users/u".to_string()), None),
        "C:/Users/u/AlphaNode"
    );
    assert_eq!(get_default_data_dir(Os::Windows, None, None, None), "./AlphaNode");
    assert_eq!(get_default_data_dir(Os::Other, None, None, None), "./.local/share/alpha-node");
}

#[test]
fn derived_paths_extend_the_data_dir() {
    assert_eq!(get_default_config_path("/d"), "/d/config.toml");
    assert_eq!(get_default_log_dir("/d"), "/d/logs");
    assert_eq!(get_default_db_dir("/d"), "/d/db");
    assert_eq!(get_default_keystore_dir("/d"), "/d/keystore");
}

#[test]
fn parse_leading_u64_reads_meminfo_fields() {
    assert_eq!(parse_leading_u64(b"  16264232 kB"), Some(16264232));
    assert_eq!(parse_leading_u64(b"42"), Some(42));
    assert_eq!(parse_leading_u64(b"\t7 rest"), Some(7));
    assert_eq!(parse_leading_u64(b"18446744073709551615"), Some(u64::MAX));
}

#[test]
fn parse_leading_u64_rejects_junk_and_overflow() {
    assert_eq!(parse_leading_u64(b""), None);
    assert_eq!(parse_leading_u64(b"   "), None);
    assert_eq!(parse_leading_u64(b"abc"), None);
    assert_eq!(parse_leading_u64(b"  kB 42"), None);
    assert_eq!(parse_leading_u64(b"18446744073709551616"), None);
    assert_eq!(parse_leading_u64(b"99999999999999999999999999"), None);
}

#[test]
fn kb_to_mb_divides_down() {
    assert_eq!(kb_to_mb(2048), 2);
    assert_eq!(kb_to_mb(1023), 0);
    assert_eq!(kb_to_mb(16264232), 15883);
}

#[test]
fn validator_requirements() {
    assert!(check_system_requirements(NodeType::Validator, &info(4, 8192, 100000)).is_ok());
    assert_eq!(
        check_system_requirements(NodeType::Validator, &info(3, 8192, 100000)),
        Err(RequirementError::InsufficientCpuCores)
    );
    assert_eq!(
        check_system_requirements(NodeType::Validator, &info(4, 8191, 100000)),
        Err(RequirementError::InsufficientMemory)
    );
    assert_eq!(
        check_system_requirements(NodeType::Validator, &info(4, 8192, 99999)),
        Err(RequirementError::InsufficientDiskSpace)
    );
}

#[test]
fn full_and_light_requirements() {
    assert!(check_system_requirements(NodeType::Full, &info(2, 4096, 50000)).is_ok());
    assert_eq!(
        check_system_requirements(NodeType::Full, &info(1, 4096, 50000)),
        Err(RequirementError::InsufficientCpuCores)
    );
    assert!(check_system_requirements(NodeType::Light, &info(1, 1024, 1000)).is_ok());
    assert_eq!(
        check_system_requirements(NodeType::Light, &info(1, 1023, 1000)),
        Err(RequirementError::InsufficientMemory)
    );
    assert_eq!(
        check_system_requirements(NodeType::Light, &info(1, 1024, 999)),
        Err(RequirementError::InsufficientDiskSpace)
    );
    assert!(check_system_requirements(NodeType::Other, &info(1, 1, 1)).is_ok());
}

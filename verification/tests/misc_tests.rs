use antigravity_agent::{collect_target_pids, format_login_new_result, format_switch_result,
    get_antigravity_data_dir, get_antigravity_db_path, get_antigravity_path_file,
    get_app_settings_file, get_log_directory, get_window_state_file, is_target_process,
    AccountOperationResult, AntigravityPathConfig, CacheConfig, HttpConfig, PortInfo,
    RequestMetadata};
use antigravity_agent::text::{join_semicolon, u64_to_string};

#[test]
fn decimal_rendering() {
    assert_eq!(u64_to_string(0), "0");
    assert_eq!(u64_to_string(7), "7");
    assert_eq!(u64_to_string(100), "100");
    assert_eq!(u64_to_string(65535), "65535");
    assert_eq!(u64_to_string(u64::MAX), "18446744073709551615");
}

#[test]
fn joining_strings() {
    let none: Vec<String> = Vec::new();
    assert_eq!(join_semicolon(&none), "");
    assert_eq!(join_semicolon(&vec!["one".to_string()]), "one");
    assert_eq!(
        join_semicolon(&vec!["one".to_string(), "two".to_string(), "three".to_string()]),
        "one; two; three"
    );
}

#[test]
fn configuration_paths() {
    assert_eq!(get_log_directory("/home/u/.antigravity-agent"), "/home/u/.antigravity-agent/logs");
    assert_eq!(get_app_settings_file("/c"), "/c/app_settings.json");
    assert_eq!(get_window_state_file("/c"), "/c/window_state.json");
    assert_eq!(get_antigravity_path_file("/c"), "/c/antigravity_path.json");
}

#[test]
fn application_data_paths() {
    assert_eq!(
        get_antigravity_data_dir(Some("/data".to_string())).as_deref(),
        Some("/data/Antigravity")
    );
    assert_eq!(get_antigravity_data_dir(None), None);
    assert_eq!(
        get_antigravity_db_path(Some("/data".to_string())).as_deref(),
        Some("/data/Antigravity/state.vscdb")
    );
    assert_eq!(get_antigravity_db_path(None), None);
}

#[test]
fn path_config_default_has_no_custom_path() {
    let config = AntigravityPathConfig::default();
    assert!(config.custom_executable_path.is_none());
}

#[test]
fn login_new_report_with_backup() {
    let result = AccountOperationResult {
        kill_result: "application closed".to_string(),
        backup_info: Some(("user@example.com".to_string(), "updated".to_string())),
        restore_result: None,
        start_result: "application started".to_string(),
    };
    assert_eq!(
        format_login_new_result(result),
        "application closed -> 已updated备份: user@example.com -> 已清除账户数据 -> application started"
    );
}

#[test]
fn login_new_report_without_backup() {
    let result = AccountOperationResult {
        kill_result: "application closed".to_string(),
        backup_info: None,
        restore_result: None,
        start_result: "application started".to_string(),
    };
    assert_eq!(
        format_login_new_result(result),
        "application closed -> 未检测到登录用户（跳过备份） -> 已清除账户数据 -> application started"
    );
}

#[test]
fn switch_report_with_restore() {
    let result = AccountOperationResult {
        kill_result: "application closed".to_string(),
        backup_info: Some(("old@example.com".to_string(), "created".to_string())),
        restore_result: Some("account restored".to_string()),
        start_result: "application started".to_string(),
    };
    assert_eq!(
        format_switch_result(result),
        "application closed -> 已created备份: old@example.com -> account restored -> application started"
    );
}

#[test]
fn switch_report_without_restore() {
    let result = AccountOperationResult {
        kill_result: "application closed".to_string(),
        backup_info: None,
        restore_result: None,
        start_result: "start failed: not installed".to_string(),
    };
    assert_eq!(
        format_switch_result(result),
        "application closed -> 未检测到当前登录用户（跳过备份） -> 未恢复 -> start failed: not installed"
    );
}

#[test]
fn target_process_names() {
    assert!(is_target_process("Antigravity"));
    assert!(is_target_process("Antigravity.exe"));
    assert!(is_target_process("  antigravity  "));
    assert!(is_target_process("WINDSURF.EXE"));
    assert!(is_target_process("antigravity-helper"));
    assert!(is_target_process("Antigravity.exe.exe"));
    assert!(!is_target_process("gravity"));
    assert!(!is_target_process("windsur"));
    assert!(!is_target_process(""));
}

#[test]
fn candidate_pids_filtered_and_newest_first() {
    let procs = vec![
        (10u32, "bash".to_string()),
        (44u32, "Antigravity.exe".to_string()),
        (7u32, "antigravity".to_string()),
        (90u32, "sshd".to_string()),
        (61u32, "Windsurf Helper".to_string()),
    ];
    let pids = collect_target_pids(&procs);
    assert_eq!(pids, vec![61, 44, 7]);
}

#[test]
fn defaults_match_the_fixed_configuration() {
    let ports = PortInfo::default();
    assert!(ports.https_port.is_none());
    assert!(ports.http_port.is_none());
    assert!(ports.extension_port.is_none());
    assert!(ports.log_path.is_none());

    let meta = RequestMetadata::default();
    assert_eq!(meta.ide_name, "antigravity");
    assert_eq!(meta.api_key, "");
    assert_eq!(meta.locale, "en");
    assert_eq!(meta.ide_version, "1.11.5");
    assert_eq!(meta.extension_name, "antigravity");

    assert_eq!(CacheConfig::default().max_cache_entries, 100);
    assert_eq!(HttpConfig::default().request_timeout_ms, 4000);
}

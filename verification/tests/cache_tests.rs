use antigravity_agent::{cached_csrf_token, cached_ports, finish_ports_request,
    finish_token_request, get_stats, init_busy_result, init_summary, CacheConfig, CacheManager,
    CacheStats, PortInfo, PortsOutcome, ScanError};

#[test]
fn fresh_caches_are_empty() {
    let mut m = CacheManager::new();
    let stats = m.get_stats();
    assert_eq!(stats.csrf_cache_size, 0);
    assert_eq!(stats.ports_cache_size, 0);
    assert!(cached_csrf_token(&m).is_none());
    assert!(cached_ports(&m).is_none());
}

#[test]
fn idempotent_cache_scenario() {
    // First request: miss, scan, store. Second request: served from the
    // cache with the identical string, so the scan ran only once.
    let mut m = CacheManager::new();
    let mut scans = 0;

    // First get_token: cache miss, so the scan runs.
    let first = match cached_csrf_token(&m) {
        Some(t) => t,
        None => {
            scans += 1;
            let scanned = Ok("11111111-2222-3333-4444-555555555555".to_string());
            finish_token_request(&mut m, scanned).unwrap()
        },
    };

    // Second get_token with no intervening clear: cache hit.
    let second = match cached_csrf_token(&m) {
        Some(t) => t,
        None => {
            scans += 1;
            finish_token_request(&mut m, Ok("unexpected".to_string())).unwrap()
        },
    };

    assert_eq!(first, second);
    assert_eq!(scans, 1);
}

#[test]
fn cache_clear_scenario() {
    // After clearing, the statistics report zero entries for both caches and
    // the next request misses, so it scans or parses afresh.
    let mut m = CacheManager::new();
    finish_token_request(&mut m, Ok("11111111-2222-3333-4444-555555555555".to_string())).unwrap();
    let ports = PortInfo {
        https_port: Some(1),
        http_port: Some(2),
        extension_port: Some(3),
        log_path: None,
    };
    finish_ports_request(&mut m, PortsOutcome::Parsed(ports));
    let stats = m.get_stats();
    assert_eq!(stats.csrf_cache_size, 1);
    assert_eq!(stats.ports_cache_size, 1);

    m.clear_all();

    let stats = m.get_stats();
    assert_eq!(stats.csrf_cache_size, 0);
    assert_eq!(stats.ports_cache_size, 0);
    assert!(cached_csrf_token(&m).is_none());
    assert!(cached_ports(&m).is_none());
}

#[test]
fn failures_are_not_cached() {
    let mut m = CacheManager::new();
    let r = finish_token_request(&mut m, Err(ScanError::TokenNotFound));
    assert_eq!(r, Err(ScanError::TokenNotFound));
    assert!(cached_csrf_token(&m).is_none());
    let stats = get_stats(&mut m);
    assert_eq!(stats.csrf_cache_size, 0);
}

#[test]
fn missing_log_answers_but_is_not_cached() {
    // No log found: the caller gets the valid all-absent bundle, nothing is
    // written to the cache, and the next request misses again.
    let mut m = CacheManager::new();
    let bundle = finish_ports_request(&mut m, PortsOutcome::LogUnavailable);
    assert!(bundle.https_port.is_none());
    assert!(bundle.http_port.is_none());
    assert!(bundle.extension_port.is_none());
    assert!(bundle.log_path.is_none());
    assert!(cached_ports(&m).is_none());
    let stats = get_stats(&mut m);
    assert_eq!(stats.ports_cache_size, 0);
}

#[test]
fn empty_parse_from_a_real_log_is_cached() {
    // A log that was found but announces no ports is a genuine result and is
    // cached like any other.
    let mut m = CacheManager::new();
    let bundle = PortInfo {
        https_port: None,
        http_port: None,
        extension_port: None,
        log_path: Some("/tmp/app.log".to_string()),
    };
    finish_ports_request(&mut m, PortsOutcome::Parsed(bundle));
    let hit = cached_ports(&m).expect("bundle cached");
    assert_eq!(hit.log_path.as_deref(), Some("/tmp/app.log"));
    assert!(hit.https_port.is_none());
}

#[test]
fn cached_ports_round_trip() {
    let mut m = CacheManager::new();
    let ports = PortInfo {
        https_port: Some(54321),
        http_port: None,
        extension_port: Some(54323),
        log_path: Some("/tmp/app.log".to_string()),
    };
    let returned = finish_ports_request(&mut m, PortsOutcome::Parsed(ports));
    assert_eq!(returned.https_port, Some(54321));
    let hit = cached_ports(&m).expect("ports cached");
    assert_eq!(hit.https_port, Some(54321));
    assert_eq!(hit.http_port, None);
    assert_eq!(hit.extension_port, Some(54323));
    assert_eq!(hit.log_path.as_deref(), Some("/tmp/app.log"));
}

#[test]
fn direct_manager_calls_use_the_given_key() {
    let config = CacheConfig { max_cache_entries: 10 };
    let mut m = CacheManager::with_config(config);
    m.set_csrf_token("some_key", "some token".to_string());
    assert_eq!(m.get_csrf_token("some_key").as_deref(), Some("some token"));
    assert!(m.get_csrf_token("other_key").is_none());
    // The request helpers use their own fixed key.
    assert!(cached_csrf_token(&m).is_none());
}

#[test]
fn scan_error_messages() {
    assert_eq!(
        ScanError::ProcessNotFound.message(),
        "未找到运行中的 Antigravity/Windsurf 进程"
    );
    assert_eq!(ScanError::ProcessOpenDenied.message(), "打开进程用于读取失败");
    assert_eq!(
        ScanError::TokenNotFound.message(),
        "未在运行中的 Antigravity/Windsurf 进程内存中找到 CSRF token"
    );
}

#[test]
fn busy_warm_up_reports_current_state() {
    let r = init_busy_result(CacheStats { csrf_cache_size: 0, ports_cache_size: 0 });
    assert!(!r.success);
    assert!(!r.csrf_cache_preloaded);
    assert!(!r.ports_cache_preloaded);
    assert_eq!(r.message, "缓存正在初始化中，请稍后再试");

    let r = init_busy_result(CacheStats { csrf_cache_size: 1, ports_cache_size: 0 });
    assert!(r.success);
    assert!(r.csrf_cache_preloaded);
    assert!(!r.ports_cache_preloaded);
}

#[test]
fn warm_up_summary_messages() {
    let no_errors: Vec<String> = Vec::new();
    let r = init_summary(true, true, 42, &no_errors);
    assert!(r.success);
    assert_eq!(r.message, "缓存初始化成功 (42ms)");

    let r = init_summary(true, false, 7, &no_errors);
    assert!(r.success);
    assert!(r.csrf_cache_preloaded);
    assert!(!r.ports_cache_preloaded);
    assert_eq!(r.message, "缓存部分初始化成功 (7ms) - CSRF: true, 端口: false");

    let r = init_summary(false, true, 9, &no_errors);
    assert_eq!(r.message, "缓存部分初始化成功 (9ms) - CSRF: false, 端口: true");

    let errors = vec!["扫描失败".to_string(), "未找到日志".to_string()];
    let r = init_summary(false, false, 130, &errors);
    assert!(!r.success);
    assert_eq!(r.message, "缓存初始化失败 (130ms) - 扫描失败; 未找到日志");
}

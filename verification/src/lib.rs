//! Extraction and caching of a short-lived authentication token and of
//! locally-bound port numbers for a running editor process.
//!
//! The library locates a token that the target application keeps only in its
//! own process memory, by searching readable memory regions for a fixed label
//! in two encodings and testing a fixed-size window after each occurrence
//! against the UUID grammar. It also derives a set of port numbers from the
//! application's newest log file, and exposes both through a cache layer with
//! manual invalidation and a single-flight warm-up step.
//!
//! Platform glue — process enumeration, region enumeration, file reading and
//! the asynchronous front end — lives outside; it hands these functions plain
//! values and drives the scan loops that the state here prescribes.

pub mod accounts;
pub mod cache;
pub mod init;
pub mod paths;
pub mod pattern;
pub mod ports;
pub mod process;
pub mod scanner;
pub mod text;
pub mod types;

pub use accounts::{format_login_new_result, format_switch_result, AccountOperationResult,
    AccountOperationType};
pub use cache::{cached_csrf_token, cached_ports, finish_ports_request, finish_token_request,
    get_stats, CacheManager};
pub use init::{init_busy_result, init_summary};
pub use paths::{get_antigravity_data_dir, get_antigravity_db_path, get_antigravity_path_file,
    get_app_settings_file, get_log_directory, get_window_state_file, AntigravityPathConfig};
pub use pattern::{find_all_positions, get_patterns, get_search_patterns, search_bytes_for_token};
pub use ports::{parse_ports_from_log, port_info_from_log, select_newest_log};
pub use process::{collect_target_pids, is_target_process};
pub use scanner::{scan_buffer_chunked, scan_process_for_token, scan_region_for_token};
pub use types::{CacheConfig, CacheInitResult, CacheStats, HttpConfig, PortInfo, PortsOutcome,
    RequestMetadata, ScanError, UserStatusRequest};

//! Data carried between the scanner, the log parser and the cache layer.

use vstd::prelude::*;

verus! {

/// Port numbers extracted from the application's log file, with the path of
/// the log they came from. Partial results are valid: any of the ports may
/// be absent.
#[derive(Debug, Clone)]
pub struct PortInfo {
    pub https_port: Option<u16>,
    pub http_port: Option<u16>,
    pub extension_port: Option<u16>,
    pub log_path: Option<String>,
}

impl Default for PortInfo {
    /// All ports absent and no log path.
    fn default() -> (r: Self)
        ensures
            r.https_port is None,
            r.http_port is None,
            r.extension_port is None,
            r.log_path is None,
    {
        Self { https_port: None, http_port: None, extension_port: None, log_path: None }
    }
}

/// Spec-level image of `PortInfo`, with the log path as its characters.
pub ghost struct PortInfoView {
    pub https_port: Option<u16>,
    pub http_port: Option<u16>,
    pub extension_port: Option<u16>,
    pub log_path: Option<Seq<char>>,
}

impl View for PortInfo {
    type V = PortInfoView;

    open spec fn view(&self) -> PortInfoView {
        PortInfoView {
            https_port: self.https_port,
            http_port: self.http_port,
            extension_port: self.extension_port,
            log_path: match self.log_path {
                Some(p) => Some(p@),
                None => None,
            },
        }
    }
}

/// What one pass over the application's log yielded. A bundle parsed from a
/// log that was found and read is a genuine result, cached like any other —
/// even when it announces no ports. When no log could be found or read, the
/// caller is still handed a valid all-absent bundle rather than an error,
/// but nothing is cached, so the next request looks for the log again.
#[derive(Debug)]
pub enum PortsOutcome {
    Parsed(PortInfo),
    LogUnavailable,
}

/// Why a token request failed. A failure local to one region is recovered
/// during the scan and never surfaces; a process that cannot be opened is
/// reported so the caller can abandon that candidate and try the next.
#[derive(Debug, Clone, Copy, PartialEq, Eq, Structural)]
pub enum ScanError {
    /// No running process matches the target application's name.
    ProcessNotFound,
    /// A candidate process could not be opened for reading; that candidate
    /// is abandoned and the next one tried.
    ProcessOpenDenied,
    /// Every candidate process was scanned and no token was found.
    TokenNotFound,
}

impl ScanError {
    /// A short description of the failure.
    pub fn message(&self) -> (r: &'static str)
        ensures
            *self is ProcessNotFound ==> r@ == "未找到运行中的 Antigravity/Windsurf 进程"@,
            *self is ProcessOpenDenied ==> r@ == "打开进程用于读取失败"@,
            *self is TokenNotFound ==> r@
                == "未在运行中的 Antigravity/Windsurf 进程内存中找到 CSRF token"@,
    {
        match self {
            ScanError::ProcessNotFound => "未找到运行中的 Antigravity/Windsurf 进程",
            ScanError::ProcessOpenDenied => "打开进程用于读取失败",
            ScanError::TokenNotFound => "未在运行中的 Antigravity/Windsurf 进程内存中找到 CSRF token",
        }
    }
}

/// Live entry counts of the two caches, for diagnostics.
#[derive(Debug, Clone, Copy, PartialEq, Eq, Structural)]
pub struct CacheStats {
    pub csrf_cache_size: u64,
    pub ports_cache_size: u64,
}

/// Outcome of a cache warm-up attempt.
#[derive(Debug, Clone)]
pub struct CacheInitResult {
    pub success: bool,
    pub message: String,
    pub csrf_cache_preloaded: bool,
    pub ports_cache_preloaded: bool,
}

/// Fixed metadata sent along with language-server requests.
#[derive(Debug, Clone)]
pub struct RequestMetadata {
    pub ide_name: String,
    pub api_key: String,
    pub locale: String,
    pub ide_version: String,
    pub extension_name: String,
}

impl Default for RequestMetadata {
    /// The fixed identification values, with an empty key.
    fn default() -> (r: Self)
        ensures
            r.ide_name@ == "antigravity"@,
            r.api_key@ == Seq::<char>::empty(),
            r.locale@ == "en"@,
            r.ide_version@ == "1.11.5"@,
            r.extension_name@ == "antigravity"@,
    {
        Self {
            ide_name: "antigravity".to_owned(),
            api_key: String::new(),
            locale: "en".to_owned(),
            ide_version: "1.11.5".to_owned(),
            extension_name: "antigravity".to_owned(),
        }
    }
}

/// Body of a user-status request to the language server.
#[derive(Debug)]
pub struct UserStatusRequest {
    pub metadata: RequestMetadata,
}

/// Capacity given to each cache.
pub struct CacheConfig {
    pub max_cache_entries: u64,
}

impl Default for CacheConfig {
    fn default() -> (r: Self)
        ensures
            r.max_cache_entries == 100,
    {
        Self { max_cache_entries: 100 }
    }
}

/// Timeout applied to language-server requests.
pub struct HttpConfig {
    pub request_timeout_ms: u64,
}

impl Default for HttpConfig {
    fn default() -> (r: Self)
        ensures
            r.request_timeout_ms == 4000,
    {
        Self { request_timeout_ms: 4000 }
    }
}

} // verus!

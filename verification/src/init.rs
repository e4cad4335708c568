//! Outcome reporting for the single-flight cache warm-up.
//!
//! One warm-up at a time runs process-wide: the caller tries a process-wide
//! lock without blocking. When the lock is free it fetches the token and the
//! ports in turn and reports with `init_summary`; when another warm-up is in
//! flight it reports at once with `init_busy_result`, derived from the
//! current cache statistics, so no caller ever waits on a concurrent
//! warm-up.

use vstd::prelude::*;

use crate::text::{join_semicolon, spec_dec_chars, spec_join_semicolon, u64_to_string};
use crate::types::{CacheInitResult, CacheStats};

verus! {

/// A truth value written out, as the warm-up report interpolates it.
pub open spec fn spec_bool_text(b: bool) -> Seq<char> {
    if b {
        "true"@
    } else {
        "false"@
    }
}

/// The message reported by a finished warm-up: the duration, on a partial
/// success which of the two resources was preloaded, and on failure the
/// collected errors.
pub open spec fn spec_init_message(csrf_loaded: bool, ports_loaded: bool, ms: int, errs: Seq<
    Seq<char>,
>) -> Seq<char> {
    if csrf_loaded && ports_loaded {
        "缓存初始化成功 ("@ + spec_dec_chars(ms) + "ms)"@
    } else if csrf_loaded || ports_loaded {
        "缓存部分初始化成功 ("@ + spec_dec_chars(ms) + "ms) - CSRF: "@ + spec_bool_text(
            csrf_loaded,
        ) + ", 端口: "@ + spec_bool_text(ports_loaded)
    } else {
        "缓存初始化失败 ("@ + spec_dec_chars(ms) + "ms) - "@ + spec_join_semicolon(errs)
    }
}

/// The report handed back when the warm-up lock is already held: not an
/// error, and no waiting; success reflects what the running warm-up has
/// already cached.
pub fn init_busy_result(stats: CacheStats) -> (r: CacheInitResult)
    ensures
        r.success == (stats.csrf_cache_size > 0 || stats.ports_cache_size > 0),
        r.csrf_cache_preloaded == (stats.csrf_cache_size > 0),
        r.ports_cache_preloaded == (stats.ports_cache_size > 0),
        r.message@ == "缓存正在初始化中，请稍后再试"@,
{
    CacheInitResult {
        success: stats.csrf_cache_size > 0 || stats.ports_cache_size > 0,
        message: "缓存正在初始化中，请稍后再试".to_owned(),
        csrf_cache_preloaded: stats.csrf_cache_size > 0,
        ports_cache_preloaded: stats.ports_cache_size > 0,
    }
}

/// Append a truth value, written out.
fn append_bool_text(message: &mut String, b: bool)
    ensures
        final(message)@ == old(message)@ + spec_bool_text(b),
{
    if b {
        message.append("true");
    } else {
        message.append("false");
    }
}

/// The report of a finished warm-up: successful when at least one of the two
/// resources was preloaded; either fetch may fail without failing the other.
pub fn init_summary(
    csrf_loaded: bool,
    ports_loaded: bool,
    duration_ms: u64,
    errors: &Vec<String>,
) -> (r: CacheInitResult)
    ensures
        r.success == (csrf_loaded || ports_loaded),
        r.csrf_cache_preloaded == csrf_loaded,
        r.ports_cache_preloaded == ports_loaded,
        r.message@ == spec_init_message(
            csrf_loaded,
            ports_loaded,
            duration_ms as int,
            errors@.map_values(|s: String| s@),
        ),
{
    let ms = u64_to_string(duration_ms);
    let mut message: String;
    if csrf_loaded && ports_loaded {
        message = "缓存初始化成功 (".to_owned();
        message.append(ms.as_str());
        message.append("ms)");
    } else if csrf_loaded || ports_loaded {
        message = "缓存部分初始化成功 (".to_owned();
        message.append(ms.as_str());
        message.append("ms) - CSRF: ");
        append_bool_text(&mut message, csrf_loaded);
        message.append(", 端口: ");
        append_bool_text(&mut message, ports_loaded);
    } else {
        message = "缓存初始化失败 (".to_owned();
        message.append(ms.as_str());
        message.append("ms) - ");
        let joined = join_semicolon(errors);
        message.append(joined.as_str());
    }
    CacheInitResult {
        success: csrf_loaded || ports_loaded,
        message,
        csrf_cache_preloaded: csrf_loaded,
        ports_cache_preloaded: ports_loaded,
    }
}

} // verus!

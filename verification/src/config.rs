//! Configuration: every knob is clamped to its stated range, out-of-range
//! or missing values fall back to the default. The safe ratio is held in
//! hundredths (85 stands for 0.85) so that the checks stay in integers;
//! the surrounding program converts when it reads the file.

use vstd::prelude::*;

verus! {

/// The raw knobs as read from the configuration file: absent fields are
/// `None`, and nothing is validated yet. Sizes are in the units the file
/// uses (mebibytes, kibibytes, minutes); the ratio is in hundredths.
pub struct RawConfig {
    pub client_chunk_mb: Option<u64>,
    pub parallel_chunks: Option<usize>,
    pub discord_safe_ratio_pct: Option<u64>,
    pub zip_compress_level: Option<u32>,
    pub discord_parallel_sends: Option<usize>,
    pub tg_parallel_sends: Option<usize>,
    pub discord_send_retries: Option<u32>,
    pub discord_retry_base_delay_s: Option<u64>,
    pub http_timeout_s: Option<u64>,
    pub retry_count: Option<u32>,
    pub retry_base_delay_s: Option<u64>,
    pub part_delay_ms: Option<u64>,
    pub stream_buffer_kb: Option<usize>,
    pub large_file_threshold_mb: Option<u64>,
    pub max_total_upload_mb: Option<u64>,
    pub session_ttl_minutes: Option<u64>,
    pub gc_interval_minutes: Option<u64>,
    pub host: Option<String>,
    pub port: Option<u16>,
    pub log_level: Option<String>,
    pub keep_alive_s: Option<u64>,
    pub max_concurrency: Option<usize>,
    pub history_file: Option<String>,
    pub folders_file: Option<String>,
    pub sessions_file: Option<String>,
    pub tg_file_limit_mb: Option<u64>,
}

impl RawConfig {
    /// A file with nothing set: every knob at its default.
    pub fn empty() -> (r: RawConfig)
        ensures
            r.client_chunk_mb is None,
            r.parallel_chunks is None,
            r.discord_safe_ratio_pct is None,
            r.zip_compress_level is None,
            r.discord_parallel_sends is None,
            r.tg_parallel_sends is None,
            r.discord_send_retries is None,
            r.discord_retry_base_delay_s is None,
            r.http_timeout_s is None,
            r.retry_count is None,
            r.retry_base_delay_s is None,
            r.part_delay_ms is None,
            r.stream_buffer_kb is None,
            r.large_file_threshold_mb is None,
            r.max_total_upload_mb is None,
            r.session_ttl_minutes is None,
            r.gc_interval_minutes is None,
            r.host is None,
            r.port is None,
            r.log_level is None,
            r.keep_alive_s is None,
            r.max_concurrency is None,
            r.history_file is None,
            r.folders_file is None,
            r.sessions_file is None,
            r.tg_file_limit_mb is None,
    {
        RawConfig {
            client_chunk_mb: None,
            parallel_chunks: None,
            discord_safe_ratio_pct: None,
            zip_compress_level: None,
            discord_parallel_sends: None,
            tg_parallel_sends: None,
            discord_send_retries: None,
            discord_retry_base_delay_s: None,
            http_timeout_s: None,
            retry_count: None,
            retry_base_delay_s: None,
            part_delay_ms: None,
            stream_buffer_kb: None,
            large_file_threshold_mb: None,
            max_total_upload_mb: None,
            session_ttl_minutes: None,
            gc_interval_minutes: None,
            host: None,
            port: None,
            log_level: None,
            keep_alive_s: None,
            max_concurrency: None,
            history_file: None,
            folders_file: None,
            sessions_file: None,
            tg_file_limit_mb: None,
        }
    }
}

/// The validated configuration: byte sizes expanded, durations in
/// seconds, and every knob inside its range.
pub struct Config {
    pub client_chunk_bytes: u64,
    pub parallel_chunks: usize,
    pub discord_safe_ratio_pct: u64,
    pub zip_compress_level: u32,
    pub discord_parallel_sends: usize,
    pub tg_parallel_sends: usize,
    pub discord_send_retries: u32,
    pub discord_retry_base_s: u64,
    pub http_timeout_s: u64,
    pub download_retry: u32,
    pub download_retry_base_s: u64,
    pub part_delay_ms: u64,
    pub read_buffer_bytes: usize,
    pub large_file_threshold_mb: u64,
    pub max_upload_ram_bytes: u64,
    pub session_ttl_s: u64,
    pub gc_interval_s: u64,
    pub host: String,
    pub port: u16,
    pub log_level: String,
    pub keep_alive_s: u64,
    pub max_concurrency: usize,
    pub history_file: String,
    pub folders_file: String,
    pub sessions_file: String,
    pub tg_file_limit_bytes: u64,
}

/// A value clamped to its range: an absent or out-of-range value falls
/// back to the default.
pub open spec fn spec_clamp_u64(v: Option<u64>, default: u64, lo: u64, hi: u64) -> u64 {
    match v {
        Some(x) => if lo <= x && x <= hi {
            x
        } else {
            default
        },
        None => default,
    }
}

/// Clamp an optional value to `lo ..= hi`, defaulting when absent or out
/// of range.
pub fn clamp_u64(v: Option<u64>, default: u64, lo: u64, hi: u64) -> (r: u64)
    ensures
        r == spec_clamp_u64(v, default, lo, hi),
{
    match v {
        Some(x) => if lo <= x && x <= hi {
            x
        } else {
            default
        },
        None => default,
    }
}

/// `spec_clamp_u64`, for `usize` knobs.
pub open spec fn spec_clamp_usize(v: Option<usize>, default: usize, lo: usize, hi: usize) -> usize {
    match v {
        Some(x) => if lo <= x && x <= hi {
            x
        } else {
            default
        },
        None => default,
    }
}

/// Clamp an optional `usize` value.
pub fn clamp_usize(v: Option<usize>, default: usize, lo: usize, hi: usize) -> (r: usize)
    ensures
        r == spec_clamp_usize(v, default, lo, hi),
{
    match v {
        Some(x) => if lo <= x && x <= hi {
            x
        } else {
            default
        },
        None => default,
    }
}

/// `spec_clamp_u64`, for `u32` knobs.
pub open spec fn spec_clamp_u32(v: Option<u32>, default: u32, lo: u32, hi: u32) -> u32 {
    match v {
        Some(x) => if lo <= x && x <= hi {
            x
        } else {
            default
        },
        None => default,
    }
}

/// Clamp an optional `u32` value.
pub fn clamp_u32(v: Option<u32>, default: u32, lo: u32, hi: u32) -> (r: u32)
    ensures
        r == spec_clamp_u32(v, default, lo, hi),
{
    match v {
        Some(x) => if lo <= x && x <= hi {
            x
        } else {
            default
        },
        None => default,
    }
}

/// A value bounded only from below.
pub open spec fn spec_floor_u64(v: Option<u64>, default: u64, lo: u64) -> u64 {
    match v {
        Some(x) => if x >= lo {
            x
        } else {
            default
        },
        None => default,
    }
}

/// Bound an optional value from below, defaulting when absent or too
/// small.
pub fn floor_u64(v: Option<u64>, default: u64, lo: u64) -> (r: u64)
    ensures
        r == spec_floor_u64(v, default, lo),
{
    match v {
        Some(x) => if x >= lo {
            x
        } else {
            default
        },
        None => default,
    }
}

/// The accepted log level names.
pub open spec fn spec_log_level_ok(s: Seq<char>) -> bool {
    ||| s == seq!['d', 'e', 'b', 'u', 'g']
    ||| s == seq!['i', 'n', 'f', 'o']
    ||| s == seq!['w', 'a', 'r', 'n', 'i', 'n', 'g']
    ||| s == seq!['e', 'r', 'r', 'o', 'r']
    ||| s == seq!['c', 'r', 'i', 't', 'i', 'c', 'a', 'l']
}

impl Config {
    /// Validate a raw configuration: each knob is kept when inside its
    /// range and replaced by its default otherwise, then sizes become
    /// bytes and durations become seconds.
    pub fn from_raw(raw: RawConfig) -> (r: Config)
        ensures
            r.client_chunk_bytes == spec_clamp_u64(raw.client_chunk_mb, 4, 1, 50) * 0x10_0000,
            r.parallel_chunks == spec_clamp_usize(raw.parallel_chunks, 4, 1, 16),
            r.discord_safe_ratio_pct == spec_clamp_u64(raw.discord_safe_ratio_pct, 85, 50, 99),
            r.zip_compress_level == spec_clamp_u32(raw.zip_compress_level, 0, 0, 9),
            r.discord_parallel_sends == spec_clamp_usize(raw.discord_parallel_sends, 3, 1, 5),
            r.tg_parallel_sends == spec_clamp_usize(raw.tg_parallel_sends, 3, 1, 5),
            r.discord_send_retries == spec_clamp_u32(raw.discord_send_retries, 3, 1, 10),
            r.discord_retry_base_s == spec_clamp_u64(raw.discord_retry_base_delay_s, 2, 1, 30),
            r.http_timeout_s == spec_clamp_u64(raw.http_timeout_s, 600, 30, 3600),
            r.download_retry == spec_clamp_u32(raw.retry_count, 3, 1, 10),
            r.download_retry_base_s == spec_clamp_u64(raw.retry_base_delay_s, 2, 1, 30),
            r.part_delay_ms == spec_clamp_u64(raw.part_delay_ms, 150, 0, 5000),
            r.read_buffer_bytes == spec_clamp_usize(raw.stream_buffer_kb, 64, 8, 4096) * 1024,
            r.large_file_threshold_mb == spec_floor_u64(raw.large_file_threshold_mb, 500, 50),
            r.max_upload_ram_bytes == spec_mb_bytes_sat(
                match raw.max_total_upload_mb {
                    Some(v) => v,
                    None => 512,
                },
            ),
            r.session_ttl_s == spec_clamp_u64(raw.session_ttl_minutes, 60, 5, 1440) * 60,
            r.gc_interval_s == spec_clamp_u64(raw.gc_interval_minutes, 10, 1, 120) * 60,
            raw.host is Some ==> r.host == raw.host->0,
            raw.host is None ==> r.host@ == seq!['0', '.', '0', '.', '0', '.', '0'],
            r.port == (match raw.port {
                Some(p) => p,
                None => 8000,
            }),
            raw.log_level is Some && spec_log_level_ok(raw.log_level->0@) ==> r.log_level
                == raw.log_level->0,
            (raw.log_level is None || !spec_log_level_ok(raw.log_level->0@)) ==> r.log_level@
                == seq!['i', 'n', 'f', 'o'],
            r.keep_alive_s == spec_clamp_u64(raw.keep_alive_s, 600, 10, 3600),
            r.max_concurrency == spec_clamp_usize(raw.max_concurrency, 5, 1, 100),
            raw.history_file is Some ==> r.history_file == raw.history_file->0,
            raw.history_file is None ==> r.history_file@ == "file_history.json"@,
            raw.folders_file is Some ==> r.folders_file == raw.folders_file->0,
            raw.folders_file is None ==> r.folders_file@ == "folders.json"@,
            raw.sessions_file is Some ==> r.sessions_file == raw.sessions_file->0,
            raw.sessions_file is None ==> r.sessions_file@ == "upload_sessions.json"@,
            r.tg_file_limit_bytes == spec_clamp_u64(raw.tg_file_limit_mb, 50, 10, 4000)
                * 0x10_0000,
            r.discord_safe_ratio_pct <= 100,
            1 <= r.discord_send_retries <= 10,
            1 <= r.discord_retry_base_s <= 30,
            1 <= r.download_retry <= 10,
            1 <= r.download_retry_base_s <= 30,
            r.zip_compress_level <= 9,
            r.tg_file_limit_bytes <= 4000 * 0x10_0000,
    {
        let client_chunk_mb = clamp_u64(raw.client_chunk_mb, 4, 1, 50);
        let stream_buffer_kb = clamp_usize(raw.stream_buffer_kb, 64, 8, 4096);
        let max_total_upload_mb = match raw.max_total_upload_mb {
            Some(v) => v,
            None => 512,
        };
        let host = match raw.host {
            Some(h) => h,
            None => {
                let mut h = String::new();
                crate::strutil::push_char(&mut h, '0');
                crate::strutil::push_char(&mut h, '.');
                crate::strutil::push_char(&mut h, '0');
                crate::strutil::push_char(&mut h, '.');
                crate::strutil::push_char(&mut h, '0');
                crate::strutil::push_char(&mut h, '.');
                crate::strutil::push_char(&mut h, '0');
                proof {
                    assert(h@ =~= seq!['0', '.', '0', '.', '0', '.', '0']);
                }
                h
            },
        };
        let log_level = match raw.log_level {
            Some(l) => {
                proof {
                    reveal_strlit("debug");
                    reveal_strlit("info");
                    reveal_strlit("warning");
                    reveal_strlit("error");
                    reveal_strlit("critical");
                }
                let ok = crate::strutil::str_eq(l.as_str(), "debug") || crate::strutil::str_eq(
                    l.as_str(),
                    "info",
                ) || crate::strutil::str_eq(l.as_str(), "warning") || crate::strutil::str_eq(
                    l.as_str(),
                    "error",
                ) || crate::strutil::str_eq(l.as_str(), "critical");
                proof {
                    assert("debug"@ =~= seq!['d', 'e', 'b', 'u', 'g']);
                    assert("info"@ =~= seq!['i', 'n', 'f', 'o']);
                    assert("warning"@ =~= seq!['w', 'a', 'r', 'n', 'i', 'n', 'g']);
                    assert("error"@ =~= seq!['e', 'r', 'r', 'o', 'r']);
                    assert("critical"@ =~= seq!['c', 'r', 'i', 't', 'i', 'c', 'a', 'l']);
                    assert(ok == spec_log_level_ok(l@));
                }
                if ok {
                    l
                } else {
                    default_log_level()
                }
            },
            None => default_log_level(),
        };
        let history_file = match raw.history_file {
            Some(f) => f,
            None => {
                let f = default_name_history();
                f
            },
        };
        let folders_file = match raw.folders_file {
            Some(f) => f,
            None => default_name_folders(),
        };
        let sessions_file = match raw.sessions_file {
            Some(f) => f,
            None => default_name_sessions(),
        };
        let mb: u64 = 0x10_0000;
        Config {
            client_chunk_bytes: client_chunk_mb * mb,
            parallel_chunks: clamp_usize(raw.parallel_chunks, 4, 1, 16),
            discord_safe_ratio_pct: clamp_u64(raw.discord_safe_ratio_pct, 85, 50, 99),
            zip_compress_level: clamp_u32(raw.zip_compress_level, 0, 0, 9),
            discord_parallel_sends: clamp_usize(raw.discord_parallel_sends, 3, 1, 5),
            tg_parallel_sends: clamp_usize(raw.tg_parallel_sends, 3, 1, 5),
            discord_send_retries: clamp_u32(raw.discord_send_retries, 3, 1, 10),
            discord_retry_base_s: clamp_u64(raw.discord_retry_base_delay_s, 2, 1, 30),
            http_timeout_s: clamp_u64(raw.http_timeout_s, 600, 30, 3600),
            download_retry: clamp_u32(raw.retry_count, 3, 1, 10),
            download_retry_base_s: clamp_u64(raw.retry_base_delay_s, 2, 1, 30),
            part_delay_ms: clamp_u64(raw.part_delay_ms, 150, 0, 5000),
            read_buffer_bytes: stream_buffer_kb * 1024,
            large_file_threshold_mb: floor_u64(raw.large_file_threshold_mb, 500, 50),
            max_upload_ram_bytes: mb_bytes_sat(max_total_upload_mb),
            session_ttl_s: clamp_u64(raw.session_ttl_minutes, 60, 5, 1440) * 60,
            gc_interval_s: clamp_u64(raw.gc_interval_minutes, 10, 1, 120) * 60,
            host,
            port: match raw.port {
                Some(p) => p,
                None => 8000,
            },
            log_level,
            keep_alive_s: clamp_u64(raw.keep_alive_s, 600, 10, 3600),
            max_concurrency: clamp_usize(raw.max_concurrency, 5, 1, 100),
            history_file,
            folders_file,
            sessions_file,
            tg_file_limit_bytes: clamp_u64(raw.tg_file_limit_mb, 50, 10, 4000) * mb,
        }
    }
}

/// The default log level name.
fn default_log_level() -> (r: String)
    ensures
        r@ == seq!['i', 'n', 'f', 'o'],
{
    let mut s = String::new();
    crate::strutil::push_char(&mut s, 'i');
    crate::strutil::push_char(&mut s, 'n');
    crate::strutil::push_char(&mut s, 'f');
    crate::strutil::push_char(&mut s, 'o');
    proof {
        assert(s@ =~= seq!['i', 'n', 'f', 'o']);
    }
    s
}

/// The default history file name.
fn default_name_history() -> (r: String)
    ensures
        r@ == "file_history.json"@,
{
    proof {
        reveal_strlit("file_history.json");
    }
    let r = name_from("file_history.json");
    r
}

/// The default folders file name.
fn default_name_folders() -> (r: String)
    ensures
        r@ == "folders.json"@,
{
    let r = name_from("folders.json");
    r
}

/// The default sessions file name.
fn default_name_sessions() -> (r: String)
    ensures
        r@ == "upload_sessions.json"@,
{
    let r = name_from("upload_sessions.json");
    r
}

/// Copy a name literal into an owned string.
fn name_from(s: &str) -> (r: String)
    ensures
        r@ == s@,
{
    s.to_owned()
}

/// Mebibytes to bytes; a count too large to express saturates.
pub open spec fn spec_mb_bytes_sat(mb: u64) -> u64 {
    if mb * 0x10_0000 <= u64::MAX {
        (mb * 0x10_0000) as u64
    } else {
        u64::MAX
    }
}

/// Convert mebibytes to bytes, saturating on overflow.
pub fn mb_bytes_sat(mb: u64) -> (r: u64)
    ensures
        r == spec_mb_bytes_sat(mb),
{
    match mb.checked_mul(0x10_0000) {
        Some(v) => v,
        None => u64::MAX,
    }
}

} // verus!

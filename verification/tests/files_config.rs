use discord_drive::config::{Config, RawConfig};
use discord_drive::download::slice_chunks;
use discord_drive::envfile::{backend_b_enabled, env_lookup, parse_env, render_env};
use discord_drive::channels::{
    category_has_children, find_category, find_channel, ChannelInfo, ChannelKind,
};
use discord_drive::files::{
    file_category, mime_for, move_record, records_in_folder, remove_record,
    remove_records_by_channel, rename_record, search_indices, thumbnail_decision, total_mb_100,
    ThumbDecision,
};
use discord_drive::limits::{chunk_body_limit, packed_fits};
use discord_drive::names::sanitize_name;
use discord_drive::records::FileRecord;
use discord_drive::retry::{backoff_delay_s, retry_step, RetryStep};
use discord_drive::strutil::{i64_to_string, u64_to_string};

fn record(id: i64, filename: &str, folder: Option<&str>, size_mb_100: u64) -> FileRecord {
    FileRecord {
        id,
        filename: filename.to_string(),
        size_mb_100,
        channel_id: format!("ch{id}"),
        channel_name: String::new(),
        folder_id: folder.map(|f| f.to_string()),
        folder_name: None,
        status: "sent".to_string(),
        method: String::new(),
        method_key: "direct".to_string(),
        parts: 1,
        parts_info: Vec::new(),
        message_ids: Vec::new(),
        jump_url: None,
        sent_at: String::new(),
    }
}

#[test]
fn sanitize_names() {
    assert_eq!(sanitize_name("My File.txt"), "my-file");
    assert_eq!(sanitize_name("HELLO_world 2.mp4"), "hello_world-2");
    assert_eq!(sanitize_name("a  b"), "a-b");
    assert_eq!(sanitize_name("--a--"), "a");
    assert_eq!(sanitize_name(""), "file");
    assert_eq!(sanitize_name("!!!.png"), "file");
    assert_eq!(sanitize_name(".bashrc"), "bashrc");
    assert_eq!(sanitize_name("archive.tar.gz"), "archivetar");
    let long = "x".repeat(150);
    assert_eq!(sanitize_name(&long).len(), 100);
}

#[test]
fn mime_table() {
    assert_eq!(mime_for("a.JPG"), "image/jpeg");
    assert_eq!(mime_for("a.jpeg"), "image/jpeg");
    assert_eq!(mime_for("a.png"), "image/png");
    assert_eq!(mime_for("a.svg"), "image/svg+xml");
    assert_eq!(mime_for("a.mp4"), "video/mp4");
    assert_eq!(mime_for("a.mp3"), "audio/mpeg");
    assert_eq!(mime_for("a.pdf"), "application/pdf");
    assert_eq!(mime_for("a.md"), "text/plain");
    assert_eq!(mime_for("a.htm"), "text/html");
    assert_eq!(mime_for("a.js"), "application/javascript");
    assert_eq!(mime_for("a.json"), "application/json");
    assert_eq!(mime_for("a.bin"), "application/octet-stream");
    assert_eq!(mime_for("noext"), "application/octet-stream");
}

#[test]
fn categories() {
    assert_eq!(file_category("a.png"), "image");
    assert_eq!(file_category("a.MKV"), "video");
    assert_eq!(file_category("a.flac"), "audio");
    assert_eq!(file_category("a.pdf"), "pdf");
    assert_eq!(file_category("a.docx"), "text");
}

#[test]
fn thumbnail_gate() {
    assert_eq!(thumbnail_decision(false, "image", false, 0), ThumbDecision::NotFound);
    assert_eq!(thumbnail_decision(true, "pdf", false, 0), ThumbDecision::Unsupported);
    assert_eq!(thumbnail_decision(true, "image", true, 0), ThumbDecision::Cached);
    // A video over 200 MB is refused.
    assert_eq!(thumbnail_decision(true, "video", false, 20001), ThumbDecision::TooLarge);
    assert_eq!(thumbnail_decision(true, "video", false, 20000), ThumbDecision::Render);
    // A huge image is still rendered (only videos are capped).
    assert_eq!(thumbnail_decision(true, "image", false, 99999), ThumbDecision::Render);
}

#[test]
fn folder_filtering() {
    let history = vec![
        record(1, "a", None, 0),
        record(2, "b", Some("77"), 0),
        record(3, "c", None, 0),
        record(4, "d", Some("78"), 0),
    ];
    let roots = records_in_folder(&history, None);
    assert_eq!(roots, vec![0, 2]);
    let in77 = records_in_folder(&history, Some("77"));
    assert_eq!(in77, vec![1]);
    let in_none = records_in_folder(&history, Some("99"));
    assert!(in_none.is_empty());
}

#[test]
fn search_is_case_insensitive_substring() {
    let history = vec![
        record(1, "Holiday Movie.mp4", None, 0),
        record(2, "notes.txt", None, 0),
        record(3, "MOVIE-extras.zip", None, 0),
    ];
    assert_eq!(search_indices(&history, "movie"), vec![0, 2]);
    assert_eq!(search_indices(&history, "NOTES"), vec![1]);
    assert!(search_indices(&history, "zzz").is_empty());
}

#[test]
fn search_folds_case_beyond_ascii() {
    let history = vec![
        record(1, "PH\u{1ea6}N 1.mp4", None, 0),
        record(2, "plain.txt", None, 0),
    ];
    // The uppercase letter folds to its lowercase form on both sides.
    assert_eq!(search_indices(&history, "ph\u{1ea7}n"), vec![0]);
    assert_eq!(search_indices(&history, "PH\u{1ea6}N"), vec![0]);
}

#[test]
fn rename_move_remove() {
    let mut history = vec![record(1, "a", None, 0), record(2, "b", None, 0)];
    assert!(rename_record(&mut history, 2, "bb".to_string()));
    assert_eq!(history[1].filename, "bb");
    assert!(!rename_record(&mut history, 9, "x".to_string()));
    assert!(move_record(&mut history, 1, Some("7".to_string()), Some("Docs".to_string())));
    assert_eq!(history[0].folder_id.as_deref(), Some("7"));
    assert_eq!(history[0].folder_name.as_deref(), Some("Docs"));
    remove_record(&mut history, 1);
    assert_eq!(history.len(), 1);
    assert_eq!(history[0].id, 2);
}

#[test]
fn channel_delete_cascades_to_history() {
    let mut history = vec![record(1, "a", None, 0), record(2, "b", None, 0)];
    remove_records_by_channel(&mut history, "ch1");
    assert_eq!(history.len(), 1);
    assert_eq!(history[0].id, 2);
}

#[test]
fn stats_sum_sizes() {
    let history = vec![record(1, "a", None, 150), record(2, "b", None, 275)];
    assert_eq!(total_mb_100(&history), 425);
    assert_eq!(total_mb_100(&Vec::new()), 0);
}

#[test]
fn config_defaults() {
    let c = Config::from_raw(RawConfig::empty());
    assert_eq!(c.client_chunk_bytes, 4 * 1024 * 1024);
    assert_eq!(c.parallel_chunks, 4);
    assert_eq!(c.discord_safe_ratio_pct, 85);
    assert_eq!(c.zip_compress_level, 0);
    assert_eq!(c.discord_parallel_sends, 3);
    assert_eq!(c.tg_parallel_sends, 3);
    assert_eq!(c.discord_send_retries, 3);
    assert_eq!(c.discord_retry_base_s, 2);
    assert_eq!(c.http_timeout_s, 600);
    assert_eq!(c.download_retry, 3);
    assert_eq!(c.download_retry_base_s, 2);
    assert_eq!(c.part_delay_ms, 150);
    assert_eq!(c.read_buffer_bytes, 64 * 1024);
    assert_eq!(c.large_file_threshold_mb, 500);
    assert_eq!(c.max_upload_ram_bytes, 512 * 1024 * 1024);
    assert_eq!(c.session_ttl_s, 3600);
    assert_eq!(c.gc_interval_s, 600);
    assert_eq!(c.host, "0.0.0.0");
    assert_eq!(c.port, 8000);
    assert_eq!(c.log_level, "info");
    assert_eq!(c.keep_alive_s, 600);
    assert_eq!(c.max_concurrency, 5);
    assert_eq!(c.history_file, "file_history.json");
    assert_eq!(c.folders_file, "folders.json");
    assert_eq!(c.sessions_file, "upload_sessions.json");
    assert_eq!(c.tg_file_limit_bytes, 50 * 1024 * 1024);
}

#[test]
fn config_out_of_range_falls_back() {
    let mut raw = RawConfig::empty();
    raw.client_chunk_mb = Some(99);
    raw.discord_safe_ratio_pct = Some(150);
    raw.zip_compress_level = Some(12);
    raw.session_ttl_minutes = Some(2);
    raw.log_level = Some("loud".to_string());
    let c = Config::from_raw(raw);
    assert_eq!(c.client_chunk_bytes, 4 * 1024 * 1024);
    assert_eq!(c.discord_safe_ratio_pct, 85);
    assert_eq!(c.zip_compress_level, 0);
    assert_eq!(c.session_ttl_s, 3600);
    assert_eq!(c.log_level, "info");
}

#[test]
fn config_in_range_is_kept() {
    let mut raw = RawConfig::empty();
    raw.client_chunk_mb = Some(8);
    raw.discord_safe_ratio_pct = Some(90);
    raw.tg_file_limit_mb = Some(2000);
    raw.log_level = Some("debug".to_string());
    let c = Config::from_raw(raw);
    assert_eq!(c.client_chunk_bytes, 8 * 1024 * 1024);
    assert_eq!(c.discord_safe_ratio_pct, 90);
    assert_eq!(c.tg_file_limit_bytes, 2000 * 1024 * 1024);
    assert_eq!(c.log_level, "debug");
}

#[test]
fn packed_part_gates_on_the_hard_cap() {
    assert!(packed_fits(10, 10));
    assert!(!packed_fits(11, 10));
    assert!(packed_fits(0, 0));
}

#[test]
fn chunk_body_limit_has_a_floor() {
    // 4 MiB chunks: 20% headroom is far below the 50 MiB floor.
    assert_eq!(chunk_body_limit(4 * 1024 * 1024), 50 * 1024 * 1024);
    // 50 MiB chunks: the headroom wins.
    assert_eq!(chunk_body_limit(50 * 1024 * 1024), 50 * 1024 * 1024 * 12 / 10);
}

#[test]
fn backoff_formula() {
    assert_eq!(backoff_delay_s(2, 0), 1);
    assert_eq!(backoff_delay_s(2, 3), 8);
    // Base 1 collapses to a constant one-second backoff.
    assert_eq!(backoff_delay_s(1, 7), 1);
    assert_eq!(
        retry_step(0, 3, 2),
        RetryStep::Retry { delay_s: 1 }
    );
    assert_eq!(
        retry_step(1, 3, 2),
        RetryStep::Retry { delay_s: 2 }
    );
    assert_eq!(retry_step(2, 3, 2), RetryStep::GiveUp);
}

#[test]
fn backoff_saturates_instead_of_overflowing() {
    assert_eq!(backoff_delay_s(u64::MAX, 2), u64::MAX);
}

#[test]
fn slices_reassemble() {
    let data: Vec<u8> = (0..1000u32).map(|i| (i % 256) as u8).collect();
    let slices = slice_chunks(&data, 256);
    assert_eq!(slices.len(), 4);
    assert_eq!(slices[0].len(), 256);
    assert_eq!(slices[3].len(), 1000 - 3 * 256);
    let mut back = Vec::new();
    for s in &slices {
        back.extend_from_slice(s);
    }
    assert_eq!(back, data);
    assert!(slice_chunks(&Vec::new(), 16).is_empty());
}

#[test]
fn env_file_grammar() {
    let text = "# comment\nDISCORD_TOKEN = tok123 \n\n  TELEGRAM_TOKEN=\nBAD LINE\nA=1\nA=2";
    let pairs = parse_env(text);
    let keys: Vec<&str> = pairs.iter().map(|p| p.0.as_str()).collect();
    assert_eq!(keys, vec!["DISCORD_TOKEN", "TELEGRAM_TOKEN", "A", "A"]);
    assert_eq!(env_lookup(&pairs, "DISCORD_TOKEN"), Some("tok123".to_string()));
    assert_eq!(env_lookup(&pairs, "TELEGRAM_TOKEN"), Some(String::new()));
    // The last write wins.
    assert_eq!(env_lookup(&pairs, "A"), Some("2".to_string()));
    assert_eq!(env_lookup(&pairs, "MISSING"), None);
}

#[test]
fn env_render_round_trips() {
    let pairs = vec![
        ("K".to_string(), "v".to_string()),
        ("X".to_string(), "y z".to_string()),
    ];
    let text = render_env(&pairs);
    assert_eq!(text, "K=v\nX=y z\n");
    let back = parse_env(&text);
    assert_eq!(back, pairs);
}

#[test]
fn backend_b_needs_both_settings() {
    assert!(backend_b_enabled("tok", "chat"));
    assert!(!backend_b_enabled("", "chat"));
    assert!(!backend_b_enabled("tok", ""));
    assert!(!backend_b_enabled("", ""));
}

#[test]
fn channel_lookup() {
    let channels = vec![
        ChannelInfo {
            id: 1,
            name: "Docs".to_string(),
            kind: ChannelKind::Category,
            parent_id: None,
        },
        ChannelInfo {
            id: 2,
            name: "my-file".to_string(),
            kind: ChannelKind::Text,
            parent_id: Some(1),
        },
        ChannelInfo {
            id: 3,
            name: "my-file".to_string(),
            kind: ChannelKind::Text,
            parent_id: None,
        },
    ];
    assert_eq!(find_category(&channels, "docs"), Some(0));
    assert_eq!(find_category(&channels, "other"), None);
    // Name matching folds case beyond ASCII too.
    let accented = vec![ChannelInfo {
        id: 9,
        name: "PH\u{1ea6}N".to_string(),
        kind: ChannelKind::Category,
        parent_id: None,
    }];
    assert_eq!(find_category(&accented, "ph\u{1ea7}n"), Some(0));
    assert_eq!(find_channel(&channels, "my-file", Some(1)), Some(1));
    assert_eq!(find_channel(&channels, "my-file", None), Some(1));
    assert_eq!(find_channel(&channels, "my-file", Some(9)), None);
    assert!(category_has_children(&channels, 1));
    assert!(!category_has_children(&channels, 2));
}

#[test]
fn decimal_renderings() {
    assert_eq!(u64_to_string(0), "0");
    assert_eq!(u64_to_string(90210), "90210");
    assert_eq!(i64_to_string(-42), "-42");
    assert_eq!(i64_to_string(7), "7");
    assert_eq!(i64_to_string(i64::MIN), "-9223372036854775808");
}

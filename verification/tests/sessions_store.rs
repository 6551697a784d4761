use discord_drive::records::{
    finish_result, normalize_parts, part_info_backend_a, part_info_backend_b, size_mb_100,
    FileRecord, PartInfo,
};
use discord_drive::session::{
    can_complete, chunk_decision, create_session, delete_session_record, derive_session_id,
    get_session, mark_chunk_received, new_session, prune_expired, resumable, set_channel_info,
    set_status, ChunkOutcome, SessionStatus, UploadSession,
};
use discord_drive::store::{
    find_folder_name, folder_category, insert_folder_front, new_folder, remove_folder, JsonStore,
};

fn record_with(id: i64, filename: &str, channel: &str) -> FileRecord {
    FileRecord {
        id,
        filename: filename.to_string(),
        size_mb_100: 0,
        channel_id: channel.to_string(),
        channel_name: String::new(),
        folder_id: None,
        folder_name: None,
        status: "sent".to_string(),
        method: String::new(),
        method_key: "direct".to_string(),
        parts: 1,
        parts_info: Vec::new(),
        message_ids: Vec::new(),
        jump_url: None,
        sent_at: String::new(),
    }
}

#[test]
fn session_id_is_md5_prefix() {
    let id = derive_session_id("movie.mkv", 1_700_000_000_123);
    let expected = format!("{:x}", md5::compute("movie.mkv1700000000123".as_bytes()));
    assert_eq!(id.len(), 12);
    assert_eq!(id, expected[..12]);
}

#[test]
fn create_session_writes_a_fresh_uploading_record() {
    let mut sessions: Vec<UploadSession> = Vec::new();
    let id = create_session(&mut sessions, "a.bin", 5_242_880, 2, "", "hi", 42, 1000);
    assert_eq!(sessions.len(), 1);
    let s = &sessions[0];
    assert_eq!(s.session_id, id);
    assert_eq!(s.filename, "a.bin");
    assert_eq!(s.file_size, 5_242_880);
    assert_eq!(s.total_chunks, 2);
    assert!(s.received_chunks.is_empty());
    assert_eq!(s.status, SessionStatus::Uploading);
    assert_eq!(s.created_at, 1000);
    // Creating again under the same id replaces the old row.
    let id2 = create_session(&mut sessions, "a.bin", 9, 1, "", "", 42, 2000);
    assert_eq!(id, id2);
    assert_eq!(sessions.len(), 1);
    assert_eq!(sessions[0].file_size, 9);
}

#[test]
fn mark_chunk_received_is_sorted_unique_and_bounded() {
    let mut sessions = vec![new_session("a", 10, 5, "", "", 1, 1)];
    let id = sessions[0].session_id.clone();
    mark_chunk_received(&mut sessions, id.as_str(), 3);
    mark_chunk_received(&mut sessions, id.as_str(), 0);
    mark_chunk_received(&mut sessions, id.as_str(), 3);
    mark_chunk_received(&mut sessions, id.as_str(), 4);
    mark_chunk_received(&mut sessions, id.as_str(), 9);
    assert_eq!(sessions[0].received_chunks, vec![0, 3, 4]);
}

#[test]
fn get_and_delete_session() {
    let mut sessions = vec![
        new_session("a", 1, 1, "", "", 1, 1),
        new_session("b", 2, 2, "", "", 2, 2),
    ];
    let ida = sessions[0].session_id.clone();
    let idb = sessions[1].session_id.clone();
    assert!(get_session(&sessions, ida.as_str()).is_some());
    delete_session_record(&mut sessions, ida.as_str());
    assert!(get_session(&sessions, ida.as_str()).is_none());
    assert!(get_session(&sessions, idb.as_str()).is_some());
    assert_eq!(sessions.len(), 1);
}

#[test]
fn resume_needs_session_status_and_live_sender() {
    let mut s = new_session("a", 1, 1, "", "", 1, 1);
    assert!(resumable(Some(&s), true));
    assert!(!resumable(Some(&s), false));
    assert!(!resumable(None, true));
    s.status = SessionStatus::Sending;
    assert!(!resumable(Some(&s), true));
}

#[test]
fn chunk_to_a_cancelled_session_is_a_hard_failure() {
    // The sender entry is gone: the handler must answer with a server
    // error, not accept the chunk.
    assert_eq!(chunk_decision(true, 10, false), ChunkOutcome::SenderGone);
    assert_eq!(chunk_decision(false, 10, true), ChunkOutcome::NotFound);
    assert_eq!(chunk_decision(true, 0, true), ChunkOutcome::EmptyChunk);
    assert_eq!(chunk_decision(true, 10, true), ChunkOutcome::Accepted);
}

#[test]
fn complete_needs_every_chunk() {
    let mut s = new_session("a", 1, 3, "", "", 1, 1);
    s.received_chunks = vec![0, 1];
    assert!(!can_complete(&s));
    s.received_chunks = vec![0, 1, 2];
    assert!(can_complete(&s));
}

#[test]
fn status_and_channel_updates_touch_only_their_session() {
    let mut sessions = vec![
        new_session("a", 1, 1, "", "", 1, 1),
        new_session("b", 2, 2, "", "", 2, 2),
    ];
    let ida = sessions[0].session_id.clone();
    set_status(&mut sessions, ida.as_str(), SessionStatus::Sending);
    assert_eq!(sessions[0].status, SessionStatus::Sending);
    assert_eq!(sessions[1].status, SessionStatus::Uploading);
    set_channel_info(
        &mut sessions,
        ida.as_str(),
        "123".to_string(),
        "my-file".to_string(),
        Some("Docs".to_string()),
    );
    assert_eq!(sessions[0].channel_id.as_deref(), Some("123"));
    assert_eq!(sessions[0].channel_name.as_deref(), Some("my-file"));
    assert_eq!(sessions[0].folder_name.as_deref(), Some("Docs"));
    assert!(sessions[1].channel_id.is_none());
}

#[test]
fn gc_drops_stale_uploading_sessions_only() {
    let mut old_uploading = new_session("a", 1, 1, "", "", 1, 1000);
    old_uploading.created_at = 1000;
    let mut old_sending = new_session("b", 1, 1, "", "", 2, 1000);
    old_sending.created_at = 1000;
    old_sending.status = SessionStatus::Sending;
    let fresh = new_session("c", 1, 1, "", "", 3, 8000);
    let keep_b = old_sending.session_id.clone();
    let keep_c = fresh.session_id.clone();
    let mut sessions = vec![old_uploading, old_sending, fresh];
    // Two hours later, with a one-hour ttl.
    prune_expired(&mut sessions, 1000 + 7200, 3600);
    assert_eq!(sessions.len(), 2);
    assert_eq!(sessions[0].session_id, keep_b);
    assert_eq!(sessions[1].session_id, keep_c);
}

#[test]
fn finish_result_sorts_parts_and_numbers_them() {
    let parts = vec![
        part_info_backend_a(3, 33, "c".to_string(), "u3".to_string()),
        part_info_backend_b(2, 22, "f2".to_string()),
        part_info_backend_a(1, 11, "c".to_string(), "u1".to_string()),
    ];
    let r = finish_result(parts, true);
    assert_eq!(r.parts, 3);
    assert_eq!(r.method, "dual");
    let nums: Vec<u32> = r.parts_info.iter().map(|p| p.part).collect();
    assert_eq!(nums, vec![1, 2, 3]);
    // Message ids keep the completion order; jump links too.
    assert_eq!(r.message_ids, vec![33, 22, 11]);
    assert_eq!(r.jump_urls, vec!["u3".to_string(), "u1".to_string()]);
}

#[test]
fn finish_result_methods() {
    let one = vec![part_info_backend_a(1, 1, "c".to_string(), "u".to_string())];
    assert_eq!(finish_result(one, false).method, "direct");
    let two = vec![
        part_info_backend_a(1, 1, "c".to_string(), "u".to_string()),
        part_info_backend_a(2, 2, "c".to_string(), "u".to_string()),
    ];
    assert_eq!(finish_result(two, false).method, "split");
}

#[test]
fn normalize_parts_synthesizes_legacy_records() {
    let mut rec = record_with(1, "a.bin", "777");
    rec.message_ids = vec![100, 200, 300];
    let parts = normalize_parts(&rec);
    assert_eq!(parts.len(), 3);
    for (i, p) in parts.iter().enumerate() {
        assert_eq!(p.part as usize, i + 1);
        assert_eq!(p.platform, "discord");
        assert_eq!(p.message_id, rec.message_ids[i]);
        assert_eq!(p.channel_id.as_deref(), Some("777"));
        assert!(p.file_id.is_none());
        assert!(p.jump_url.is_none());
    }
}

#[test]
fn normalize_parts_prefers_parts_info() {
    let mut rec = record_with(1, "a.bin", "777");
    rec.message_ids = vec![100];
    rec.parts_info = vec![part_info_backend_b(1, 5, "fid".to_string())];
    let parts = normalize_parts(&rec);
    assert_eq!(parts.len(), 1);
    assert_eq!(parts[0].platform, "telegram");
    assert_eq!(parts[0].file_id.as_deref(), Some("fid"));
}

#[test]
fn part_info_shapes() {
    let a = part_info_backend_a(1, 10, "ch".to_string(), "url".to_string());
    assert_eq!(a.platform, "discord");
    assert_eq!(a.channel_id.as_deref(), Some("ch"));
    assert!(a.file_id.is_none());
    let b = part_info_backend_b(2, 20, "fid".to_string());
    assert_eq!(b.platform, "telegram");
    assert!(b.channel_id.is_none());
    assert_eq!(b.file_id.as_deref(), Some("fid"));
    assert!(b.jump_url.is_none());
}

#[test]
fn size_rounding_to_hundredths() {
    assert_eq!(size_mb_100(5 * 1024 * 1024), 500);
    assert_eq!(size_mb_100(0), 0);
    // 1 MiB + half of a hundredth rounds up.
    assert_eq!(size_mb_100(1024 * 1024 + 5243), 101);
    assert_eq!(size_mb_100(1024 * 1024 + 5242), 100);
}

#[test]
fn store_holds_three_collections() {
    let mut store = JsonStore::new();
    assert!(store.load_folders().is_empty());
    let f = new_folder(9, "Docs".to_string(), 1234, "today".to_string());
    let mut folders = store.load_folders().clone();
    insert_folder_front(&mut folders, f);
    store.save_folders(folders);
    assert_eq!(store.load_folders().len(), 1);
    assert_eq!(folder_category(store.load_folders(), 9), Some(1234));
    assert_eq!(folder_category(store.load_folders(), 8), None);
    assert_eq!(
        find_folder_name(store.load_folders(), "9"),
        Some("Docs".to_string())
    );
    assert_eq!(find_folder_name(store.load_folders(), "10"), None);
    let mut folders = store.load_folders().clone();
    remove_folder(&mut folders, 9);
    store.save_folders(folders);
    assert!(store.load_folders().is_empty());
}

use discord_drive::codec::{unzip_or_raw, zip_bytes};
use discord_drive::limits::{compute_input_limit, guild_filesize_limit, PremiumTier};
use discord_drive::sender::{
    build_caption, classify_method, cut_all_parts, part_name, archive_name, routes_to_b,
    StreamingSender, UploadMethod,
};

const MIB: usize = 1024 * 1024;

fn patterned(len: usize) -> Vec<u8> {
    (0..len).map(|i| (i % 251) as u8).collect()
}

fn concat(chunks: &[Vec<u8>]) -> Vec<u8> {
    let mut all = Vec::new();
    for c in chunks {
        all.extend_from_slice(c);
    }
    all
}

#[test]
fn pack_then_unpack_is_identity_stored() {
    let data = patterned(1000);
    let packed = zip_bytes(&data, "blob.part1", 0).unwrap();
    assert_eq!(&packed[..4], b"PK\x03\x04");
    let back = unzip_or_raw(packed).unwrap();
    assert_eq!(back, data);
}

#[test]
fn pack_then_unpack_is_identity_deflated() {
    for level in [1u32, 6, 9] {
        let data = patterned(50_000);
        let packed = zip_bytes(&data, "blob.part2", level).unwrap();
        let back = unzip_or_raw(packed).unwrap();
        assert_eq!(back, data);
    }
}

#[test]
fn raw_bytes_pass_through_unchanged() {
    let data = vec![1u8, 2, 3, 4, 5];
    assert_eq!(unzip_or_raw(data.clone()).unwrap(), data);
    let empty: Vec<u8> = Vec::new();
    assert_eq!(unzip_or_raw(empty.clone()).unwrap(), empty);
    // Three bytes of the magic are not the magic.
    let short = vec![0x50u8, 0x4b, 0x03];
    assert_eq!(unzip_or_raw(short.clone()).unwrap(), short);
}

#[test]
fn malformed_archive_after_magic_is_an_error() {
    let bogus = vec![0x50u8, 0x4b, 0x03, 0x04, 0xff, 0xee, 0xdd];
    assert!(unzip_or_raw(bogus).is_err());
}

#[test]
fn tier_limits() {
    assert_eq!(guild_filesize_limit(PremiumTier::Tier0), 10 * MIB as u64);
    assert_eq!(guild_filesize_limit(PremiumTier::Tier1), 10 * MIB as u64);
    assert_eq!(guild_filesize_limit(PremiumTier::Tier2), 50 * MIB as u64);
    assert_eq!(guild_filesize_limit(PremiumTier::Tier3), 100 * MIB as u64);
}

#[test]
fn input_limit_tier0_at_85_percent() {
    // 10 MiB * 0.85 = 8.5 MiB exactly.
    let limit = compute_input_limit(10 * MIB as u64, 85, false, 50 * MIB as u64);
    assert_eq!(limit, 8_912_896);
}

#[test]
fn input_limit_caps_at_backend_b_when_enabled_and_smaller() {
    let a = compute_input_limit(100 * MIB as u64, 85, true, 50 * MIB as u64);
    assert_eq!(a, (50 * MIB as u64) * 85 / 100);
    let b = compute_input_limit(10 * MIB as u64, 85, true, 50 * MIB as u64);
    assert_eq!(b, 8_912_896);
}

#[test]
fn single_small_upload_is_direct() {
    // 5 MiB in 4 MiB chunks, backend B disabled: one part, direct, backend A.
    let chunks = vec![patterned(4 * MIB), patterned(MIB)];
    let limit = compute_input_limit(10 * MIB as u64, 85, false, 50 * MIB as u64) as usize;
    let parts = cut_all_parts(&chunks, limit, false);
    assert_eq!(parts.len(), 1);
    assert_eq!(parts[0].part, 1);
    assert!(!parts[0].to_backend_b);
    assert_eq!(concat(&[parts[0].data.clone()]), concat(&chunks));
    assert_eq!(classify_method(1, false), UploadMethod::Direct);
}

#[test]
fn twenty_mib_at_tier0_splits_into_three() {
    let chunks: Vec<Vec<u8>> = (0..5).map(|_| patterned(4 * MIB)).collect();
    let limit = 8_912_896usize;
    let parts = cut_all_parts(&chunks, limit, false);
    assert_eq!(parts.len(), 3);
    assert_eq!(parts[0].data.len(), 8_912_896);
    assert_eq!(parts[1].data.len(), 8_912_896);
    assert_eq!(parts[2].data.len(), 20 * MIB - 2 * 8_912_896);
    assert!(parts.iter().all(|p| !p.to_backend_b));
    assert_eq!(classify_method(3, false), UploadMethod::Split);
    let payloads: Vec<Vec<u8>> = parts.into_iter().map(|p| p.data).collect();
    assert_eq!(concat(&payloads), concat(&chunks));
}

#[test]
fn twenty_mib_dual_routes_a_b_a() {
    let chunks: Vec<Vec<u8>> = (0..5).map(|_| patterned(4 * MIB)).collect();
    let limit = 8_912_896usize;
    let parts = cut_all_parts(&chunks, limit, true);
    assert_eq!(parts.len(), 3);
    assert!(!parts[0].to_backend_b);
    assert!(parts[1].to_backend_b);
    assert!(!parts[2].to_backend_b);
    assert_eq!(classify_method(3, true), UploadMethod::Dual);
}

#[test]
fn exact_multiple_has_no_short_part() {
    let chunks = vec![patterned(300), patterned(300)];
    let parts = cut_all_parts(&chunks, 200, false);
    assert_eq!(parts.len(), 3);
    assert!(parts.iter().all(|p| p.data.len() == 200));
}

#[test]
fn empty_input_cuts_no_parts() {
    let chunks: Vec<Vec<u8>> = Vec::new();
    let parts = cut_all_parts(&chunks, 100, false);
    assert_eq!(parts.len(), 0);
}

#[test]
fn routing_policy_is_odd_even() {
    assert!(!routes_to_b(1, true));
    assert!(routes_to_b(2, true));
    assert!(!routes_to_b(3, true));
    assert!(routes_to_b(4, true));
    assert!(!routes_to_b(2, false));
}

#[test]
fn reverse_order_chunks_still_assemble_in_index_order() {
    let c0 = patterned(100);
    let c1: Vec<u8> = vec![7u8; 150];
    let c2: Vec<u8> = vec![9u8; 50];
    let mut m = StreamingSender::new(3, 120, false);
    assert!(m.accept_chunk(2, c2.clone()));
    assert!(m.accept_chunk(1, c1.clone()));
    assert!(m.accept_chunk(0, c0.clone()));
    m.assemble();
    assert!(m.all_in());
    let mut parts = Vec::new();
    while let Some(p) = m.cut_part() {
        parts.push(p);
    }
    if let Some(p) = m.flush_final() {
        parts.push(p);
    }
    let payloads: Vec<Vec<u8>> = parts.into_iter().map(|p| p.data).collect();
    assert_eq!(concat(&payloads), concat(&[c0, c1, c2]));
}

#[test]
fn out_of_order_chunks_wait_for_the_gap() {
    // Post chunks in order [2, 0, 1]: nothing is assembled until 0
    // arrives, and nothing past 1 until 1 arrives.
    let mut m = StreamingSender::new(3, 1000, false);
    assert!(m.accept_chunk(2, vec![3u8; 10]));
    m.assemble();
    assert_eq!(m.buffered_len(), 0);
    assert!(!m.all_in());
    assert!(m.accept_chunk(0, vec![1u8; 10]));
    m.assemble();
    assert_eq!(m.buffered_len(), 10);
    assert!(m.accept_chunk(1, vec![2u8; 10]));
    m.assemble();
    assert_eq!(m.buffered_len(), 30);
    assert!(m.all_in());
    let p = m.flush_final().unwrap();
    let mut expect = vec![1u8; 10];
    expect.extend_from_slice(&[2u8; 10]);
    expect.extend_from_slice(&[3u8; 10]);
    assert_eq!(p.data, expect);
}

#[test]
fn duplicate_and_out_of_range_chunks_are_ignored() {
    let mut m = StreamingSender::new(2, 100, false);
    assert!(m.accept_chunk(0, vec![1u8; 5]));
    assert!(!m.accept_chunk(0, vec![9u8; 5]));
    assert!(!m.accept_chunk(7, vec![9u8; 5]));
    m.assemble();
    assert_eq!(m.buffered_len(), 5);
}

#[test]
fn upload_then_merge_is_byte_identical() {
    // The whole pipeline: cut parts, pack each, unpack each, reassemble.
    let chunks = vec![patterned(700), patterned(300), patterned(513)];
    let original = concat(&chunks);
    let parts = cut_all_parts(&chunks, 400, true);
    let mut merged: Vec<u8> = Vec::new();
    for p in &parts {
        let name = part_name("blob.bin", p.part);
        let packed = zip_bytes(&p.data, name.as_str(), 6).unwrap();
        let unpacked = unzip_or_raw(packed).unwrap();
        merged.extend_from_slice(&unpacked);
    }
    assert_eq!(merged, original);
}

#[test]
fn caption_and_names() {
    assert_eq!(build_caption("a.bin", "", 2), "\u{2702}\u{fe0f} `a.bin` \u{2014} Ph\u{1ea7}n 2");
    assert_eq!(
        build_caption("a.bin", "hello", 1),
        "\u{2702}\u{fe0f} `a.bin` \u{2014} Ph\u{1ea7}n 1\nhello"
    );
    // The message rides along on part 1 only.
    assert_eq!(build_caption("a.bin", "hello", 2), "\u{2702}\u{fe0f} `a.bin` \u{2014} Ph\u{1ea7}n 2");
    assert_eq!(part_name("a.bin", 3), "a.bin.part3");
    assert_eq!(archive_name("a.bin", 3), "a.bin.part3.zip");
}

//! Per-backend size caps and the derived per-part input budget.

use vstd::prelude::*;

verus! {

/// Boost tier of the container on backend A; it sets the hard
/// per-attachment byte cap.
#[derive(Clone, Copy, PartialEq, Eq, Structural, Debug)]
pub enum PremiumTier {
    Tier0,
    Tier1,
    Tier2,
    Tier3,
}

/// One mebibyte, in bytes.
pub const MIB: u64 = 1024 * 1024;

/// Hard attachment cap that backend A grants for a given tier.
pub open spec fn spec_guild_limit(tier: PremiumTier) -> u64 {
    match tier {
        PremiumTier::Tier2 => (50 * 0x10_0000) as u64,
        PremiumTier::Tier3 => (100 * 0x10_0000) as u64,
        _ => (10 * 0x10_0000) as u64,
    }
}

/// Hard attachment cap for `tier`: 50 MiB at tier 2, 100 MiB at tier 3,
/// 10 MiB otherwise.
pub fn guild_filesize_limit(tier: PremiumTier) -> (r: u64)
    ensures
        r == spec_guild_limit(tier),
{
    match tier {
        PremiumTier::Tier2 => 50 * MIB,
        PremiumTier::Tier3 => 100 * MIB,
        _ => 10 * MIB,
    }
}

/// Budget for one backend: the hard cap shrunk by the safe ratio, which is
/// held in hundredths (85 stands for a ratio of 0.85).
pub open spec fn spec_budget(hard_cap: u64, safe_ratio_pct: u64) -> u64 {
    ((hard_cap * safe_ratio_pct) / 100) as u64
}

/// The number of uncompressed bytes drained into a single part: the
/// backend-A budget, further capped by the backend-B budget when backend B
/// is enabled.
pub open spec fn spec_input_limit(
    guild_limit: u64,
    safe_ratio_pct: u64,
    b_enabled: bool,
    b_limit: u64,
) -> u64 {
    let a_budget = spec_budget(guild_limit, safe_ratio_pct);
    let b_budget = if b_enabled {
        spec_budget(b_limit, safe_ratio_pct)
    } else {
        a_budget
    };
    if a_budget <= b_budget {
        a_budget
    } else {
        b_budget
    }
}

/// Derive the uncompressed per-part byte budget from the backend caps and
/// the safe ratio (in hundredths).
pub fn compute_input_limit(
    guild_limit: u64,
    safe_ratio_pct: u64,
    b_enabled: bool,
    b_limit: u64,
) -> (r: u64)
    requires
        guild_limit * safe_ratio_pct <= u64::MAX,
        b_limit * safe_ratio_pct <= u64::MAX,
    ensures
        r == spec_input_limit(guild_limit, safe_ratio_pct, b_enabled, b_limit),
{
    let a_budget: u64 = (guild_limit * safe_ratio_pct) / 100;
    let b_budget: u64 = if b_enabled {
        (b_limit * safe_ratio_pct) / 100
    } else {
        a_budget
    };
    if a_budget <= b_budget {
        a_budget
    } else {
        b_budget
    }
}

/// Whether a packed part may be handed to a backend: its byte count must
/// not exceed that backend's hard cap. A part that fails this gate is a
/// permanent error — a smaller client chunk is required.
pub fn packed_fits(packed_len: usize, hard_cap: u64) -> (r: bool)
    ensures
        r == (packed_len as u64 <= hard_cap),
{
    packed_len as u64 <= hard_cap
}

/// The request-body cap for one chunk upload: the client chunk size plus
/// a fifth of headroom, and never below 50 MiB.
pub open spec fn spec_chunk_body_limit(client_chunk_bytes: u64) -> u64 {
    let padded = (client_chunk_bytes * 12) / 10;
    if padded >= 50 * 0x10_0000 {
        padded as u64
    } else {
        (50 * 0x10_0000) as u64
    }
}

/// Compute the request-body cap for one chunk upload.
pub fn chunk_body_limit(client_chunk_bytes: u64) -> (r: u64)
    requires
        client_chunk_bytes <= u64::MAX / 12,
    ensures
        r == spec_chunk_body_limit(client_chunk_bytes),
{
    let padded = (client_chunk_bytes * 12) / 10;
    let floor: u64 = 50 * MIB;
    if padded >= floor {
        padded
    } else {
        floor
    }
}

} // verus!

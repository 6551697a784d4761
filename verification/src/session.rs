//! Upload sessions: identifiers, the persisted record of which chunks
//! have arrived, the resume and completion gates, and expiry.

use vstd::prelude::*;

use crate::strutil::str_eq;

verus! {

/// The two states an upload session can be in: still receiving chunks,
/// or already handed to the sender.
#[derive(Clone, Copy, PartialEq, Eq, Structural, Debug)]
pub enum SessionStatus {
    Uploading,
    Sending,
}

/// Persistent state of one upload in progress.
pub struct UploadSession {
    /// Twelve hex digits derived from the filename and creation time.
    pub session_id: String,
    /// Name of the file being uploaded.
    pub filename: String,
    /// Announced size in bytes.
    pub file_size: u64,
    /// Announced number of chunks.
    pub total_chunks: usize,
    /// 0-based indices of the chunks received so far: strictly
    /// ascending, hence unique, and all below `total_chunks`.
    pub received_chunks: Vec<usize>,
    /// The folder this upload goes into; empty for the root.
    pub folder_id: String,
    /// Optional message attached to the first part.
    pub message: String,
    /// Where in its life the session stands.
    pub status: SessionStatus,
    /// Creation time, in seconds since the epoch.
    pub created_at: u64,
    /// The per-file channel, once created.
    pub channel_id: Option<String>,
    /// That channel's name, once created.
    pub channel_name: Option<String>,
    /// The folder's display name, if any.
    pub folder_name: Option<String>,
}

/// Two sessions that agree on every field (vector fields by content).
pub open spec fn session_eq(a: UploadSession, b: UploadSession) -> bool {
    &&& a.session_id == b.session_id
    &&& a.filename == b.filename
    &&& a.file_size == b.file_size
    &&& a.total_chunks == b.total_chunks
    &&& a.received_chunks@ == b.received_chunks@
    &&& a.folder_id == b.folder_id
    &&& a.message == b.message
    &&& a.status == b.status
    &&& a.created_at == b.created_at
    &&& a.channel_id == b.channel_id
    &&& a.channel_name == b.channel_name
    &&& a.folder_name == b.folder_name
}

impl Clone for UploadSession {
    fn clone(&self) -> (r: Self)
        ensures
            session_eq(r, *self),
    {
        let r = UploadSession {
            session_id: self.session_id.clone(),
            filename: self.filename.clone(),
            file_size: self.file_size,
            total_chunks: self.total_chunks,
            received_chunks: self.received_chunks.clone(),
            folder_id: self.folder_id.clone(),
            message: self.message.clone(),
            status: self.status,
            created_at: self.created_at,
            channel_id: match &self.channel_id {
                Some(s) => Some(s.clone()),
                None => None,
            },
            channel_name: match &self.channel_name {
                Some(s) => Some(s.clone()),
                None => None,
            },
            folder_name: match &self.folder_name {
                Some(s) => Some(s.clone()),
                None => None,
            },
        };
        proof {
            assert(r.received_chunks@ =~= self.received_chunks@);
        }
        r
    }
}

impl UploadSession {
    /// The chunk bookkeeping invariant: `received_chunks` is strictly
    /// ascending (so sorted and duplicate-free) and every index lies in
    /// `0 .. total_chunks`.
    pub open spec fn received_wf(self) -> bool {
        &&& forall|i: int, j: int|
            0 <= i < j < self.received_chunks@.len() ==> (#[trigger] self.received_chunks@[i]) < (
            #[trigger] self.received_chunks@[j])
        &&& forall|i: int|
            0 <= i < self.received_chunks@.len() ==> (#[trigger] self.received_chunks@[i])
                < self.total_chunks
    }
}

/// Sessions are keyed by their id: no two live sessions share one, and
/// each keeps its chunk bookkeeping invariant.
pub open spec fn sessions_wf(ss: Seq<UploadSession>) -> bool {
    &&& forall|i: int, j: int|
        0 <= i < j < ss.len() ==> (#[trigger] ss[i]).session_id@ != (#[trigger] ss[j]).session_id@
    &&& forall|i: int| 0 <= i < ss.len() ==> (#[trigger] ss[i]).received_wf()
}

/// The 32 lowercase hex digits that the digest of `filename` followed by
/// the decimal millisecond timestamp hashes to.
pub uninterp spec fn session_digest_of(filename: Seq<char>, stamp_ms: i64) -> Seq<char>;

/// Relies on md5::compute: hashes the filename followed by the decimal
/// millisecond timestamp; the digest depends on those two values alone.
#[verifier::external_body]
fn md5_session_digest(filename: &str, stamp_ms: i64) -> (r: String)
    ensures
        r@ == session_digest_of(filename@, stamp_ms),
        r@.len() == 32,
{
    let digest = md5::compute(format!("{filename}{stamp_ms}").as_bytes());
    format!("{digest:x}")
}

/// A session id: the first 12 hex digits of the session digest.
pub open spec fn spec_session_id(filename: Seq<char>, stamp_ms: i64) -> Seq<char> {
    session_digest_of(filename, stamp_ms).take(12)
}

/// Derive the id of a session created for `filename` at `stamp_ms`.
pub fn derive_session_id(filename: &str, stamp_ms: i64) -> (r: String)
    ensures
        r@ == spec_session_id(filename@, stamp_ms),
        r@.len() == 12,
{
    let digest = md5_session_digest(filename, stamp_ms);
    let id = digest.as_str().substring_char(0, 12);
    proof {
        assert(id@ =~= spec_session_id(filename@, stamp_ms));
    }
    id.to_owned()
}

/// Find a session by id; the found index, if any.
fn find_session(sessions: &Vec<UploadSession>, id: &str) -> (r: Option<usize>)
    ensures
        r is Some ==> r->0 < sessions@.len() && sessions@[r->0 as int].session_id@ == id@,
        r is None ==> forall|i: int|
            0 <= i < sessions@.len() ==> (#[trigger] sessions@[i]).session_id@ != id@,
{
    let n = sessions.len();
    let mut i: usize = 0;
    while i < n
        invariant
            i <= n,
            n == sessions@.len(),
            forall|j: int| 0 <= j < i ==> (#[trigger] sessions@[j]).session_id@ != id@,
        decreases n - i,
    {
        if str_eq(sessions[i].session_id.as_str(), id) {
            return Some(i);
        }
        i = i + 1;
    }
    None
}

/// Look a session up by id.
pub fn get_session(sessions: &Vec<UploadSession>, id: &str) -> (r: Option<UploadSession>)
    ensures
        (r is Some) == (exists|i: int|
            0 <= i < sessions@.len() && (#[trigger] sessions@[i]).session_id@ == id@),
        r is Some ==> exists|i: int|
            0 <= i < sessions@.len() && session_eq(#[trigger] sessions@[i], r->0)
                && sessions@[i].session_id@ == id@,
{
    match find_session(sessions, id) {
        Some(i) => Some(sessions[i].clone()),
        None => None,
    }
}

/// The sessions left after dropping the one with the given id.
pub open spec fn spec_sessions_without(ss: Seq<UploadSession>, id: Seq<char>) -> Seq<UploadSession>
    decreases ss.len(),
{
    if ss.len() == 0 {
        Seq::empty()
    } else {
        let rest = spec_sessions_without(ss.drop_last(), id);
        if ss.last().session_id@ == id {
            rest
        } else {
            rest.push(ss.last())
        }
    }
}

/// Remove the session with the given id, if it exists.
pub fn delete_session_record(sessions: &mut Vec<UploadSession>, id: &str)
    ensures
        final(sessions)@ == spec_sessions_without(old(sessions)@, id@),
{
    let ghost orig = old(sessions)@;
    let mut i: usize = 0;
    let ghost mut k: int = 0;
    while i < sessions.len()
        invariant
            0 <= i <= sessions@.len(),
            0 <= k <= orig.len(),
            sessions@.take(i as int) == spec_sessions_without(orig.take(k), id@),
            sessions@.skip(i as int) == orig.skip(k),
        decreases sessions@.len() - i,
    {
        proof {
            assert(sessions@.skip(i as int).len() == orig.skip(k).len());
            assert(k < orig.len());
            assert(orig.take(k + 1).drop_last() =~= orig.take(k));
            assert(orig.take(k + 1).last() == orig[k]);
            assert(sessions@[i as int] == orig.skip(k)[0]);
        }
        let ghost before = sessions@;
        if str_eq(sessions[i].session_id.as_str(), id) {
            sessions.remove(i);
            proof {
                crate::sequtil::lemma_remove_parts(before, i as int);
                crate::sequtil::lemma_skip_step(before, orig, i as int, k);
                k = k + 1;
            }
        } else {
            proof {
                assert(before.take(i + 1) =~= before.take(i as int).push(orig[k]));
                crate::sequtil::lemma_skip_step(before, orig, i as int, k);
                k = k + 1;
            }
            i = i + 1;
        }
    }
    proof {
        assert(k == orig.len());
        assert(orig.take(k) =~= orig);
        assert(sessions@.take(sessions@.len() as int) =~= sessions@);
    }
}

/// Build the fresh record of a session created for `filename` at
/// `stamp_ms` (milliseconds, for the id) and `now_s` (seconds, for the
/// creation time).
pub fn new_session(
    filename: &str,
    file_size: u64,
    total_chunks: usize,
    folder_id: &str,
    message: &str,
    stamp_ms: i64,
    now_s: u64,
) -> (r: UploadSession)
    ensures
        r.session_id@ == spec_session_id(filename@, stamp_ms),
        r.filename@ == filename@,
        r.file_size == file_size,
        r.total_chunks == total_chunks,
        r.received_chunks@.len() == 0,
        r.folder_id@ == folder_id@,
        r.message@ == message@,
        r.status is Uploading,
        r.created_at == now_s,
        r.channel_id is None,
        r.channel_name is None,
        r.folder_name is None,
        r.received_wf(),
{
    UploadSession {
        session_id: derive_session_id(filename, stamp_ms),
        filename: filename.to_owned(),
        file_size,
        total_chunks,
        received_chunks: Vec::new(),
        folder_id: folder_id.to_owned(),
        message: message.to_owned(),
        status: SessionStatus::Uploading,
        created_at: now_s,
        channel_id: None,
        channel_name: None,
        folder_name: None,
    }
}

/// Create a session: derive its id, drop any stored session under that
/// id, and append the fresh record. Returns the new id.
pub fn create_session(
    sessions: &mut Vec<UploadSession>,
    filename: &str,
    file_size: u64,
    total_chunks: usize,
    folder_id: &str,
    message: &str,
    stamp_ms: i64,
    now_s: u64,
) -> (r: String)
    ensures
        r@ == spec_session_id(filename@, stamp_ms),
        final(sessions)@.len() > 0,
        final(sessions)@.drop_last() == spec_sessions_without(old(sessions)@, r@),
        ({
            let s = final(sessions)@.last();
            &&& s.session_id@ == r@
            &&& s.filename@ == filename@
            &&& s.file_size == file_size
            &&& s.total_chunks == total_chunks
            &&& s.received_chunks@.len() == 0
            &&& s.folder_id@ == folder_id@
            &&& s.message@ == message@
            &&& s.status is Uploading
            &&& s.created_at == now_s
            &&& s.channel_id is None
            &&& s.channel_name is None
            &&& s.folder_name is None
        }),
{
    let s = new_session(filename, file_size, total_chunks, folder_id, message, stamp_ms, now_s);
    let id = s.session_id.clone();
    delete_session_record(sessions, id.as_str());
    sessions.push(s);
    proof {
        assert(sessions@.drop_last() =~= spec_sessions_without(old(sessions)@, id@));
    }
    id
}

/// Record that chunk `idx` arrived: inserted in sorted position, never
/// twice, and never at all when it lies outside `0 .. total_chunks`.
/// Sessions other than the addressed one are untouched.
pub fn mark_chunk_received(sessions: &mut Vec<UploadSession>, id: &str, idx: usize)
    requires
        sessions_wf(old(sessions)@),
    ensures
        sessions_wf(final(sessions)@),
        final(sessions)@.len() == old(sessions)@.len(),
        forall|j: int|
            0 <= j < old(sessions)@.len() && (#[trigger] old(sessions)@[j]).session_id@ != id@
                ==> final(sessions)@[j] == old(sessions)@[j],
        forall|j: int|
            0 <= j < old(sessions)@.len() && (#[trigger] old(sessions)@[j]).session_id@ == id@
                ==> {
                let s0 = old(sessions)@[j];
                let s1 = final(sessions)@[j];
                &&& s1.session_id == s0.session_id
                &&& s1.filename == s0.filename
                &&& s1.file_size == s0.file_size
                &&& s1.total_chunks == s0.total_chunks
                &&& s1.folder_id == s0.folder_id
                &&& s1.message == s0.message
                &&& s1.status == s0.status
                &&& s1.created_at == s0.created_at
                &&& s1.channel_id == s0.channel_id
                &&& s1.channel_name == s0.channel_name
                &&& s1.folder_name == s0.folder_name
                &&& forall|v: usize|
                    s1.received_chunks@.contains(v) <==> (s0.received_chunks@.contains(v) || (v
                        == idx && idx < s0.total_chunks))
            },
{
    let found = find_session(sessions, id);
    let i = match found {
        Some(i) => i,
        None => {
            return ;
        },
    };
    let total = sessions[i].total_chunks;
    if idx >= total {
        return ;
    }
    let rc_len = sessions[i].received_chunks.len();
    let mut p: usize = 0;
    while p < rc_len && sessions[i].received_chunks[p] < idx
        invariant
            i < sessions@.len(),
            sessions@ == old(sessions)@,
            rc_len == sessions@[i as int].received_chunks@.len(),
            p <= rc_len,
            forall|j: int|
                0 <= j < p ==> (#[trigger] sessions@[i as int].received_chunks@[j]) < idx,
        decreases rc_len - p,
    {
        p = p + 1;
    }
    if p < rc_len && sessions[i].received_chunks[p] == idx {
        return ;
    }
    let ghost old_ss = sessions@;
    let ghost old_rc = sessions@[i as int].received_chunks@;
    let mut s = sessions.remove(i);
    s.received_chunks.insert(p, idx);
    sessions.insert(i, s);
    proof {
        assert(sessions@ =~= old_ss.update(i as int, sessions@[i as int]));
        let s1 = sessions@[i as int];
        assert(s1.received_chunks@ == old_rc.insert(p as int, idx));
        assert forall|a: int, b: int|
            0 <= a < b < s1.received_chunks@.len() implies (#[trigger] s1.received_chunks@[a]) < (
        #[trigger] s1.received_chunks@[b]) by {
            if p < rc_len {
                assert(old_rc[p as int] > idx);
            }
        }
        assert forall|v: usize| s1.received_chunks@.contains(v) implies (old_rc.contains(v) || v
            == idx) by {
            let k = choose|k: int|
                0 <= k < s1.received_chunks@.len() && s1.received_chunks@[k] == v;
            if k < p {
                assert(old_rc[k] == v);
            } else if k > p {
                assert(old_rc[k - 1] == v);
            }
        }
        assert forall|v: usize| old_rc.contains(v) implies s1.received_chunks@.contains(v) by {
            let k = choose|k: int| 0 <= k < old_rc.len() && old_rc[k] == v;
            if k < p {
                assert(s1.received_chunks@[k] == v);
            } else {
                assert(s1.received_chunks@[k + 1] == v);
            }
        }
        assert(s1.received_chunks@.contains(idx)) by {
            assert(s1.received_chunks@[p as int] == idx);
        }
    }
}

/// Move the addressed session to a new point in its life (the only
/// transition taken is uploading to sending, at completion); every other
/// session and every other field is untouched.
pub fn set_status(sessions: &mut Vec<UploadSession>, id: &str, status: SessionStatus)
    requires
        sessions_wf(old(sessions)@),
    ensures
        final(sessions)@.len() == old(sessions)@.len(),
        forall|j: int|
            0 <= j < old(sessions)@.len() && (#[trigger] old(sessions)@[j]).session_id@ != id@
                ==> final(sessions)@[j] == old(sessions)@[j],
        forall|j: int|
            0 <= j < old(sessions)@.len() && (#[trigger] old(sessions)@[j]).session_id@ == id@
                ==> {
                let s0 = old(sessions)@[j];
                let s1 = final(sessions)@[j];
                &&& s1.status == status
                &&& s1.session_id == s0.session_id
                &&& s1.filename == s0.filename
                &&& s1.file_size == s0.file_size
                &&& s1.total_chunks == s0.total_chunks
                &&& s1.received_chunks == s0.received_chunks
                &&& s1.folder_id == s0.folder_id
                &&& s1.message == s0.message
                &&& s1.created_at == s0.created_at
                &&& s1.channel_id == s0.channel_id
                &&& s1.channel_name == s0.channel_name
                &&& s1.folder_name == s0.folder_name
            },
        sessions_wf(final(sessions)@),
{
    let found = find_session(sessions, id);
    let i = match found {
        Some(i) => i,
        None => {
            return ;
        },
    };
    let ghost before = sessions@;
    let mut s = sessions.remove(i);
    s.status = status;
    sessions.insert(i, s);
    proof {
        assert(sessions@ =~= before.update(i as int, sessions@[i as int]));
    }
}

/// Record the per-file channel resolved for a fresh session; every other
/// session and every other field is untouched.
pub fn set_channel_info(
    sessions: &mut Vec<UploadSession>,
    id: &str,
    channel_id: String,
    channel_name: String,
    folder_name: Option<String>,
)
    requires
        sessions_wf(old(sessions)@),
    ensures
        final(sessions)@.len() == old(sessions)@.len(),
        forall|j: int|
            0 <= j < old(sessions)@.len() && (#[trigger] old(sessions)@[j]).session_id@ != id@
                ==> final(sessions)@[j] == old(sessions)@[j],
        forall|j: int|
            0 <= j < old(sessions)@.len() && (#[trigger] old(sessions)@[j]).session_id@ == id@
                ==> {
                let s0 = old(sessions)@[j];
                let s1 = final(sessions)@[j];
                &&& s1.channel_id == Some(channel_id)
                &&& s1.channel_name == Some(channel_name)
                &&& s1.folder_name == folder_name
                &&& s1.status == s0.status
                &&& s1.session_id == s0.session_id
                &&& s1.filename == s0.filename
                &&& s1.file_size == s0.file_size
                &&& s1.total_chunks == s0.total_chunks
                &&& s1.received_chunks == s0.received_chunks
                &&& s1.folder_id == s0.folder_id
                &&& s1.message == s0.message
                &&& s1.created_at == s0.created_at
            },
        sessions_wf(final(sessions)@),
{
    let found = find_session(sessions, id);
    let i = match found {
        Some(i) => i,
        None => {
            return ;
        },
    };
    let ghost before = sessions@;
    let mut s = sessions.remove(i);
    s.channel_id = Some(channel_id);
    s.channel_name = Some(channel_name);
    s.folder_name = folder_name;
    sessions.insert(i, s);
    proof {
        assert(sessions@ =~= before.update(i as int, sessions@[i as int]));
    }
}

/// A stored session can be resumed only while its sender still runs:
/// the session must exist, still be taking chunks, and have a live
/// in-memory sender entry. On any other combination the caller must
/// purge the stale session and mint a fresh id.
pub fn resumable(session: Option<&UploadSession>, sender_alive: bool) -> (r: bool)
    ensures
        r == (session is Some && session->0.status is Uploading && sender_alive),
{
    match session {
        Some(s) => {
            let is_uploading = match s.status {
                SessionStatus::Uploading => true,
                SessionStatus::Sending => false,
            };
            is_uploading && sender_alive
        },
        None => false,
    }
}

/// How a posted chunk is answered.
#[derive(Clone, Copy, PartialEq, Eq, Structural, Debug)]
pub enum ChunkOutcome {
    /// No session under that id.
    NotFound,
    /// The body carried no bytes.
    EmptyChunk,
    /// The sender task is gone (completed or cancelled): the chunk can
    /// no longer be queued.
    SenderGone,
    /// The chunk was queued.
    Accepted,
}

/// Decide how to answer a posted chunk: an unknown session is not found,
/// an empty body is rejected, a dead or unreachable sender is a hard
/// failure, and otherwise the chunk is accepted.
pub fn chunk_decision(session_exists: bool, body_len: usize, sender_sent: bool) -> (r:
    ChunkOutcome)
    ensures
        (r is NotFound) == !session_exists,
        (r is EmptyChunk) == (session_exists && body_len == 0),
        (r is SenderGone) == (session_exists && body_len > 0 && !sender_sent),
        (r is Accepted) == (session_exists && body_len > 0 && sender_sent),
{
    if !session_exists {
        ChunkOutcome::NotFound
    } else if body_len == 0 {
        ChunkOutcome::EmptyChunk
    } else if !sender_sent {
        ChunkOutcome::SenderGone
    } else {
        ChunkOutcome::Accepted
    }
}

/// Completion may only proceed once every announced chunk has been
/// recorded; the caller must refuse it otherwise.
pub fn can_complete(session: &UploadSession) -> (r: bool)
    ensures
        r == (session.received_chunks@.len() >= session.total_chunks),
{
    session.received_chunks.len() >= session.total_chunks
}

/// Whether a session has outlived its keep: still in the uploading
/// state, and created more than `ttl_s` seconds before `now_s`.
pub open spec fn spec_session_expired(s: UploadSession, now_s: u64, ttl_s: u64) -> bool {
    &&& s.status is Uploading
    &&& (if now_s >= s.created_at {
        now_s - s.created_at
    } else {
        0
    }) > ttl_s
}

/// The sessions that survive one expiry sweep.
pub open spec fn spec_prune(ss: Seq<UploadSession>, now_s: u64, ttl_s: u64) -> Seq<UploadSession>
    decreases ss.len(),
{
    if ss.len() == 0 {
        Seq::empty()
    } else {
        let rest = spec_prune(ss.drop_last(), now_s, ttl_s);
        if spec_session_expired(ss.last(), now_s, ttl_s) {
            rest
        } else {
            rest.push(ss.last())
        }
    }
}

/// Drop every session that is still uploading but older than the ttl;
/// sessions already handed to the sender are kept whatever their age.
pub fn prune_expired(sessions: &mut Vec<UploadSession>, now_s: u64, ttl_s: u64)
    ensures
        final(sessions)@ == spec_prune(old(sessions)@, now_s, ttl_s),
{
    let ghost orig = old(sessions)@;
    let mut i: usize = 0;
    let ghost mut k: int = 0;
    while i < sessions.len()
        invariant
            0 <= i <= sessions@.len(),
            0 <= k <= orig.len(),
            sessions@.take(i as int) == spec_prune(orig.take(k), now_s, ttl_s),
            sessions@.skip(i as int) == orig.skip(k),
        decreases sessions@.len() - i,
    {
        proof {
            assert(sessions@.skip(i as int).len() == orig.skip(k).len());
            assert(k < orig.len());
            assert(orig.take(k + 1).drop_last() =~= orig.take(k));
            assert(orig.take(k + 1).last() == orig[k]);
            assert(sessions@[i as int] == orig.skip(k)[0]);
        }
        let ghost before = sessions@;
        let age = now_s.saturating_sub(sessions[i].created_at);
        let is_uploading = match sessions[i].status {
            SessionStatus::Uploading => true,
            SessionStatus::Sending => false,
        };
        if is_uploading && age > ttl_s {
            sessions.remove(i);
            proof {
                crate::sequtil::lemma_remove_parts(before, i as int);
                crate::sequtil::lemma_skip_step(before, orig, i as int, k);
                k = k + 1;
            }
        } else {
            proof {
                assert(before.take(i + 1) =~= before.take(i as int).push(orig[k]));
                crate::sequtil::lemma_skip_step(before, orig, i as int, k);
                k = k + 1;
            }
            i = i + 1;
        }
    }
    proof {
        assert(k == orig.len());
        assert(orig.take(k) =~= orig);
        assert(sessions@.take(sessions@.len() as int) =~= sessions@);
    }
}

} // verus!

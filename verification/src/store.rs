//! The state store: the three persisted collections, held in memory, and
//! the pure operations on folders and history. Reading and writing the
//! backing files, and turning them into these plain values, is the
//! surrounding program's job.

use vstd::prelude::*;

use crate::records::{FileRecord, Folder};
use crate::session::UploadSession;

verus! {

/// The three collections the store persists: folders and file history as
/// most-recent-first lists, sessions keyed by their id.
pub struct JsonStore {
    /// All folders, most recent first.
    pub folders: Vec<Folder>,
    /// All stored files, most recent first.
    pub history: Vec<FileRecord>,
    /// All live upload sessions.
    pub sessions: Vec<UploadSession>,
}

impl JsonStore {
    /// An empty store.
    pub fn new() -> (r: Self)
        ensures
            r.folders@.len() == 0,
            r.history@.len() == 0,
            r.sessions@.len() == 0,
    {
        JsonStore { folders: Vec::new(), history: Vec::new(), sessions: Vec::new() }
    }

    /// The stored folders.
    pub fn load_folders(&self) -> (r: &Vec<Folder>)
        ensures
            r@ == self.folders@,
    {
        &self.folders
    }

    /// Replace the stored folders.
    pub fn save_folders(&mut self, folders: Vec<Folder>)
        ensures
            final(self).folders == folders,
            final(self).history == old(self).history,
            final(self).sessions == old(self).sessions,
    {
        self.folders = folders;
    }

    /// The stored file history.
    pub fn load_history(&self) -> (r: &Vec<FileRecord>)
        ensures
            r@ == self.history@,
    {
        &self.history
    }

    /// Replace the stored file history.
    pub fn save_history(&mut self, history: Vec<FileRecord>)
        ensures
            final(self).history == history,
            final(self).folders == old(self).folders,
            final(self).sessions == old(self).sessions,
    {
        self.history = history;
    }

    /// The stored sessions.
    pub fn load_sessions(&self) -> (r: &Vec<UploadSession>)
        ensures
            r@ == self.sessions@,
    {
        &self.sessions
    }

    /// Replace the stored sessions.
    pub fn save_sessions(&mut self, sessions: Vec<UploadSession>)
        ensures
            final(self).sessions == sessions,
            final(self).folders == old(self).folders,
            final(self).history == old(self).history,
    {
        self.sessions = sessions;
    }
}

/// Relies on chrono::Utc::now: the current time in milliseconds since the
/// epoch. Nothing is promised of the clock.
#[verifier::external_body]
pub fn current_timestamp_ms() -> i64 {
    chrono::Utc::now().timestamp_millis()
}

/// Relies on chrono::Utc::now: the current time in whole seconds since
/// the epoch, never negative. Nothing more is promised of the clock.
#[verifier::external_body]
pub fn current_timestamp_s() -> u64 {
    let s = chrono::Utc::now().timestamp();
    if s < 0 {
        0
    } else {
        s as u64
    }
}

/// Relies on chrono::Local::now and its formatter: the current local time
/// as a day/month/year hour:minute display string.
#[verifier::external_body]
pub fn current_datetime_display() -> String {
    chrono::Local::now().format("%d/%m/%Y %H:%M").to_string()
}

/// Relies on chrono::Utc::now and its formatter: the current time written
/// in the interchange format with offset.
#[verifier::external_body]
pub fn current_datetime_iso() -> String {
    chrono::Utc::now().to_rfc3339()
}

/// Build a folder record.
pub fn new_folder(id: i64, name: String, discord_category_id: i64, created_at: String) -> (r:
    Folder)
    ensures
        r.id == id,
        r.name == name,
        r.discord_category_id == discord_category_id,
        r.created_at == created_at,
{
    Folder { id, name, discord_category_id, created_at }
}

/// Prepend a folder: new folders come first.
pub fn insert_folder_front(folders: &mut Vec<Folder>, folder: Folder)
    ensures
        final(folders)@ == seq![folder] + old(folders)@,
{
    folders.insert(0, folder);
    proof {
        assert(folders@ =~= seq![folder] + old(folders)@);
    }
}

/// The folders left after dropping the one with the given id.
pub open spec fn spec_folders_without(fs: Seq<Folder>, id: i64) -> Seq<Folder>
    decreases fs.len(),
{
    if fs.len() == 0 {
        Seq::empty()
    } else {
        let rest = spec_folders_without(fs.drop_last(), id);
        if fs.last().id == id {
            rest
        } else {
            rest.push(fs.last())
        }
    }
}

/// Look up the backend-A container of a folder, by folder id.
pub fn folder_category(folders: &Vec<Folder>, id: i64) -> (r: Option<i64>)
    ensures
        (r is Some) == (exists|i: int| 0 <= i < folders@.len() && (#[trigger] folders@[i]).id
            == id),
        r is Some ==> exists|i: int|
            0 <= i < folders@.len() && (#[trigger] folders@[i]).id == id
                && folders@[i].discord_category_id == r->0,
{
    let n = folders.len();
    let mut i: usize = 0;
    while i < n
        invariant
            i <= n,
            n == folders@.len(),
            forall|j: int| 0 <= j < i ==> (#[trigger] folders@[j]).id != id,
        decreases n - i,
    {
        if folders[i].id == id {
            return Some(folders[i].discord_category_id);
        }
        i = i + 1;
    }
    None
}

/// Remove the folder with the given id, if it exists.
pub fn remove_folder(folders: &mut Vec<Folder>, id: i64)
    ensures
        final(folders)@ == spec_folders_without(old(folders)@, id),
{
    let ghost orig = old(folders)@;
    let mut i: usize = 0;
    let ghost mut k: int = 0;
    while i < folders.len()
        invariant
            0 <= i <= folders@.len(),
            0 <= k <= orig.len(),
            folders@.take(i as int) == spec_folders_without(orig.take(k), id),
            folders@.skip(i as int) == orig.skip(k),
        decreases folders@.len() - i,
    {
        proof {
            assert(folders@.skip(i as int).len() == orig.skip(k).len());
            assert(k < orig.len());
            assert(orig.take(k + 1).drop_last() =~= orig.take(k));
            assert(orig.take(k + 1).last() == orig[k]);
            assert(folders@[i as int] == orig.skip(k)[0]);
        }
        let ghost before = folders@;
        if folders[i].id == id {
            folders.remove(i);
            proof {
                crate::sequtil::lemma_remove_parts(before, i as int);
                crate::sequtil::lemma_skip_step(before, orig, i as int, k);
                k = k + 1;
            }
        } else {
            proof {
                assert(before.take(i + 1) =~= before.take(i as int).push(orig[k]));
                crate::sequtil::lemma_skip_step(before, orig, i as int, k);
                k = k + 1;
            }
            i = i + 1;
        }
    }
    proof {
        assert(k == orig.len());
        assert(orig.take(k) =~= orig);
        assert(folders@.take(folders@.len() as int) =~= folders@);
    }
}

/// The folders left after dropping every folder mapped to the given
/// backend-A container.
pub open spec fn spec_folders_without_category(fs: Seq<Folder>, category_id: i64) -> Seq<Folder>
    decreases fs.len(),
{
    if fs.len() == 0 {
        Seq::empty()
    } else {
        let rest = spec_folders_without_category(fs.drop_last(), category_id);
        if fs.last().discord_category_id == category_id {
            rest
        } else {
            rest.push(fs.last())
        }
    }
}

/// Remove every folder mapped to the given container; used when the
/// container itself disappears on the backend.
pub fn remove_folders_by_category(folders: &mut Vec<Folder>, category_id: i64)
    ensures
        final(folders)@ == spec_folders_without_category(old(folders)@, category_id),
{
    let ghost orig = old(folders)@;
    let mut i: usize = 0;
    let ghost mut k: int = 0;
    while i < folders.len()
        invariant
            0 <= i <= folders@.len(),
            0 <= k <= orig.len(),
            folders@.take(i as int) == spec_folders_without_category(orig.take(k), category_id),
            folders@.skip(i as int) == orig.skip(k),
        decreases folders@.len() - i,
    {
        proof {
            assert(folders@.skip(i as int).len() == orig.skip(k).len());
            assert(k < orig.len());
            assert(orig.take(k + 1).drop_last() =~= orig.take(k));
            assert(orig.take(k + 1).last() == orig[k]);
            assert(folders@[i as int] == orig.skip(k)[0]);
        }
        let ghost before = folders@;
        if folders[i].discord_category_id == category_id {
            folders.remove(i);
            proof {
                crate::sequtil::lemma_remove_parts(before, i as int);
                crate::sequtil::lemma_skip_step(before, orig, i as int, k);
                k = k + 1;
            }
        } else {
            proof {
                assert(before.take(i + 1) =~= before.take(i as int).push(orig[k]));
                crate::sequtil::lemma_skip_step(before, orig, i as int, k);
                k = k + 1;
            }
            i = i + 1;
        }
    }
    proof {
        assert(k == orig.len());
        assert(orig.take(k) =~= orig);
        assert(folders@.take(folders@.len() as int) =~= folders@);
    }
}

/// Look up a folder's name by the decimal rendering of its id, as the
/// move and init requests address folders.
pub fn find_folder_name(folders: &Vec<Folder>, id_text: &str) -> (r: Option<String>)
    ensures
        (r is Some) == (exists|i: int|
            0 <= i < folders@.len() && crate::strutil::spec_i64_decimal(
                (#[trigger] folders@[i]).id,
            ) == id_text@),
        r is Some ==> exists|i: int|
            0 <= i < folders@.len() && crate::strutil::spec_i64_decimal(
                (#[trigger] folders@[i]).id,
            ) == id_text@ && folders@[i].name == r->0,
{
    let n = folders.len();
    let mut i: usize = 0;
    while i < n
        invariant
            i <= n,
            n == folders@.len(),
            forall|j: int|
                0 <= j < i ==> crate::strutil::spec_i64_decimal((#[trigger] folders@[j]).id)
                    != id_text@,
        decreases n - i,
    {
        let rendered = crate::strutil::i64_to_string(folders[i].id);
        if crate::strutil::str_eq(rendered.as_str(), id_text) {
            return Some(folders[i].name.clone());
        }
        i = i + 1;
    }
    None
}

} // verus!

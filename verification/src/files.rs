//! File-level helpers behind the HTTP handlers: content types, thumbnail
//! gating, folder filtering, renaming, moving and deleting records,
//! statistics and search.

use vstd::prelude::*;

use crate::names::{lower_char, spec_lower_char, unicode_lower_of};
use crate::records::FileRecord;
use crate::strutil::{contains_sub, spec_contains_sub, str_eq};

verus! {

/// The extension of a name, considering only dots strictly before index
/// `j` and strictly after index 0: what follows the last such dot, or
/// nothing when there is none.
pub open spec fn spec_ext_from(s: Seq<char>, j: int) -> Seq<char>
    decreases j,
{
    if j <= 1 {
        Seq::empty()
    } else if s[j - 1] == '.' {
        s.skip(j)
    } else {
        spec_ext_from(s, j - 1)
    }
}

/// The lowercased extension of a filename; a dot at the very start does
/// not begin an extension.
pub open spec fn spec_ext_lower(s: Seq<char>) -> Seq<char> {
    spec_ext_from(s, s.len() as int).map_values(|c: char| spec_lower_char(c))
}

/// The lowercased extension of a filename, as an owned string.
pub fn ext_lower(name: &str) -> (r: String)
    ensures
        r@ == spec_ext_lower(name@),
{
    let cs = crate::names::chars_of(name);
    let mut j = cs.len();
    let mut cut = cs.len();
    let mut found = false;
    while j > 1
        invariant_except_break
            !found,
        invariant
            j <= cs@.len(),
            cs@ == name@,
            spec_ext_from(name@, name@.len() as int) == spec_ext_from(name@, j as int) || found,
        ensures
            found ==> cut <= cs@.len() && spec_ext_from(name@, name@.len() as int) == name@.skip(
                cut as int,
            ),
            !found ==> spec_ext_from(name@, name@.len() as int) == Seq::<char>::empty(),
        decreases j,
    {
        if cs[j - 1] == '.' {
            found = true;
            cut = j;
            proof {
                assert(spec_ext_from(name@, j as int) == name@.skip(j as int));
            }
            break ;
        }
        j = j - 1;
    }
    let mut out = String::new();
    if !found {
        proof {
            assert(out@ =~= spec_ext_lower(name@));
        }
        return out;
    }
    let n = cs.len();
    let mut i = cut;
    while i < n
        invariant
            cut <= i <= n,
            n == cs@.len(),
            cs@ == name@,
            out@.len() == i - cut,
            forall|m: int|
                0 <= m < i - cut ==> #[trigger] out@[m] == spec_lower_char(name@[cut + m]),
        decreases n - i,
    {
        crate::strutil::push_char(&mut out, lower_char(cs[i]));
        i = i + 1;
    }
    proof {
        assert(out@ =~= spec_ext_lower(name@));
    }
    out
}

/// The content type served for a filename, decided by its extension.
pub open spec fn spec_mime_for(name: Seq<char>) -> Seq<char> {
    let e = spec_ext_lower(name);
    if e == "jpg"@ || e == "jpeg"@ {
        "image/jpeg"@
    } else if e == "png"@ {
        "image/png"@
    } else if e == "gif"@ {
        "image/gif"@
    } else if e == "webp"@ {
        "image/webp"@
    } else if e == "svg"@ {
        "image/svg+xml"@
    } else if e == "mp4"@ {
        "video/mp4"@
    } else if e == "webm"@ {
        "video/webm"@
    } else if e == "mp3"@ {
        "audio/mpeg"@
    } else if e == "wav"@ {
        "audio/wav"@
    } else if e == "ogg"@ {
        "audio/ogg"@
    } else if e == "pdf"@ {
        "application/pdf"@
    } else if e == "txt"@ || e == "md"@ || e == "log"@ {
        "text/plain"@
    } else if e == "html"@ || e == "htm"@ {
        "text/html"@
    } else if e == "css"@ {
        "text/css"@
    } else if e == "js"@ {
        "application/javascript"@
    } else if e == "json"@ {
        "application/json"@
    } else {
        "application/octet-stream"@
    }
}

/// The content type served for a filename.
pub fn mime_for(filename: &str) -> (r: &'static str)
    ensures
        r@ == spec_mime_for(filename@),
{
    let e = ext_lower(filename);
    let e = e.as_str();
    if str_eq(e, "jpg") || str_eq(e, "jpeg") {
        "image/jpeg"
    } else if str_eq(e, "png") {
        "image/png"
    } else if str_eq(e, "gif") {
        "image/gif"
    } else if str_eq(e, "webp") {
        "image/webp"
    } else if str_eq(e, "svg") {
        "image/svg+xml"
    } else if str_eq(e, "mp4") {
        "video/mp4"
    } else if str_eq(e, "webm") {
        "video/webm"
    } else if str_eq(e, "mp3") {
        "audio/mpeg"
    } else if str_eq(e, "wav") {
        "audio/wav"
    } else if str_eq(e, "ogg") {
        "audio/ogg"
    } else if str_eq(e, "pdf") {
        "application/pdf"
    } else if str_eq(e, "txt") || str_eq(e, "md") || str_eq(e, "log") {
        "text/plain"
    } else if str_eq(e, "html") || str_eq(e, "htm") {
        "text/html"
    } else if str_eq(e, "css") {
        "text/css"
    } else if str_eq(e, "js") {
        "application/javascript"
    } else if str_eq(e, "json") {
        "application/json"
    } else {
        "application/octet-stream"
    }
}

/// The coarse kind of a filename, decided by its extension.
pub open spec fn spec_file_category(name: Seq<char>) -> Seq<char> {
    let e = spec_ext_lower(name);
    if e == "jpg"@ || e == "jpeg"@ || e == "png"@ || e == "gif"@ || e == "webp"@ || e == "bmp"@
        || e == "tiff"@ || e == "svg"@ || e == "ico"@ {
        "image"@
    } else if e == "mp4"@ || e == "webm"@ || e == "mkv"@ || e == "avi"@ || e == "mov"@ || e
        == "wmv"@ || e == "flv"@ || e == "m4v"@ {
        "video"@
    } else if e == "mp3"@ || e == "wav"@ || e == "ogg"@ || e == "flac"@ || e == "aac"@ || e
        == "m4a"@ || e == "wma"@ {
        "audio"@
    } else if e == "pdf"@ {
        "pdf"@
    } else {
        "text"@
    }
}

/// The coarse kind of a filename: image, video, audio, pdf or text.
pub fn file_category(filename: &str) -> (r: &'static str)
    ensures
        r@ == spec_file_category(filename@),
{
    let e = ext_lower(filename);
    let e = e.as_str();
    if str_eq(e, "jpg") || str_eq(e, "jpeg") || str_eq(e, "png") || str_eq(e, "gif") || str_eq(
        e,
        "webp",
    ) || str_eq(e, "bmp") || str_eq(e, "tiff") || str_eq(e, "svg") || str_eq(e, "ico") {
        "image"
    } else if str_eq(e, "mp4") || str_eq(e, "webm") || str_eq(e, "mkv") || str_eq(e, "avi")
        || str_eq(e, "mov") || str_eq(e, "wmv") || str_eq(e, "flv") || str_eq(e, "m4v") {
        "video"
    } else if str_eq(e, "mp3") || str_eq(e, "wav") || str_eq(e, "ogg") || str_eq(e, "flac")
        || str_eq(e, "aac") || str_eq(e, "m4a") || str_eq(e, "wma") {
        "audio"
    } else if str_eq(e, "pdf") {
        "pdf"
    } else {
        "text"
    }
}

/// How a thumbnail request is answered.
#[derive(Clone, Copy, PartialEq, Eq, Structural, Debug)]
pub enum ThumbDecision {
    /// No record under that id.
    NotFound,
    /// The file is neither an image nor a video.
    Unsupported,
    /// A cached thumbnail is served.
    Cached,
    /// A video too large to decode for a thumbnail.
    TooLarge,
    /// The thumbnail must be rendered from the file's head.
    Render,
}

/// Hundredths of a mebibyte above which a video gets no thumbnail.
pub const VIDEO_THUMB_CAP_MB_100: u64 = 20000;

/// Gate a thumbnail request: unknown files are not found; only images
/// and videos are supported; a cached thumbnail wins; a video over the
/// cap is refused; everything else is rendered.
pub fn thumbnail_decision(found: bool, category: &str, cached: bool, size_mb_100: u64) -> (r:
    ThumbDecision)
    ensures
        (r is NotFound) == !found,
        (r is Unsupported) == (found && category@ != "image"@ && category@ != "video"@),
        (r is Cached) == (found && (category@ == "image"@ || category@ == "video"@) && cached),
        (r is TooLarge) == (found && category@ == "video"@ && !cached && size_mb_100
            > VIDEO_THUMB_CAP_MB_100),
        (r is Render) == (found && (category@ == "image"@ || category@ == "video"@) && !cached && !(
        category@ == "video"@ && size_mb_100 > VIDEO_THUMB_CAP_MB_100)),
{
    if !found {
        ThumbDecision::NotFound
    } else if !(str_eq(category, "image") || str_eq(category, "video")) {
        ThumbDecision::Unsupported
    } else if cached {
        ThumbDecision::Cached
    } else if size_mb_100 > VIDEO_THUMB_CAP_MB_100 && str_eq(category, "video") {
        ThumbDecision::TooLarge
    } else {
        ThumbDecision::Render
    }
}

/// Whether a record sits in the addressed folder: no folder addresses
/// the roots.
pub open spec fn spec_in_folder(r: FileRecord, folder: Option<Seq<char>>) -> bool {
    match folder {
        None => r.folder_id is None,
        Some(f) => r.folder_id is Some && r.folder_id->0@ == f,
    }
}

/// The indices of the records in the addressed folder, ascending.
pub fn records_in_folder(history: &Vec<FileRecord>, folder: Option<&str>) -> (r: Vec<usize>)
    ensures
        forall|a: int, b: int| 0 <= a < b < r@.len() ==> r@[a] < r@[b],
        forall|a: int|
            0 <= a < r@.len() ==> (#[trigger] r@[a]) < history@.len() && spec_in_folder(
                history@[r@[a] as int],
                match folder {
                    None => None,
                    Some(f) => Some(f@),
                },
            ),
        forall|i: int|
            0 <= i < history@.len() && spec_in_folder(
                #[trigger] history@[i],
                match folder {
                    None => None,
                    Some(f) => Some(f@),
                },
            ) ==> r@.contains(i as usize),
{
    let n = history.len();
    let mut r: Vec<usize> = Vec::new();
    let mut i: usize = 0;
    while i < n
        invariant
            i <= n,
            n == history@.len(),
            forall|a: int, b: int| 0 <= a < b < r@.len() ==> r@[a] < r@[b],
            forall|a: int| 0 <= a < r@.len() ==> (#[trigger] r@[a]) < i,
            forall|a: int|
                0 <= a < r@.len() ==> spec_in_folder(
                    history@[(#[trigger] r@[a]) as int],
                    match folder {
                        None => None,
                        Some(f) => Some(f@),
                    },
                ),
            forall|j: int|
                0 <= j < i && spec_in_folder(
                    #[trigger] history@[j],
                    match folder {
                        None => None,
                        Some(f) => Some(f@),
                    },
                ) ==> r@.contains(j as usize),
        decreases n - i,
    {
        let matches_folder = match folder {
            None => history[i].folder_id.is_none(),
            Some(f) => match &history[i].folder_id {
                Some(fid) => str_eq(fid.as_str(), f),
                None => false,
            },
        };
        let ghost r_before = r@;
        if matches_folder {
            r.push(i);
            proof {
                assert forall|j: int|
                    0 <= j < i + 1 && spec_in_folder(
                        #[trigger] history@[j],
                        match folder {
                            None => None,
                            Some(f) => Some(f@),
                        },
                    ) implies r@.contains(j as usize) by {
                    if j < i {
                        assert(r_before.contains(j as usize));
                        let w = choose|w: int| 0 <= w < r_before.len() && r_before[w] == j as usize;
                        assert(r@[w] == j as usize);
                    } else {
                        assert(r@[r@.len() - 1] == i);
                    }
                }
            }
        }
        i = i + 1;
    }
    r
}

/// Whether a query matches a record: the case-folded filename holds the
/// case-folded query as a substring (Unicode folding, as the standard
/// library lowercases).
pub open spec fn spec_search_match(r: FileRecord, q: Seq<char>) -> bool {
    spec_contains_sub(unicode_lower_of(r.filename@), unicode_lower_of(q))
}

/// The indices of the records whose filename contains the query, case
/// folded, ascending.
pub fn search_indices(history: &Vec<FileRecord>, q: &str) -> (r: Vec<usize>)
    ensures
        forall|a: int, b: int| 0 <= a < b < r@.len() ==> r@[a] < r@[b],
        forall|a: int|
            0 <= a < r@.len() ==> (#[trigger] r@[a]) < history@.len() && spec_search_match(
                history@[r@[a] as int],
                q@,
            ),
        forall|i: int|
            0 <= i < history@.len() && spec_search_match(#[trigger] history@[i], q@)
                ==> r@.contains(i as usize),
{
    let needle_lower = crate::names::unicode_lowercase(q);
    let needle = crate::names::chars_of(needle_lower.as_str());
    let n = history.len();
    let mut r: Vec<usize> = Vec::new();
    let mut i: usize = 0;
    while i < n
        invariant
            i <= n,
            n == history@.len(),
            needle@ == unicode_lower_of(q@),
            forall|a: int, b: int| 0 <= a < b < r@.len() ==> r@[a] < r@[b],
            forall|a: int| 0 <= a < r@.len() ==> (#[trigger] r@[a]) < i,
            forall|a: int|
                0 <= a < r@.len() ==> spec_search_match(history@[(#[trigger] r@[a]) as int], q@),
            forall|j: int|
                0 <= j < i && spec_search_match(#[trigger] history@[j], q@) ==> r@.contains(
                    j as usize,
                ),
        decreases n - i,
    {
        let hay_lower = crate::names::unicode_lowercase(history[i].filename.as_str());
        let hay = crate::names::chars_of(hay_lower.as_str());
        let ghost r_before = r@;
        if contains_sub(&hay, &needle) {
            r.push(i);
            proof {
                assert forall|j: int|
                    0 <= j < i + 1 && spec_search_match(#[trigger] history@[j], q@) implies
                    r@.contains(j as usize) by {
                    if j < i {
                        assert(r_before.contains(j as usize));
                        let w = choose|w: int| 0 <= w < r_before.len() && r_before[w] == j as usize;
                        assert(r@[w] == j as usize);
                    } else {
                        assert(r@[r@.len() - 1] == i);
                    }
                }
            }
        }
        i = i + 1;
    }
    r
}

/// Find a record's index by id.
pub fn find_record(history: &Vec<FileRecord>, id: i64) -> (r: Option<usize>)
    ensures
        r is Some ==> r->0 < history@.len() && history@[r->0 as int].id == id && (forall|j: int|
            0 <= j < r->0 ==> (#[trigger] history@[j]).id != id),
        r is None ==> forall|j: int| 0 <= j < history@.len() ==> (#[trigger] history@[j]).id != id,
{
    let n = history.len();
    let mut i: usize = 0;
    while i < n
        invariant
            i <= n,
            n == history@.len(),
            forall|j: int| 0 <= j < i ==> (#[trigger] history@[j]).id != id,
        decreases n - i,
    {
        if history[i].id == id {
            return Some(i);
        }
        i = i + 1;
    }
    None
}

/// The records left after dropping the one with the given id.
pub open spec fn spec_history_without(h: Seq<FileRecord>, id: i64) -> Seq<FileRecord>
    decreases h.len(),
{
    if h.len() == 0 {
        Seq::empty()
    } else {
        let rest = spec_history_without(h.drop_last(), id);
        if h.last().id == id {
            rest
        } else {
            rest.push(h.last())
        }
    }
}

/// Remove the record with the given id, if it exists.
pub fn remove_record(history: &mut Vec<FileRecord>, id: i64)
    ensures
        final(history)@ == spec_history_without(old(history)@, id),
{
    let ghost orig = old(history)@;
    let mut i: usize = 0;
    let ghost mut k: int = 0;
    while i < history.len()
        invariant
            0 <= i <= history@.len(),
            0 <= k <= orig.len(),
            history@.take(i as int) == spec_history_without(orig.take(k), id),
            history@.skip(i as int) == orig.skip(k),
        decreases history@.len() - i,
    {
        proof {
            assert(history@.skip(i as int).len() == orig.skip(k).len());
            assert(k < orig.len());
            assert(orig.take(k + 1).drop_last() =~= orig.take(k));
            assert(orig.take(k + 1).last() == orig[k]);
            assert(history@[i as int] == orig.skip(k)[0]);
        }
        let ghost before = history@;
        if history[i].id == id {
            history.remove(i);
            proof {
                crate::sequtil::lemma_remove_parts(before, i as int);
                crate::sequtil::lemma_skip_step(before, orig, i as int, k);
                k = k + 1;
            }
        } else {
            proof {
                assert(before.take(i + 1) =~= before.take(i as int).push(orig[k]));
                crate::sequtil::lemma_skip_step(before, orig, i as int, k);
                k = k + 1;
            }
            i = i + 1;
        }
    }
    proof {
        assert(k == orig.len());
        assert(orig.take(k) =~= orig);
        assert(history@.take(history@.len() as int) =~= history@);
    }
}

/// The records left after dropping every record on the given channel.
pub open spec fn spec_history_without_channel(h: Seq<FileRecord>, channel: Seq<char>) -> Seq<
    FileRecord,
>
    decreases h.len(),
{
    if h.len() == 0 {
        Seq::empty()
    } else {
        let rest = spec_history_without_channel(h.drop_last(), channel);
        if h.last().channel_id@ == channel {
            rest
        } else {
            rest.push(h.last())
        }
    }
}

/// Remove every record stored on the given channel; used when the
/// channel itself disappears on the backend.
pub fn remove_records_by_channel(history: &mut Vec<FileRecord>, channel_id: &str)
    ensures
        final(history)@ == spec_history_without_channel(old(history)@, channel_id@),
{
    let ghost orig = old(history)@;
    let mut i: usize = 0;
    let ghost mut k: int = 0;
    while i < history.len()
        invariant
            0 <= i <= history@.len(),
            0 <= k <= orig.len(),
            history@.take(i as int) == spec_history_without_channel(orig.take(k), channel_id@),
            history@.skip(i as int) == orig.skip(k),
        decreases history@.len() - i,
    {
        proof {
            assert(history@.skip(i as int).len() == orig.skip(k).len());
            assert(k < orig.len());
            assert(orig.take(k + 1).drop_last() =~= orig.take(k));
            assert(orig.take(k + 1).last() == orig[k]);
            assert(history@[i as int] == orig.skip(k)[0]);
        }
        let ghost before = history@;
        if str_eq(history[i].channel_id.as_str(), channel_id) {
            history.remove(i);
            proof {
                crate::sequtil::lemma_remove_parts(before, i as int);
                crate::sequtil::lemma_skip_step(before, orig, i as int, k);
                k = k + 1;
            }
        } else {
            proof {
                assert(before.take(i + 1) =~= before.take(i as int).push(orig[k]));
                crate::sequtil::lemma_skip_step(before, orig, i as int, k);
                k = k + 1;
            }
            i = i + 1;
        }
    }
    proof {
        assert(k == orig.len());
        assert(orig.take(k) =~= orig);
        assert(history@.take(history@.len() as int) =~= history@);
    }
}

/// Rename the first record with the given id. Returns whether a record
/// was renamed; every other record and every other field is untouched.
pub fn rename_record(history: &mut Vec<FileRecord>, id: i64, new_name: String) -> (renamed: bool)
    ensures
        !renamed ==> final(history)@ == old(history)@ && (forall|j: int|
            0 <= j < old(history)@.len() ==> (#[trigger] old(history)@[j]).id != id),
        renamed ==> exists|i: int|
            {
                &&& 0 <= i < old(history)@.len()
                &&& (#[trigger] old(history)@[i]).id == id
                &&& final(history)@.len() == old(history)@.len()
                &&& final(history)@[i].filename == new_name
                &&& final(history)@[i].id == old(history)@[i].id
                &&& final(history)@[i].size_mb_100 == old(history)@[i].size_mb_100
                &&& final(history)@[i].channel_id == old(history)@[i].channel_id
                &&& final(history)@[i].channel_name == old(history)@[i].channel_name
                &&& final(history)@[i].folder_id == old(history)@[i].folder_id
                &&& final(history)@[i].folder_name == old(history)@[i].folder_name
                &&& final(history)@[i].status == old(history)@[i].status
                &&& final(history)@[i].method == old(history)@[i].method
                &&& final(history)@[i].method_key == old(history)@[i].method_key
                &&& final(history)@[i].parts == old(history)@[i].parts
                &&& final(history)@[i].parts_info == old(history)@[i].parts_info
                &&& final(history)@[i].message_ids == old(history)@[i].message_ids
                &&& final(history)@[i].jump_url == old(history)@[i].jump_url
                &&& final(history)@[i].sent_at == old(history)@[i].sent_at
                &&& forall|j: int|
                    0 <= j < old(history)@.len() && j != i ==> final(history)@[j] == old(
                        history,
                    )@[j]
            },
{
    let found = find_record(history, id);
    match found {
        None => false,
        Some(i) => {
            let ghost before = history@;
            let mut rec = history.remove(i);
            rec.filename = new_name;
            history.insert(i, rec);
            proof {
                assert forall|j: int|
                    0 <= j < before.len() && j != i implies final(history)@[j] == before[j] by {
                    assert(history@ == before.remove(i as int).insert(i as int, history@[i as int]));
                }
            }
            true
        },
    }
}

/// Move the first record with the given id into a folder (or to the
/// roots). Returns whether a record was moved.
pub fn move_record(
    history: &mut Vec<FileRecord>,
    id: i64,
    folder_id: Option<String>,
    folder_name: Option<String>,
) -> (moved: bool)
    ensures
        !moved ==> final(history)@ == old(history)@ && (forall|j: int|
            0 <= j < old(history)@.len() ==> (#[trigger] old(history)@[j]).id != id),
        moved ==> exists|i: int|
            {
                &&& 0 <= i < old(history)@.len()
                &&& (#[trigger] old(history)@[i]).id == id
                &&& final(history)@.len() == old(history)@.len()
                &&& final(history)@[i].folder_id == folder_id
                &&& final(history)@[i].folder_name == folder_name
                &&& final(history)@[i].filename == old(history)@[i].filename
                &&& final(history)@[i].id == old(history)@[i].id
                &&& forall|j: int|
                    0 <= j < old(history)@.len() && j != i ==> final(history)@[j] == old(
                        history,
                    )@[j]
            },
{
    let found = find_record(history, id);
    match found {
        None => false,
        Some(i) => {
            let ghost before = history@;
            let mut rec = history.remove(i);
            rec.folder_id = folder_id;
            rec.folder_name = folder_name;
            history.insert(i, rec);
            proof {
                assert forall|j: int|
                    0 <= j < before.len() && j != i implies final(history)@[j] == before[j] by {
                    assert(history@ == before.remove(i as int).insert(i as int, history@[i as int]));
                }
            }
            true
        },
    }
}

/// Prepend a record: new files come first.
pub fn insert_record_front(history: &mut Vec<FileRecord>, record: FileRecord)
    ensures
        final(history)@ == seq![record] + old(history)@,
{
    history.insert(0, record);
    proof {
        assert(history@ =~= seq![record] + old(history)@);
    }
}

/// Total shown size of the history, in hundredths of a mebibyte,
/// saturating at the integer limit.
pub open spec fn spec_total_mb_100(h: Seq<FileRecord>) -> u64
    decreases h.len(),
{
    if h.len() == 0 {
        0u64
    } else {
        let rest = spec_total_mb_100(h.drop_last());
        if rest + h.last().size_mb_100 <= u64::MAX {
            (rest + h.last().size_mb_100) as u64
        } else {
            u64::MAX
        }
    }
}

/// Sum the shown sizes of all records, saturating at the integer limit.
pub fn total_mb_100(history: &Vec<FileRecord>) -> (r: u64)
    ensures
        r == spec_total_mb_100(history@),
{
    let n = history.len();
    let mut acc: u64 = 0;
    let mut i: usize = 0;
    while i < n
        invariant
            i <= n,
            n == history@.len(),
            acc == spec_total_mb_100(history@.take(i as int)),
        decreases n - i,
    {
        proof {
            assert(history@.take(i + 1).drop_last() =~= history@.take(i as int));
            assert(history@.take(i + 1).last() == history@[i as int]);
        }
        acc = acc.saturating_add(history[i].size_mb_100);
        i = i + 1;
    }
    proof {
        assert(history@.take(n as int) =~= history@);
    }
    acc
}

} // verus!

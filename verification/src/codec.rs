//! Archive codec: each part is stored as a single-entry archive. Packing
//! and unpacking call the `zip` crate behind trusted wrappers; the
//! magic-number dispatch and the round-trip laws are verified here.

use std::io::{Cursor, Read, Write};

use vstd::prelude::*;

use crate::sender::concat_all;

verus! {

/// The bytes the archive writer produces for one entry named `entry_name`
/// holding `data`, at the given compression level (0 stores, 1-9 deflate).
pub uninterp spec fn pack_of(data: Seq<u8>, entry_name: Seq<char>, level: u32) -> Seq<u8>;

/// Whether the archive writer succeeds on these arguments; with an
/// in-memory sink the outcome depends on the arguments alone.
pub uninterp spec fn pack_ok(data: Seq<u8>, entry_name: Seq<char>, level: u32) -> bool;

/// Whether the bytes open as an archive whose first entry can be read to
/// completion.
pub uninterp spec fn archive_ok(data: Seq<u8>) -> bool;

/// A byte string that begins with the archive magic `50 4B 03 04`.
pub open spec fn starts_with_magic(data: Seq<u8>) -> bool {
    &&& data.len() >= 4
    &&& data[0] == 0x50u8
    &&& data[1] == 0x4bu8
    &&& data[2] == 0x03u8
    &&& data[3] == 0x04u8
}

/// Relies on zip::ZipWriter with the stored method: writes `data` as the
/// sole entry and returns the archive bytes, which begin with the
/// local-file-header magic.
#[verifier::external_body]
fn zip_pack_stored(data: &Vec<u8>, entry_name: &str) -> (r: Result<Vec<u8>, String>)
    ensures
        (r is Ok) == pack_ok(data@, entry_name@, 0),
        r is Ok ==> r->Ok_0@ == pack_of(data@, entry_name@, 0),
        r is Ok ==> starts_with_magic(pack_of(data@, entry_name@, 0)),
{
    let mut zip = zip::ZipWriter::new(Cursor::new(Vec::new()));
    let opts = zip::write::SimpleFileOptions::default().compression_method(
        zip::CompressionMethod::Stored,
    );
    if let Err(e) = zip.start_file(entry_name, opts) {
        return Err(e.to_string());
    }
    if let Err(e) = zip.write_all(data) {
        return Err(e.to_string());
    }
    match zip.finish() {
        Ok(cursor) => Ok(cursor.into_inner()),
        Err(e) => Err(e.to_string()),
    }
}

/// Relies on zip::ZipWriter with the deflate method: writes `data` as the
/// sole entry at the given level and returns the archive bytes, which
/// begin with the local-file-header magic.
#[verifier::external_body]
fn zip_pack_deflated(data: &Vec<u8>, entry_name: &str, level: u32) -> (r: Result<Vec<u8>, String>)
    requires
        1 <= level <= 9,
    ensures
        (r is Ok) == pack_ok(data@, entry_name@, level),
        r is Ok ==> r->Ok_0@ == pack_of(data@, entry_name@, level),
        r is Ok ==> starts_with_magic(pack_of(data@, entry_name@, level)),
{
    let mut zip = zip::ZipWriter::new(Cursor::new(Vec::new()));
    let opts = zip::write::SimpleFileOptions::default().compression_method(
        zip::CompressionMethod::Deflated,
    ).compression_level(Some(level as i64));
    if let Err(e) = zip.start_file(entry_name, opts) {
        return Err(e.to_string());
    }
    if let Err(e) = zip.write_all(data) {
        return Err(e.to_string());
    }
    match zip.finish() {
        Ok(cursor) => Ok(cursor.into_inner()),
        Err(e) => Err(e.to_string()),
    }
}

/// Relies on zip::ZipArchive: opens the archive and reads entry 0 to
/// completion, succeeding exactly on well-formed input. Reading back an
/// archive that the writer produced yields the entry's bytes unchanged.
#[verifier::external_body]
fn zip_read_first_entry(data: &Vec<u8>) -> (r: Result<Vec<u8>, String>)
    ensures
        (r is Ok) == archive_ok(data@),
        forall|x: Seq<u8>, n: Seq<char>, l: u32|
            data@ == #[trigger] pack_of(x, n, l) ==> r is Ok && r->Ok_0@ == x,
{
    let mut archive = match zip::ZipArchive::new(Cursor::new(data)) {
        Ok(a) => a,
        Err(e) => return Err(e.to_string()),
    };
    let mut entry = match archive.by_index(0) {
        Ok(f) => f,
        Err(e) => return Err(e.to_string()),
    };
    let mut out = Vec::new();
    if let Err(e) = entry.read_to_end(&mut out) {
        return Err(e.to_string());
    }
    Ok(out)
}

/// Pack `data` into an archive holding a single entry named `entry_name`.
/// Level 0 stores the bytes; levels 1 to 9 deflate them.
pub fn zip_bytes(data: &Vec<u8>, entry_name: &str, compress_level: u32) -> (r: Result<
    Vec<u8>,
    String,
>)
    requires
        compress_level <= 9,
    ensures
        (r is Ok) == pack_ok(data@, entry_name@, compress_level),
        r is Ok ==> r->Ok_0@ == pack_of(data@, entry_name@, compress_level),
        r is Ok ==> starts_with_magic(pack_of(data@, entry_name@, compress_level)),
{
    if compress_level == 0 {
        zip_pack_stored(data, entry_name)
    } else {
        zip_pack_deflated(data, entry_name, compress_level)
    }
}

/// Unpack an archive, or hand back raw bytes untouched.
///
/// If the input does not begin with the archive magic it is returned
/// unchanged (legacy parts were stored raw). If it is an archive that the
/// packer produced, the sole entry's original bytes come back: unpacking
/// undoes packing. A malformed archive that does begin with the magic is
/// a hard error, never reinterpreted as raw bytes.
pub fn unzip_or_raw(data: Vec<u8>) -> (r: Result<Vec<u8>, String>)
    ensures
        !starts_with_magic(data@) ==> r is Ok && r->Ok_0@ == data@,
        starts_with_magic(data@) ==> ((r is Ok) == archive_ok(data@)),
        forall|x: Seq<u8>, n: Seq<char>, l: u32|
            data@ == #[trigger] pack_of(x, n, l) && starts_with_magic(data@) ==> r is Ok
                && r->Ok_0@ == x,
{
    if data.len() < 4 || data[0] != 0x50u8 || data[1] != 0x4bu8 || data[2] != 0x03u8 || data[3]
        != 0x04u8 {
        return Ok(data);
    }
    zip_read_first_entry(&data)
}

/// Upload then merge is the identity: if the parts cut from the original
/// bytes were each packed into an archive, and each archive was unpacked
/// again on the way back (as `unzip_or_raw` guarantees), concatenating
/// the unpacked parts in part order restores the original bytes.
pub proof fn lemma_upload_merge_round_trip(
    parts: Seq<Seq<u8>>,
    names: Seq<Seq<char>>,
    levels: Seq<u32>,
    archives: Seq<Seq<u8>>,
    unpacked: Seq<Seq<u8>>,
    original: Seq<u8>,
)
    requires
        concat_all(parts) == original,
        archives.len() == parts.len(),
        names.len() == parts.len(),
        levels.len() == parts.len(),
        unpacked.len() == parts.len(),
        forall|i: int|
            0 <= i < parts.len() ==> archives[i] == #[trigger] pack_of(
                parts[i],
                names[i],
                levels[i],
            ),
        forall|i: int, x: Seq<u8>, n: Seq<char>, l: u32|
            #![trigger archives[i], pack_of(x, n, l)]
            0 <= i < parts.len() && archives[i] == pack_of(x, n, l) ==> unpacked[i] == x,
    ensures
        concat_all(unpacked) == original,
{
    assert forall|i: int| 0 <= i < parts.len() implies #[trigger] unpacked[i] == parts[i] by {
        assert(archives[i] == pack_of(parts[i], names[i], levels[i]));
    }
    assert(unpacked =~= parts);
}

} // verus!

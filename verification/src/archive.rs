//! The trusted boundary to the archive container crate.
//!
//! The archive reader of the `zip` crate parses the container; what it
//! holds is named by [`archive_entries`]: the stored name, the directory
//! marker, and the decompressed bytes of each entry, in archive order.
//! Everything downstream of these few wrappers is verified against that
//! name.

use vstd::prelude::*;

use crate::errors::ExtractionError;

verus! {

#[verifier::external_type_specification]
#[verifier::external_body]
#[verifier::reject_recursive_types(R)]
pub struct ExZipArchive<R>(zip::ZipArchive<R>);

#[verifier::external_type_specification]
#[verifier::external_body]
#[verifier::reject_recursive_types(T)]
pub struct ExCursor<T>(std::io::Cursor<T>);

/// One entry read out of an archive: its stored name, whether it marks a
/// directory, and its decompressed bytes.
#[derive(Debug)]
pub struct ArchiveEntry {
    pub name: String,
    pub is_dir: bool,
    pub data: Vec<u8>,
}

/// What an archive holds: for each entry, in archive order, its stored
/// name, its directory marker, and its decompressed bytes.
pub uninterp spec fn archive_entries(a: zip::ZipArchive<std::io::Cursor<Vec<u8>>>) -> Seq<
    (Seq<char>, bool, Seq<u8>),
>;

/// Whether the given bytes parse as an archive container: whether the
/// archive reader accepts them. Parsing an in-memory buffer is a
/// function of the bytes alone.
pub uninterp spec fn parses_as_archive(data: Seq<u8>) -> bool;

/// What the archive parsed out of the given bytes holds: the same
/// entries, as a function of the bytes alone.
pub uninterp spec fn entries_of(data: Seq<u8>) -> Seq<(Seq<char>, bool, Seq<u8>)>;

/// Whether the entry at position `i` of the archive can be read whole:
/// whether its header, compression method and checksum are acceptable to
/// the archive reader. Reading an in-memory archive is a function of the
/// archive value and the position alone.
pub uninterp spec fn entry_ok(a: zip::ZipArchive<std::io::Cursor<Vec<u8>>>, i: int) -> bool;

/// Relies on zip::ZipArchive::new: parses the archive's central
/// directory out of the given bytes, deterministically, succeeding
/// exactly on the byte strings that parse as a container; a malformed
/// container is refused.
#[verifier::external_body]
pub(crate) fn zip_open(data: Vec<u8>) -> (r: Result<
    zip::ZipArchive<std::io::Cursor<Vec<u8>>>,
    ExtractionError,
>)
    ensures
        r is Ok <==> parses_as_archive(data@),
        r matches Ok(a) ==> archive_entries(a) == entries_of(data@),
        r matches Err(e) ==> e matches ExtractionError::ArchiveError(_),
{
    match zip::ZipArchive::new(std::io::Cursor::new(data)) {
        Ok(a) => Ok(a),
        Err(e) => Err(ExtractionError::ArchiveError(format!("{e}"))),
    }
}

/// Relies on zip::ZipArchive::len: the number of entries the archive
/// holds.
#[verifier::external_body]
pub(crate) fn zip_len(a: &zip::ZipArchive<std::io::Cursor<Vec<u8>>>) -> (r: usize)
    ensures
        r as nat == archive_entries(*a).len(),
{
    a.len()
}

/// Relies on zip::ZipArchive::by_index, zip::read::ZipFile::name,
/// zip::read::ZipFile::is_dir and std::io::Read::read_to_end: hands out
/// the stored name, the directory marker, and the decompressed bytes of
/// the entry at `i`, leaving the archive's contents unchanged, and
/// succeeding exactly on the entries the archive reader can read whole;
/// a container fault is an archive error, a failed read of the entry's
/// bytes an I/O error.
#[verifier::external_body]
pub(crate) fn zip_entry(
    a: &mut zip::ZipArchive<std::io::Cursor<Vec<u8>>>,
    i: usize,
) -> (r: Result<ArchiveEntry, ExtractionError>)
    requires
        i < archive_entries(*old(a)).len(),
    ensures
        archive_entries(*final(a)) == archive_entries(*old(a)),
        r is Ok <==> entry_ok(*old(a), i as int),
        r matches Ok(e) ==> (e.name@, e.is_dir, e.data@) == archive_entries(*old(a))[i as int],
        r matches Err(e) ==> (e matches ExtractionError::ArchiveError(_) || e
            matches ExtractionError::IOError(_)),
{
    let mut file = match a.by_index(i) {
        Ok(f) => f,
        Err(e) => return Err(ExtractionError::ArchiveError(format!("{e}"))),
    };
    let name = file.name().to_string();
    let is_dir = file.is_dir();
    let mut data = Vec::new();
    if let Err(e) = std::io::Read::read_to_end(&mut file, &mut data) {
        return Err(ExtractionError::IOError(format!("{e}")));
    }
    Ok(ArchiveEntry { name, is_dir, data })
}

} // verus!

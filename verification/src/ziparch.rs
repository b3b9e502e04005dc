//! Trusted bridge to the archive writer (zip).
//!
//! The package archive is assembled in memory: entries are started by name,
//! their bytes written, and the finished archive handed back as one byte
//! vector. Which entries exist and what bytes go into each is stated and
//! proved where the archive is assembled.

use crate::error::Error;
use vstd::prelude::*;

verus! {

/// The in-progress archive: an opaque holder for the outside writer, whose
/// own type Verus refuses to declare (its type parameter is bound by std
/// traits Verus does not know).
#[verifier::external_body]
pub struct ArchiveWriter {
    inner: zip::ZipWriter<std::io::Cursor<Vec<u8>>>,
}

/// What the archive writer holds: the entries started so far, in order, each
/// a name and the bytes written into it.
pub uninterp spec fn archive_entries(w: ArchiveWriter) -> Seq<(Seq<char>, Seq<u8>)>;

/// The bytes of the finished archive holding exactly `entries`, in order.
/// This build fixes the entry options (the default timestamp is a constant,
/// as the clock-reading feature is off, and compression is deterministic),
/// so the finished bytes are a function of the entries alone.
pub uninterp spec fn zip_bytes_of(entries: Seq<(Seq<char>, Seq<u8>)>) -> Seq<u8>;

/// Starts an empty archive in memory.
///
/// Relies on zip's `ZipWriter::new` over an in-memory cursor: a new writer
/// holds no entries.
#[verifier::external_body]
pub(crate) fn zip_new() -> (w: ArchiveWriter)
    ensures
        archive_entries(w) == Seq::<(Seq<char>, Seq<u8>)>::empty(),
{
    ArchiveWriter { inner: zip::ZipWriter::new(std::io::Cursor::new(Vec::new())) }
}

/// Starts the archive entry named `name`, with default options.
///
/// Relies on zip's `ZipWriter::start_file` and the default `FileOptions`:
/// on success one empty entry with this name is appended.
#[verifier::external_body]
pub(crate) fn zip_start_file(w: &mut ArchiveWriter, name: &str) -> (r: Result<(), Error>)
    ensures
        r matches Err(e) ==> e is Zip,
        r is Ok ==> archive_entries(*final(w)) == archive_entries(*old(w)).push(
            (name@, Seq::<u8>::empty()),
        ),
{
    match w.inner.start_file(name, zip::write::SimpleFileOptions::default()) {
        Ok(()) => Ok(()),
        Err(e) => Err(Error::Zip(format!("{}", e))),
    }
}

/// Writes `data` into the current entry. The caller must have started one:
/// std's `write_all` returns without writing when `data` is empty, so only
/// under that precondition does a success always mean the bytes extend the
/// last entry.
///
/// Relies on the `std::io::Write` implementation of zip's `ZipWriter`:
/// writing bytes with no entry started fails, and on success the bytes
/// extend the last entry.
#[verifier::external_body]
pub(crate) fn zip_write_all(w: &mut ArchiveWriter, data: &[u8]) -> (r: Result<(), Error>)
    requires
        archive_entries(*old(w)).len() > 0,
    ensures
        r matches Err(e) ==> e is Zip,
        r is Ok ==> archive_entries(*final(w)) == archive_entries(*old(w)).update(
            archive_entries(*old(w)).len() - 1,
            (
                archive_entries(*old(w)).last().0,
                archive_entries(*old(w)).last().1 + data@,
            ),
        ),
{
    match std::io::Write::write_all(&mut w.inner, data) {
        Ok(()) => Ok(()),
        Err(e) => Err(Error::Zip(format!("{}", e))),
    }
}

/// Closes the archive and hands back its bytes: the serialization of
/// exactly the entries written.
///
/// Relies on zip's `ZipWriter::finish`.
#[verifier::external_body]
pub(crate) fn zip_finish(w: ArchiveWriter) -> (r: Result<Vec<u8>, Error>)
    ensures
        r matches Err(e) ==> e is Zip,
        r matches Ok(b) ==> b@ == zip_bytes_of(archive_entries(w)),
{
    match w.inner.finish() {
        Ok(cursor) => Ok(cursor.into_inner()),
        Err(e) => Err(Error::Zip(format!("{}", e))),
    }
}

} // verus!

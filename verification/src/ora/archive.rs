//! The OpenRaster ZIP container: reading entries out of an archive held in
//! memory, and writing one.

use vstd::prelude::*;
use vstd::utf8::{decode_utf8, valid_utf8};

use std::io::{Cursor, Read, Write};

use zip::write::SimpleFileOptions;
use zip::{CompressionMethod, ZipArchive, ZipWriter};

verus! {

/// What `zip` reads out of the archive `bytes` for the entry `name`: the
/// archive's error message when it cannot be opened, `None` when the entry
/// is missing or cannot be read, else the entry's bytes.
pub uninterp spec fn zip_entry_read(bytes: Seq<u8>, name: Seq<char>) -> Result<Option<Seq<u8>>, Seq<char>>;

/// The value an entry read gives, by views.
pub open spec fn entry_view(r: Result<Option<Vec<u8>>, String>) -> Result<Option<Seq<u8>>, Seq<char>> {
    match r {
        Ok(Some(v)) => Ok(Some(v@)),
        Ok(None) => Ok(None),
        Err(m) => Err(m@),
    }
}

/// Calls `zip::ZipArchive::new` on `bytes`, then `by_name` and
/// `read_to_end` for `name`; the result is named by [`zip_entry_read`].
#[verifier::external_body]
pub(crate) fn zip_entry(bytes: &[u8], name: &str) -> (r: Result<Option<Vec<u8>>, String>)
    ensures
        entry_view(r) == zip_entry_read(bytes@, name@),
{
    let mut archive = ZipArchive::new(Cursor::new(bytes)).map_err(|e| e.to_string())?;
    let mut out = Vec::new();
    let read = match archive.by_name(name) {
        Ok(mut file) => file.read_to_end(&mut out).is_ok(),
        Err(_) => false,
    };
    Ok(if read { Some(out) } else { None })
}

/// Calls `String::from_utf8`: the text `bytes` encode when they are valid
/// UTF-8, `None` otherwise.
#[verifier::external_body]
pub(crate) fn utf8_text(bytes: Vec<u8>) -> (r: Option<String>)
    ensures
        match r {
            Some(s) => valid_utf8(bytes@) && s@ == decode_utf8(bytes@),
            None => !valid_utf8(bytes@),
        },
{
    String::from_utf8(bytes).ok()
}

/// What a finished archive holds: each entry's name, whether it is stored
/// uncompressed (else deflated), and its bytes, in the order written.
pub type ZipEntries = Seq<(Seq<char>, bool, Seq<u8>)>;

/// An archive being written in memory: `zip`'s writer over a growing
/// buffer, known through the entries written to it ([`zip_written`]).
#[verifier::external_body]
pub struct ArchiveWriter {
    inner: ZipWriter<Cursor<Vec<u8>>>,
}

/// The entry names of `entries`, in order.
pub open spec fn entry_names(entries: ZipEntries) -> Seq<Seq<char>> {
    entries.map_values(|e: (Seq<char>, bool, Seq<u8>)| e.0)
}

/// The total length of the entries' bytes.
pub open spec fn zip_total(entries: ZipEntries) -> nat
    decreases entries.len(),
{
    if entries.len() == 0 {
        0
    } else {
        zip_total(entries.drop_last()) + entries.last().2.len()
    }
}

/// `entries` fit the plain (non-ZIP64) format with room to spare: fewer
/// than 65 535 of them, under 1 GiB of data in all.
pub open spec fn zip_small(entries: ZipEntries) -> bool {
    entries.len() < 0xFFFF && zip_total(entries) < 0x4000_0000
}

/// The entries written so far to `w`.
pub uninterp spec fn zip_written(w: ArchiveWriter) -> ZipEntries;

/// The archive bytes `zip` produces for `entries`.
pub uninterp spec fn zip_archive(entries: ZipEntries) -> Seq<u8>;

/// Why adding an entry to an archive failed: the archive writer's message,
/// or the message of the I/O error writing the entry's bytes.
pub enum ZipFault {
    /// `start_file` refused the entry.
    Zip(String),
    /// Writing the bytes failed.
    Io(String),
}

/// Calls `zip::ZipWriter::new` on an empty in-memory buffer; nothing is
/// written yet.
#[verifier::external_body]
pub(crate) fn zip_new() -> (w: ArchiveWriter)
    ensures
        zip_written(w) == Seq::<(Seq<char>, bool, Seq<u8>)>::empty(),
{
    ArchiveWriter { inner: ZipWriter::new(Cursor::new(Vec::new())) }
}

/// Calls `zip::ZipWriter::start_file` for `name` (stored when `stored`,
/// else deflated) and `write_all` with `data`; on success the entry is
/// recorded after the others. `start_file` refuses a name already written,
/// so success means the name was new. Writing into memory fails only on
/// such a name, or on sizes that need ZIP64, which a small archive with a
/// short name stays clear of.
#[verifier::external_body]
pub(crate) fn zip_put(w: &mut ArchiveWriter, name: &str, stored: bool, data: &[u8]) -> (r: Result<(), ZipFault>)
    ensures
        r is Ok ==> zip_written(*final(w)) == zip_written(*old(w)).push((name@, stored, data@)),
        r is Ok ==> !entry_names(zip_written(*old(w))).contains(name@),
        !entry_names(zip_written(*old(w))).contains(name@) && name@.len() < 0x1000
            && zip_small(zip_written(*old(w)).push((name@, stored, data@))) ==> r is Ok,
{
    let method = if stored { CompressionMethod::Stored } else { CompressionMethod::Deflated };
    let options = SimpleFileOptions::default().compression_method(method);
    w.inner.start_file(name, options).map_err(|e| ZipFault::Zip(e.to_string()))?;
    w.inner.write_all(data).map_err(|e| ZipFault::Io(e.to_string()))
}

/// Calls `zip::ZipWriter::finish` and takes the buffer out of its cursor:
/// the archive of the entries written, or the writer's error message. The
/// archive is named by [`zip_archive`] as a function of the entries: built
/// without its `time` feature, `zip` stamps every entry with the fixed
/// 1980-01-01 date.
/// Writing the central directory into memory does not fail for a small
/// archive. Opening the finished archive with `ZipArchive::new` and reading
/// an entry by its name (`by_name`, `read_to_end`) gives back the bytes
/// written under that name: stored entries as they are, deflated ones
/// inflated again.
#[verifier::external_body]
pub(crate) fn zip_finish(w: ArchiveWriter) -> (r: Result<Vec<u8>, String>)
    ensures
        r matches Ok(v) ==> v@ == zip_archive(zip_written(w)),
        zip_small(zip_written(w)) ==> r is Ok,
        r matches Ok(v) ==> (entry_names(zip_written(w)).no_duplicates() ==> forall|i: int|
            0 <= i < zip_written(w).len() ==> #[trigger] zip_entry_read(v@, zip_written(w)[i].0) == Ok::<
                Option<Seq<u8>>,
                Seq<char>,
            >(Some(zip_written(w)[i].2))),
{
    w.inner.finish().map(|c| c.into_inner()).map_err(|e| e.to_string())
}

} // verus!

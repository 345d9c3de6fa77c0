//! Access to the ZIP container that an EPUB file is.
//!
//! The archive is held entirely in memory, so every operation here is a
//! pure computation over the bytes the caller handed in.  What an archive
//! holds is named by two spec functions — its entry names, and the
//! entries that decode as UTF-8 text — and every wrapper speaks of those
//! names.  Once opened, an archive's entries never change.

use vstd::prelude::*;

use std::io::Cursor;
use std::io::Read;

use crate::EpubError;

verus! {

#[verifier::external_type_specification]
#[verifier::external_body]
#[verifier::reject_recursive_types(T)]
pub struct ExCursor<T>(Cursor<T>);

#[verifier::external_type_specification]
#[verifier::external_body]
#[verifier::reject_recursive_types(R)]
pub struct ExZipArchive<R>(zip::ZipArchive<R>);

/// An EPUB container: a ZIP archive over the in-memory bytes of the file.
pub type EpubArchive = zip::ZipArchive<Cursor<Vec<u8>>>;

/// The entries of the archive that decode as UTF-8 text, keyed by entry
/// name, with their decoded contents.
pub uninterp spec fn archive_text_entries(a: EpubArchive) -> Map<Seq<char>, Seq<char>>;

/// The names of all entries of the archive, text or not.
pub uninterp spec fn archive_entry_names(a: EpubArchive) -> Set<Seq<char>>;

/// Whether these bytes carry a readable ZIP central directory.
pub uninterp spec fn zip_readable(bytes: Seq<u8>) -> bool;

/// The text entries of the archive that these bytes hold.
pub uninterp spec fn zip_text_entries_of(bytes: Seq<u8>) -> Map<Seq<char>, Seq<char>>;

/// The entry names of the archive that these bytes hold.
pub uninterp spec fn zip_entry_names_of(bytes: Seq<u8>) -> Set<Seq<char>>;

/// Relies on zip's `ZipArchive::new`: reads the archive's central
/// directory.  Which archive comes back, and whether one does at all, is
/// a function of the bytes alone.
#[verifier::external_body]
pub fn open_archive(bytes: Vec<u8>) -> (r: Option<EpubArchive>)
    ensures
        r is Some <==> zip_readable(bytes@),
        r matches Some(a) ==> archive_text_entries(a) == zip_text_entries_of(bytes@)
            && archive_entry_names(a) == zip_entry_names_of(bytes@),
{
    zip::ZipArchive::new(Cursor::new(bytes)).ok()
}

/// Relies on zip's `ZipArchive::by_name` and `Read::read_to_string`: the
/// decoded text of one entry.  `by_name` answers `FileNotFound` exactly
/// for names the archive does not hold; decoding reads the cursor but
/// leaves the entry index untouched.
#[verifier::external_body]
pub fn read_entry_text(a: &mut EpubArchive, name: &str) -> (r: Result<String, EpubError>)
    ensures
        archive_text_entries(*final(a)) == archive_text_entries(*old(a)),
        archive_entry_names(*final(a)) == archive_entry_names(*old(a)),
        archive_text_entries(*old(a)).dom().contains(name@) ==> (r matches Ok(s)
            && s@ == archive_text_entries(*old(a))[name@]),
        !archive_entry_names(*old(a)).contains(name@) ==> (r matches Err(e)
            && e == EpubError::EntryNotFound),
        archive_entry_names(*old(a)).contains(name@) && !archive_text_entries(*old(a)).dom(
        ).contains(name@) ==> (r matches Err(e) && e == EpubError::Utf8DecodeError),
{
    match a.by_name(name) {
        Ok(mut entry) => {
            let mut text = String::new();
            match entry.read_to_string(&mut text) {
                Ok(_) => Ok(text),
                Err(_) => Err(EpubError::Utf8DecodeError),
            }
        },
        Err(zip::result::ZipError::FileNotFound) => Err(EpubError::EntryNotFound),
        Err(_) => Err(EpubError::Utf8DecodeError),
    }
}

} // verus!

#![allow(unused_imports)]

use vstd::prelude::*;

pub mod archive;
pub mod chapters;
pub mod epub;
pub mod manifest;
pub mod metadata;
pub mod reader;
pub mod seqs;
pub mod spine;
pub mod strings;
pub mod table_of_contents;
pub mod xml;

verus! {

/// The ways in which opening a book, reading one of its resources, or
/// rebuilding a chapter can fail.  Every failure that the engine can run
/// into is reported through one of these variants; no operation panics.
#[derive(Debug, Clone, Copy, PartialEq, Eq, Structural)]
pub enum EpubError {
    /// The given bytes are not a readable ZIP container.
    NotAZip,
    /// The requested entry does not exist in the archive.
    EntryNotFound,
    /// The requested entry exists but could not be decoded as UTF-8 text.
    Utf8DecodeError,
    /// `META-INF/container.xml` is missing or unreadable.
    MalformedContainer,
    /// The container document names no package document.
    OpfNotFound,
    /// The package document could not be read from the archive.
    PackageDocumentUnreadable,
    /// No manifest entry matches the table-of-contents lookup.
    TocNotFound,
    /// The table-of-contents document could not be read from the archive.
    TocUnreadable,
    /// A reading-order entry references a manifest id that does not exist.
    DanglingSpineReference,
    /// Chapter markup closes an element that was never opened.
    UnbalancedMarkup,
    /// A reading session cannot start on a book whose table of contents is empty.
    EmptyTableOfContents,
    /// A relative lookup was asked about a path that no entry of the
    /// table of contents carries — an internally inconsistent state.
    PathNotInTableOfContents,
}

} // verus!

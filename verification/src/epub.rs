//! The assembled book: archive, metadata, manifest, reading order and
//! table of contents, opened from the bytes of an EPUB file.

use vstd::prelude::*;

use crate::archive::{
    archive_entry_names, archive_text_entries, open_archive, read_entry_text, zip_entry_names_of,
    zip_readable, zip_text_entries_of, EpubArchive,
};
use crate::manifest::{manifest_items_of, query_pred, BookManifest};
use crate::metadata::{metadata_of, BookMetadata};
use crate::seqs::{first_where, lemma_first_where_props};
use crate::spine::{spine_items_of, BookSpine};
use crate::strings::{dir_joined, parent_dir, parent_dir_of};
use crate::table_of_contents::table_of_contents::{toc_of, TableOfContents};
use crate::table_of_contents::table_of_contents_item::TableOfContentsItem;
use crate::xml::{first_attr, xml_events, xml_events_of, XmlEvent};
use crate::EpubError;

verus! {

/// The path of the container document inside every EPUB archive; it
/// names the package document.
pub const META_INF_CONTAINER_PATH: &'static str = "META-INF/container.xml";

/// One opened book.
pub struct EBook {
    pub metadata: BookMetadata,
    /// Where the book was opened from, as the caller named it.
    pub path: String,
    /// The open ZIP container the book's resources are read from.
    pub archive: EpubArchive,
    pub spine: BookSpine,
    pub manifest: BookManifest,
    pub table_of_contents: TableOfContents,
    /// The directory of the package document inside the archive; every
    /// navigation href is resolved against it.
    pub content_dir: String,
}

/// The package-document path named by the container: the first
/// `<rootfile>` element carrying a `full-path` attribute gives it.
pub open spec fn rootfile_path_of(events: Seq<XmlEvent>) -> Option<Seq<char>>
    decreases events.len(),
{
    if events.len() == 0 {
        None
    } else {
        let rest = rootfile_path_of(events.drop_first());
        match events.first() {
            XmlEvent::Open { name, attrs } => if name@ == "rootfile"@ && first_attr(
                attrs@,
                "full-path"@,
            ) is Some {
                first_attr(attrs@, "full-path"@)
            } else {
                rest
            },
            XmlEvent::EmptyTag { name, attrs } => if name@ == "rootfile"@ && first_attr(
                attrs@,
                "full-path"@,
            ) is Some {
                first_attr(attrs@, "full-path"@)
            } else {
                rest
            },
            _ => rest,
        }
    }
}

/// The package-document path the container yields, where an empty one
/// counts as none at all.
pub open spec fn container_opf_path(events: Seq<XmlEvent>) -> Option<Seq<char>> {
    match rootfile_path_of(events) {
        Some(p) => if p.len() == 0 {
            None
        } else {
            Some(p)
        },
        None => None,
    }
}

impl EBook {
    /// The text entries of this book's archive, by name.
    pub open spec fn entries(self) -> Map<Seq<char>, Seq<char>> {
        archive_text_entries(self.archive)
    }

    /// The names of all entries of this book's archive.
    pub open spec fn entry_names(self) -> Set<Seq<char>> {
        archive_entry_names(self.archive)
    }

    /// Scans the container document for the package-document path.
    fn parse_container(container_content: &str) -> (r: Result<String, EpubError>)
        ensures
            ({
                let found = container_opf_path(xml_events_of(container_content@, true));
                &&& (r is Ok <==> found is Some)
                &&& (r matches Ok(p) ==> found == Some(p@))
                &&& (r is Err ==> r == Err::<String, EpubError>(EpubError::OpfNotFound))
            }),
    {
        let events = xml_events(container_content, true);
        let ghost all: Seq<XmlEvent> = events@;
        let mut i: usize = 0;
        proof {
            assert(all.skip(0) =~= all);
        }
        while i < events.len()
            invariant
                i <= events.len(),
                events@ == all,
                all == xml_events_of(container_content@, true),
                rootfile_path_of(all) == rootfile_path_of(all.skip(i as int)),
            decreases events.len() - i,
        {
            proof {
                assert(all.skip(i as int).first() == all[i as int]);
                assert(all.skip(i as int).drop_first() =~= all.skip(i + 1));
            }
            match &events[i] {
                XmlEvent::Open { name, attrs } | XmlEvent::EmptyTag { name, attrs } => {
                    if crate::strings::str_eq(name.as_str(), "rootfile") {
                        if let Some(p) = crate::xml::find_first_attr(attrs, "full-path") {
                            if !p.as_str().is_empty() {
                                return Ok(p);
                            } else {
                                return Err(EpubError::OpfNotFound);
                            }
                        }
                    }
                },
                _ => {},
            }
            i = i + 1;
        }
        proof {
            assert(all.skip(all.len() as int) =~= Seq::<XmlEvent>::empty());
        }
        Err(EpubError::OpfNotFound)
    }

    /// Opens a book from the bytes of an EPUB file.  The archive is
    /// validated, the container names the package document, the package
    /// document yields metadata, manifest and reading order, and the
    /// manifest entry found by the `toc` lookup names the navigation
    /// document the table of contents is read from.  Each stage's
    /// failure is reported by its own error, in this order of checks.
    pub fn read_epub(epub_bytes: Vec<u8>, epub_path: String) -> (r: Result<EBook, EpubError>)
        ensures
            ({
                let entries = zip_text_entries_of(epub_bytes@);
                let names = zip_entry_names_of(epub_bytes@);
                let container_ok = zip_readable(epub_bytes@) && entries.dom().contains(
                    META_INF_CONTAINER_PATH@,
                );
                let opf_found = container_opf_path(
                    xml_events_of(entries[META_INF_CONTAINER_PATH@], true),
                );
                &&& (!zip_readable(epub_bytes@) ==> r == Err::<EBook, EpubError>(
                    EpubError::NotAZip,
                ))
                &&& (zip_readable(epub_bytes@) && !entries.dom().contains(
                    META_INF_CONTAINER_PATH@,
                ) ==> r == Err::<EBook, EpubError>(EpubError::MalformedContainer))
                &&& (container_ok && opf_found is None ==> r == Err::<EBook, EpubError>(
                    EpubError::OpfNotFound,
                ))
                &&& (container_ok ==> (opf_found matches Some(opf_path) ==> read_epub_outcome(
                    r,
                    entries,
                    names,
                    opf_path,
                    epub_path@,
                )))
            }),
    {
        let archive = match open_archive(epub_bytes) {
            Some(a) => a,
            None => {
                return Err(EpubError::NotAZip);
            },
        };
        let mut archive = archive;
        let container_content = match read_entry_text(&mut archive, META_INF_CONTAINER_PATH) {
            Ok(c) => c,
            Err(_) => {
                return Err(EpubError::MalformedContainer);
            },
        };
        let opf_path = match EBook::parse_container(container_content.as_str()) {
            Ok(p) => p,
            Err(e) => {
                return Err(e);
            },
        };
        let opf_content = match read_entry_text(&mut archive, opf_path.as_str()) {
            Ok(c) => c,
            Err(_) => {
                return Err(EpubError::PackageDocumentUnreadable);
            },
        };
        let content_dir = parent_dir(opf_path.as_str());
        let manifest = BookManifest::from_opf(opf_content.as_str());
        let metadata = BookMetadata::from_opf(opf_content.as_str());
        let spine = match BookSpine::from_opf_and_manifest(opf_content.as_str(), &manifest) {
            Ok(s) => s,
            Err(e) => {
                return Err(e);
            },
        };
        let toc_entry = match manifest.search_for_item("toc") {
            Some(item) => item.duplicate(),
            None => {
                return Err(EpubError::TocNotFound);
            },
        };
        let toc_href = crate::strings::dir_join(content_dir.as_str(), toc_entry.href.as_str());
        proof {
            let gmani = manifest_items_of(xml_events_of(opf_content@, true));
            lemma_first_where_props(manifest.items.deep_view(), query_pred("toc"@));
            match first_where(manifest.items.deep_view(), query_pred("toc"@)) {
                Some(ti) => {
                    assert(manifest.items.deep_view()[ti] == manifest.items@[ti].deep_view());
                    assert(toc_entry.deep_view() == gmani[ti]);
                    assert(toc_href@ == dir_joined(parent_dir_of(opf_path@), gmani[ti].href));
                },
                None => {},
            }
        }
        let toc_content = match read_entry_text(&mut archive, toc_href.as_str()) {
            Ok(c) => c,
            Err(_) => {
                return Err(EpubError::TocUnreadable);
            },
        };
        let table_of_contents = TableOfContents::from_content(
            toc_href,
            toc_content,
            content_dir.clone(),
        );
        Ok(
            EBook {
                metadata,
                path: epub_path,
                archive,
                spine,
                manifest,
                table_of_contents,
                content_dir,
            },
        )
    }

    /// Fetches the raw text of the chapter a navigation entry points at;
    /// the entry's path is already content-root-prefixed, so it is
    /// looked up in the archive as it stands.
    pub fn get_content_by_toc_item(&mut self, toc_item: &TableOfContentsItem) -> (r: Result<
        String,
        EpubError,
    >)
        ensures
            final(self).entries() == old(self).entries(),
            final(self).entry_names() == old(self).entry_names(),
            final(self).metadata == old(self).metadata,
            final(self).path == old(self).path,
            final(self).spine == old(self).spine,
            final(self).manifest == old(self).manifest,
            final(self).table_of_contents == old(self).table_of_contents,
            final(self).content_dir == old(self).content_dir,
            old(self).entries().dom().contains(toc_item.path@) ==> (r matches Ok(s)
                && s@ == old(self).entries()[toc_item.path@]),
            !old(self).entry_names().contains(toc_item.path@) ==> (r matches Err(e)
                && e == EpubError::EntryNotFound),
            old(self).entry_names().contains(toc_item.path@) && !old(self).entries().dom(
            ).contains(toc_item.path@) ==> (r matches Err(e) && e == EpubError::Utf8DecodeError),
    {
        read_entry_text(&mut self.archive, toc_item.path.as_str())
    }
}

/// What opening yields once the archive is readable, the container was
/// read and it names a package document: each later stage either fails
/// with its own error or contributes its verified reading to the book.
pub open spec fn read_epub_outcome(
    r: Result<EBook, EpubError>,
    entries: Map<Seq<char>, Seq<char>>,
    names: Set<Seq<char>>,
    opf_path: Seq<char>,
    epub_path: Seq<char>,
) -> bool {
    let opf_ok = entries.dom().contains(opf_path);
    let opf = entries[opf_path];
    let opf_events = xml_events_of(opf, true);
    let mani = manifest_items_of(opf_events);
    let spine = spine_items_of(opf_events, mani);
    let toc_found = first_where(mani, query_pred("toc"@));
    let dir = parent_dir_of(opf_path);
    &&& (!opf_ok ==> r == Err::<EBook, EpubError>(EpubError::PackageDocumentUnreadable))
    &&& (opf_ok && spine is None ==> r == Err::<EBook, EpubError>(
        EpubError::DanglingSpineReference,
    ))
    &&& (opf_ok && spine is Some && toc_found is None ==> r == Err::<EBook, EpubError>(
        EpubError::TocNotFound,
    ))
    &&& (opf_ok && spine is Some ==> (toc_found matches Some(ti) ==> ({
        let toc_href = dir_joined(dir, mani[ti].href);
        &&& (!entries.dom().contains(toc_href) ==> r == Err::<EBook, EpubError>(
            EpubError::TocUnreadable,
        ))
        &&& (entries.dom().contains(toc_href) ==> (r matches Ok(book) && ({
            &&& book.entries() == entries
            &&& book.entry_names() == names
            &&& book.path@ == epub_path
            &&& book.content_dir@ == dir
            &&& book.metadata.deep_view() == metadata_of(opf_events)
            &&& book.manifest.items.deep_view() == mani
            &&& spine == Some(book.spine.items.deep_view())
            &&& book.table_of_contents.items.deep_view() == toc_of(
                toc_href,
                entries[toc_href],
                dir,
            )
        })))
    })))
}

} // verus!

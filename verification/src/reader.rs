//! The reading session: a book plus the chapter currently in view, moved
//! forward and backward along the table of contents.

use vstd::prelude::*;

use crate::chapters::chapter::{chapter_structure_of, Chapter};
use crate::epub::EBook;
use crate::table_of_contents::table_of_contents::{next_of, previous_of};
use crate::table_of_contents::table_of_contents_item::TocItemModel;
use crate::seqs::first_where;
use crate::xml::xml_events_of;
use crate::EpubError;

verus! {

/// What the reader is looking at now.
pub struct ReadingSession {
    pub current: Chapter,
}

/// A reading session over one book.  Navigation replaces the current
/// chapter wholesale; at a boundary it changes nothing at all.
pub struct EBookReader {
    pub book: EBook,
    pub session: ReadingSession,
}

/// Whether no two navigation entries share a path.
pub open spec fn distinct_paths(toc: Seq<TocItemModel>) -> bool {
    forall|i: int, j: int|
        0 <= i < j < toc.len() ==> #[trigger] toc[i].path != #[trigger] toc[j].path
}

/// The position one forward step leads to from position `k`: one to the
/// right, or `k` itself at the last entry or when the lookup misses.
pub open spec fn next_index(toc: Seq<TocItemModel>, k: int) -> int {
    match next_of(toc, toc[k].path) {
        Some(step) => match step {
            Some(j) => j,
            None => k,
        },
        None => k,
    }
}

/// The position one backward step leads to from position `k`.
pub open spec fn previous_index(toc: Seq<TocItemModel>, k: int) -> int {
    match previous_of(toc, toc[k].path) {
        Some(step) => match step {
            Some(j) => j,
            None => k,
        },
        None => k,
    }
}

/// The position `n` forward steps lead to.
pub open spec fn nexts(toc: Seq<TocItemModel>, k: int, n: nat) -> int
    decreases n,
{
    if n == 0 {
        k
    } else {
        nexts(toc, next_index(toc, k), (n - 1) as nat)
    }
}

/// The position `n` backward steps lead to.
pub open spec fn previouses(toc: Seq<TocItemModel>, k: int, n: nat) -> int
    decreases n,
{
    if n == 0 {
        k
    } else {
        previouses(toc, previous_index(toc, k), (n - 1) as nat)
    }
}

/// In a table of contents with distinct paths, position `k` is found by
/// its own path.
pub proof fn lemma_position_distinct(toc: Seq<TocItemModel>, k: int)
    requires
        distinct_paths(toc),
        0 <= k < toc.len(),
    ensures
        first_where(toc, crate::table_of_contents::table_of_contents::path_pred(toc[k].path))
            == Some(k),
{
    let p = crate::table_of_contents::table_of_contents::path_pred(toc[k].path);
    assert(p(toc[k]));
    assert forall|j: int| 0 <= j < k implies !p(toc[j]) by {
        assert(toc[j].path != toc[k].path);
    }
    crate::seqs::lemma_first_where_some(toc, p, k);
}

/// One forward step from `k`, with distinct paths: to `k + 1`, or
/// nowhere at the last entry.
pub proof fn lemma_next_step(toc: Seq<TocItemModel>, k: int)
    requires
        distinct_paths(toc),
        0 <= k < toc.len(),
    ensures
        k < toc.len() - 1 ==> next_of(toc, toc[k].path) == Some(Some(k + 1)),
        k == toc.len() - 1 ==> next_of(toc, toc[k].path) == Some(None::<int>),
        next_index(toc, k) == if k < toc.len() - 1 {
            k + 1
        } else {
            k
        },
{
    lemma_position_distinct(toc, k);
    if k != toc.len() - 1 {
        assert(toc[k].path != toc[toc.len() - 1].path);
    }
}

/// One backward step from `k`, with distinct paths: to `k - 1`, or
/// nowhere at the first entry.
pub proof fn lemma_previous_step(toc: Seq<TocItemModel>, k: int)
    requires
        distinct_paths(toc),
        0 <= k < toc.len(),
    ensures
        k > 0 ==> previous_of(toc, toc[k].path) == Some(Some(k - 1)),
        k == 0 ==> previous_of(toc, toc[k].path) == Some(None::<int>),
        previous_index(toc, k) == if k > 0 {
            k - 1
        } else {
            k
        },
{
    lemma_position_distinct(toc, k);
    if k != 0 {
        assert(toc[0].path != toc[k].path);
    }
}

/// `n` forward steps from `k`, with distinct paths, stop at the last
/// entry.
pub proof fn lemma_nexts(toc: Seq<TocItemModel>, k: int, n: nat)
    requires
        distinct_paths(toc),
        0 <= k < toc.len(),
    ensures
        nexts(toc, k, n) == if k + n <= toc.len() - 1 {
            k + n
        } else {
            toc.len() - 1
        },
    decreases n,
{
    if n > 0 {
        lemma_next_step(toc, k);
        lemma_nexts(toc, next_index(toc, k), (n - 1) as nat);
    }
}

/// `n` backward steps from `k`, with distinct paths, stop at the first
/// entry.
pub proof fn lemma_previouses(toc: Seq<TocItemModel>, k: int, n: nat)
    requires
        distinct_paths(toc),
        0 <= k < toc.len(),
    ensures
        previouses(toc, k, n) == if k - n >= 0 {
            k - n
        } else {
            0
        },
    decreases n,
{
    if n > 0 {
        lemma_previous_step(toc, k);
        lemma_previouses(toc, previous_index(toc, k), (n - 1) as nat);
    }
}

/// Law: navigation boundary idempotence.  From a position whose forward
/// lookup answers "no further entry", any number of forward steps stays
/// put; symmetrically for backward steps.  No assumption on the table of
/// contents is needed: this is how the boundary answer is defined.
pub proof fn lemma_boundary_idempotence(toc: Seq<TocItemModel>, k: int, n: nat)
    requires
        0 <= k < toc.len(),
    ensures
        next_of(toc, toc[k].path) == Some(None::<int>) ==> nexts(toc, k, n) == k,
        previous_of(toc, toc[k].path) == Some(None::<int>) ==> previouses(toc, k, n) == k,
    decreases n,
{
    if n > 0 {
        lemma_boundary_idempotence(toc, k, (n - 1) as nat);
    }
}

/// Law: sequential consistency.  In a table of contents whose entries
/// carry distinct paths, starting at the first entry, stepping forward
/// once per remaining entry and then backward the same number of times
/// lands on the first entry again — the very same entry, path and label
/// included.
pub proof fn lemma_sequential_consistency(toc: Seq<TocItemModel>, n: nat)
    requires
        toc.len() > 0,
        distinct_paths(toc),
        n == toc.len() - 1,
    ensures
        previouses(toc, nexts(toc, 0, n), n) == 0,
        toc[previouses(toc, nexts(toc, 0, n), n)] == toc[0],
{
    lemma_nexts(toc, 0, n);
    lemma_previouses(toc, toc.len() - 1, n);
}

impl EBookReader {
    /// Opens a session on an already-opened book, seeded with the first
    /// navigation entry; a book whose table of contents is empty cannot
    /// be read.
    pub fn new(ebook: EBook) -> (r: Result<EBookReader, EpubError>)
        ensures
            ({
                let toc = ebook.table_of_contents.items.deep_view();
                let entries = ebook.entries();
                &&& (toc.len() == 0 ==> r == Err::<EBookReader, EpubError>(
                    EpubError::EmptyTableOfContents,
                ))
                &&& (toc.len() > 0 && entries.dom().contains(toc[0].path) ==> (r is Ok
                    <==> chapter_structure_of(xml_events_of(entries[toc[0].path], false))
                    is Some))
                &&& (toc.len() > 0 && !ebook.entry_names().contains(toc[0].path) ==> r
                    == Err::<EBookReader, EpubError>(EpubError::EntryNotFound))
                &&& (r matches Ok(rd) ==> ({
                    &&& rd.book.table_of_contents == ebook.table_of_contents
                    &&& rd.book.entries() == entries
                    &&& rd.book.entry_names() == ebook.entry_names()
                    &&& rd.book.metadata == ebook.metadata
                    &&& rd.book.path == ebook.path
                    &&& rd.book.manifest == ebook.manifest
                    &&& rd.book.spine == ebook.spine
                    &&& rd.book.content_dir == ebook.content_dir
                    &&& toc.len() > 0
                    &&& rd.session.current.path@ == toc[0].path
                    &&& rd.session.current.label@ == toc[0].label
                    &&& rd.session.current.wf()
                }))
            }),
    {
        let mut book = ebook;
        if book.table_of_contents.items.len() == 0 {
            return Err(EpubError::EmptyTableOfContents);
        }
        let first_toc_item = book.table_of_contents.items[0].duplicate();
        let chapter = match Chapter::from_item(first_toc_item, &mut book) {
            Ok(c) => c,
            Err(e) => {
                return Err(e);
            },
        };
        Ok(EBookReader { book, session: ReadingSession { current: chapter } })
    }

    /// The chapter the session is looking at.
    pub fn current_chapter(&self) -> (r: &Chapter)
        ensures
            *r == self.session.current,
    {
        &self.session.current
    }

    /// Steps to the next navigation entry, rebuilding the chapter from a
    /// fresh archive read.  At the last entry nothing changes and the
    /// step still succeeds; a current path missing from the table of
    /// contents altogether is an error.
    pub fn move_to_next_chapter(&mut self) -> (r: Result<(), EpubError>)
        ensures
            final(self).book.table_of_contents == old(self).book.table_of_contents,
            final(self).book.entries() == old(self).book.entries(),
            final(self).book.entry_names() == old(self).book.entry_names(),
            final(self).book.metadata == old(self).book.metadata,
            final(self).book.path == old(self).book.path,
            final(self).book.manifest == old(self).book.manifest,
            final(self).book.spine == old(self).book.spine,
            final(self).book.content_dir == old(self).book.content_dir,
            ({
                let toc = old(self).book.table_of_contents.items.deep_view();
                let entries = old(self).book.entries();
                let outcome = next_of(toc, old(self).session.current.path@);
                &&& (outcome is None ==> r == Err::<(), EpubError>(
                    EpubError::PathNotInTableOfContents,
                ) && final(self).session == old(self).session)
                &&& (outcome == Some(None::<int>) ==> r == Ok::<(), EpubError>(()) && *final(self)
                    == *old(self))
                &&& (outcome matches Some(step) ==> (step matches Some(j) ==> ({
                    let target = toc[j];
                    &&& (entries.dom().contains(target.path) ==> ({
                        let parsed = chapter_structure_of(
                            xml_events_of(entries[target.path], false),
                        );
                        &&& (r is Ok <==> parsed is Some)
                        &&& (r is Ok ==> final(self).session.current.path@ == target.path
                            && final(self).session.current.label@ == target.label
                            && final(self).session.current.wf())
                    }))
                    &&& (!old(self).book.entry_names().contains(target.path) ==> r == Err::<
                        (),
                        EpubError,
                    >(EpubError::EntryNotFound))
                    &&& (r is Err ==> final(self).session == old(self).session)
                })))
            }),
    {
        let step = match self.book.table_of_contents.next_relative(
            self.session.current.path.as_str(),
        ) {
            Ok(Some(item)) => item.duplicate(),
            Ok(None) => {
                return Ok(());
            },
            Err(e) => {
                return Err(e);
            },
        };
        match Chapter::from_item(step, &mut self.book) {
            Ok(c) => {
                self.session = ReadingSession { current: c };
                Ok(())
            },
            Err(e) => Err(e),
        }
    }

    /// Steps to the previous navigation entry, symmetrically to
    /// [`EBookReader::move_to_next_chapter`]: at the first entry nothing
    /// changes and the step still succeeds.
    pub fn move_to_previous_chapter(&mut self) -> (r: Result<(), EpubError>)
        ensures
            final(self).book.table_of_contents == old(self).book.table_of_contents,
            final(self).book.entries() == old(self).book.entries(),
            final(self).book.entry_names() == old(self).book.entry_names(),
            final(self).book.metadata == old(self).book.metadata,
            final(self).book.path == old(self).book.path,
            final(self).book.manifest == old(self).book.manifest,
            final(self).book.spine == old(self).book.spine,
            final(self).book.content_dir == old(self).book.content_dir,
            ({
                let toc = old(self).book.table_of_contents.items.deep_view();
                let entries = old(self).book.entries();
                let outcome = previous_of(toc, old(self).session.current.path@);
                &&& (outcome is None ==> r == Err::<(), EpubError>(
                    EpubError::PathNotInTableOfContents,
                ) && final(self).session == old(self).session)
                &&& (outcome == Some(None::<int>) ==> r == Ok::<(), EpubError>(()) && *final(self)
                    == *old(self))
                &&& (outcome matches Some(step) ==> (step matches Some(j) ==> ({
                    let target = toc[j];
                    &&& (entries.dom().contains(target.path) ==> ({
                        let parsed = chapter_structure_of(
                            xml_events_of(entries[target.path], false),
                        );
                        &&& (r is Ok <==> parsed is Some)
                        &&& (r is Ok ==> final(self).session.current.path@ == target.path
                            && final(self).session.current.label@ == target.label
                            && final(self).session.current.wf())
                    }))
                    &&& (!old(self).book.entry_names().contains(target.path) ==> r == Err::<
                        (),
                        EpubError,
                    >(EpubError::EntryNotFound))
                    &&& (r is Err ==> final(self).session == old(self).session)
                })))
            }),
    {
        let step = match self.book.table_of_contents.previous_relative(
            self.session.current.path.as_str(),
        ) {
            Ok(Some(item)) => item.duplicate(),
            Ok(None) => {
                return Ok(());
            },
            Err(e) => {
                return Err(e);
            },
        };
        match Chapter::from_item(step, &mut self.book) {
            Ok(c) => {
                self.session = ReadingSession { current: c };
                Ok(())
            },
            Err(e) => Err(e),
        }
    }
}

} // verus!

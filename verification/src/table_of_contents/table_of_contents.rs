//! Building the flat navigation list from either navigation format, and
//! the path-relative lookups that chapter navigation steps through.

use vstd::prelude::*;

use crate::seqs::{first_where, lemma_first_where_none, lemma_first_where_some};
use crate::strings::{ends_with_seq, ends_with_str, str_eq};
use crate::xml::{last_attr, xml_events, xml_events_of, XmlAttr, XmlEvent};
use crate::EpubError;
use super::table_of_contents_item::{
    item_href_of, toc_item_model, TableOfContentsItem, TocItemModel,
};

verus! {

/// The ordered list of navigation entries of one book.
#[derive(Debug, Clone)]
pub struct TableOfContents {
    pub items: Vec<TableOfContentsItem>,
}

/// EPUB 2: whether this start tag enters the `<navMap>` scope.  A single
/// flag, not a stack: once inside, later tags cannot leave.
pub open spec fn open2_inside(name: Seq<char>, inside: bool) -> bool {
    inside || name == "navMap"@
}

/// EPUB 2: the href gathered from a `<content src="...">` element, joined
/// behind the content root; any other tag leaves the gathered href alone.
pub open spec fn open2_href(
    name: Seq<char>,
    attrs: Seq<XmlAttr>,
    dir: Seq<char>,
    href: Seq<char>,
) -> Seq<char> {
    if name == "content"@ {
        item_href_of(attrs, "src"@, dir)
    } else {
        href
    }
}

/// EPUB 2: a `<content>` element begins an entry.
pub open spec fn open2_started(name: Seq<char>, started: bool) -> bool {
    if name == "content"@ {
        true
    } else {
        started
    }
}

/// EPUB 2: folds the remaining events over the gathering state.  Text
/// overwrites the pending label; a closing tag commits the pending entry
/// when one was started inside the navigation scope, and ends the walk
/// when one was started outside it.
pub open spec fn toc2_from(
    events: Seq<XmlEvent>,
    dir: Seq<char>,
    href: Seq<char>,
    label: Seq<char>,
    started: bool,
    inside: bool,
    acc: Seq<TocItemModel>,
) -> Seq<TocItemModel>
    decreases events.len(),
{
    if events.len() == 0 {
        acc
    } else {
        let rest = events.drop_first();
        match events.first() {
            XmlEvent::Open { name, attrs } => toc2_from(
                rest,
                dir,
                open2_href(name@, attrs@, dir, href),
                label,
                open2_started(name@, started),
                open2_inside(name@, inside),
                acc,
            ),
            XmlEvent::EmptyTag { name, attrs } => toc2_from(
                rest,
                dir,
                open2_href(name@, attrs@, dir, href),
                label,
                open2_started(name@, started),
                open2_inside(name@, inside),
                acc,
            ),
            XmlEvent::Text { text } => toc2_from(rest, dir, href, text@, started, inside, acc),
            XmlEvent::Close => if !started {
                toc2_from(rest, dir, href, label, started, inside, acc)
            } else if !inside {
                acc
            } else {
                toc2_from(
                    rest,
                    dir,
                    Seq::empty(),
                    Seq::empty(),
                    false,
                    inside,
                    acc.push(toc_item_model(href, label, None)),
                )
            },
        }
    }
}

/// What the EPUB 2 reader yields on a whole event stream.
pub open spec fn toc_epub2_of(events: Seq<XmlEvent>, dir: Seq<char>) -> Seq<TocItemModel> {
    toc2_from(events, dir, Seq::empty(), Seq::empty(), false, false, Seq::empty())
}

/// EPUB 3: whether this start tag moves the navigation-scope flag.  Every
/// `epub:type` attribute sets it, so the last one decides; a tag without
/// one leaves it alone.
pub open spec fn open3_inside(attrs: Seq<XmlAttr>, inside: bool) -> bool {
    match last_attr(attrs, "epub:type"@) {
        Some(v) => v == "toc"@,
        None => inside,
    }
}

/// EPUB 3: the href gathered from an `<a href="...">` element, joined
/// behind the content root.
pub open spec fn open3_href(
    name: Seq<char>,
    attrs: Seq<XmlAttr>,
    dir: Seq<char>,
    href: Seq<char>,
) -> Seq<char> {
    if name == "a"@ {
        item_href_of(attrs, "href"@, dir)
    } else {
        href
    }
}

/// EPUB 3: an `<a>` element begins an entry.
pub open spec fn open3_started(name: Seq<char>, started: bool) -> bool {
    if name == "a"@ {
        true
    } else {
        started
    }
}

/// EPUB 3: folds the remaining events over the gathering state, with the
/// same text and closing-tag behaviour as the EPUB 2 walk.
pub open spec fn toc3_from(
    events: Seq<XmlEvent>,
    dir: Seq<char>,
    href: Seq<char>,
    label: Seq<char>,
    started: bool,
    inside: bool,
    acc: Seq<TocItemModel>,
) -> Seq<TocItemModel>
    decreases events.len(),
{
    if events.len() == 0 {
        acc
    } else {
        let rest = events.drop_first();
        match events.first() {
            XmlEvent::Open { name, attrs } => toc3_from(
                rest,
                dir,
                open3_href(name@, attrs@, dir, href),
                label,
                open3_started(name@, started),
                open3_inside(attrs@, inside),
                acc,
            ),
            XmlEvent::EmptyTag { name, attrs } => toc3_from(
                rest,
                dir,
                open3_href(name@, attrs@, dir, href),
                label,
                open3_started(name@, started),
                open3_inside(attrs@, inside),
                acc,
            ),
            XmlEvent::Text { text } => toc3_from(rest, dir, href, text@, started, inside, acc),
            XmlEvent::Close => if !started {
                toc3_from(rest, dir, href, label, started, inside, acc)
            } else if !inside {
                acc
            } else {
                toc3_from(
                    rest,
                    dir,
                    Seq::empty(),
                    Seq::empty(),
                    false,
                    inside,
                    acc.push(toc_item_model(href, label, None)),
                )
            },
        }
    }
}

/// What the EPUB 3 reader yields on a whole event stream.
pub open spec fn toc_epub3_of(events: Seq<XmlEvent>, dir: Seq<char>) -> Seq<TocItemModel> {
    toc3_from(events, dir, Seq::empty(), Seq::empty(), false, false, Seq::empty())
}

/// The table of contents of a navigation document: the format is chosen
/// by whether the document's own path ends in the NCX extension.
pub open spec fn toc_of(href: Seq<char>, content: Seq<char>, dir: Seq<char>) -> Seq<TocItemModel> {
    if ends_with_seq(href, ".ncx"@) {
        toc_epub2_of(xml_events_of(content, true), dir)
    } else {
        toc_epub3_of(xml_events_of(content, true), dir)
    }
}

/// Whether an entry carries exactly this path.
pub open spec fn path_pred(href: Seq<char>) -> spec_fn(TocItemModel) -> bool {
    |it: TocItemModel| it.path == href
}

/// The equality the navigation lookups use: path and label, nothing else.
pub open spec fn toc_eq(a: TocItemModel, b: TocItemModel) -> bool {
    a.path == b.path && a.label == b.label
}

/// Where backward navigation from `href` leads: `None` when the path is
/// not in the list at all; `Some(None)` at the first entry; otherwise the
/// index one before the entry found.
pub open spec fn previous_of(items: Seq<TocItemModel>, href: Seq<char>) -> Option<Option<int>> {
    match first_where(items, path_pred(href)) {
        Some(p) => if toc_eq(items[0], items[p]) {
            Some(None)
        } else {
            Some(Some(p - 1))
        },
        None => None,
    }
}

/// Where forward navigation from `href` leads: `None` when the path is
/// not in the list at all; `Some(None)` at the last entry; otherwise the
/// index one past the entry found.
pub open spec fn next_of(items: Seq<TocItemModel>, href: Seq<char>) -> Option<Option<int>> {
    match first_where(items, path_pred(href)) {
        Some(p) => if toc_eq(items[items.len() - 1], items[p]) {
            Some(None)
        } else {
            Some(Some(p + 1))
        },
        None => None,
    }
}

impl TableOfContents {
    /// Reads a navigation document in whichever format its path says it
    /// is in: the NCX extension selects the EPUB 2 reader, anything else
    /// the EPUB 3 one.
    pub fn from_content(href: String, content: String, content_dir: String) -> (r: Self)
        ensures
            r.items.deep_view() == toc_of(href@, content@, content_dir@),
    {
        if ends_with_str(href.as_str(), ".ncx") {
            TableOfContents::from_toc_content_for_epub_2(content, content_dir)
        } else {
            TableOfContents::from_toc_content_for_epub_3(content, content_dir)
        }
    }

    /// Streams an EPUB 2 NCX document: `<navMap>` opens the navigation
    /// scope, each `<content src>` begins an entry, the nearest text
    /// names it, and the closing tag commits it.
    pub fn from_toc_content_for_epub_2(toc_content: String, content_dir: String) -> (r:
        TableOfContents)
        ensures
            r.items.deep_view() == toc_epub2_of(
                xml_events_of(toc_content@, true),
                content_dir@,
            ),
    {
        let events = xml_events(toc_content.as_str(), true);
        let ghost all: Seq<XmlEvent> = events@;
        let ghost dir: Seq<char> = content_dir@;
        let mut items: Vec<TableOfContentsItem> = Vec::new();
        let mut href = String::new();
        let mut label = String::new();
        let mut started = false;
        let mut inside = false;
        let mut done = false;
        let mut i: usize = 0;
        proof {
            assert(all.skip(0) =~= all);
            assert(items.deep_view() =~= Seq::<TocItemModel>::empty());
        }
        while i < events.len() && !done
            invariant
                i <= events.len(),
                events@ == all,
                all == xml_events_of(toc_content@, true),
                dir == content_dir@,
                !done ==> toc_epub2_of(all, dir) == toc2_from(
                    all.skip(i as int),
                    dir,
                    href@,
                    label@,
                    started,
                    inside,
                    items.deep_view(),
                ),
                done ==> toc_epub2_of(all, dir) == items.deep_view(),
            decreases events.len() - i,
        {
            proof {
                assert(all.skip(i as int).first() == all[i as int]);
                assert(all.skip(i as int).drop_first() =~= all.skip(i + 1));
            }
            let ghost pre = items.deep_view();
            match &events[i] {
                XmlEvent::Open { name, attrs } | XmlEvent::EmptyTag { name, attrs } => {
                    if !inside {
                        inside = str_eq(name.as_str(), "navMap");
                    }
                    if str_eq(name.as_str(), "content") {
                        href = TableOfContentsItem::get_src_attribute_epub2(
                            attrs,
                            content_dir.as_str(),
                        );
                        started = true;
                    }
                },
                XmlEvent::Text { text } => {
                    label = text.clone();
                },
                XmlEvent::Close => {
                    if started {
                        if !inside {
                            done = true;
                        } else {
                            let ghost ghref = href@;
                            let ghost glabel = label@;
                            let item = TableOfContentsItem::new(href, label, None);
                            href = String::new();
                            label = String::new();
                            started = false;
                            items.push(item);
                            proof {
                                assert(items.deep_view() =~= pre.push(
                                    toc_item_model(ghref, glabel, None),
                                ));
                            }
                        }
                    }
                },
            }
            i = i + 1;
        }
        proof {
            if !done {
                assert(all.skip(all.len() as int) =~= Seq::<XmlEvent>::empty());
            }
        }
        TableOfContents { items }
    }

    /// Streams an EPUB 3 navigation document: an element whose
    /// `epub:type` reads `toc` opens the navigation scope, each
    /// `<a href>` begins an entry, the nearest text names it, and the
    /// closing tag commits it.
    pub fn from_toc_content_for_epub_3(toc_content: String, content_dir: String) -> (r:
        TableOfContents)
        ensures
            r.items.deep_view() == toc_epub3_of(
                xml_events_of(toc_content@, true),
                content_dir@,
            ),
    {
        let events = xml_events(toc_content.as_str(), true);
        let ghost all: Seq<XmlEvent> = events@;
        let ghost dir: Seq<char> = content_dir@;
        let mut items: Vec<TableOfContentsItem> = Vec::new();
        let mut href = String::new();
        let mut label = String::new();
        let mut started = false;
        let mut inside = false;
        let mut done = false;
        let mut i: usize = 0;
        proof {
            assert(all.skip(0) =~= all);
            assert(items.deep_view() =~= Seq::<TocItemModel>::empty());
        }
        while i < events.len() && !done
            invariant
                i <= events.len(),
                events@ == all,
                all == xml_events_of(toc_content@, true),
                dir == content_dir@,
                !done ==> toc_epub3_of(all, dir) == toc3_from(
                    all.skip(i as int),
                    dir,
                    href@,
                    label@,
                    started,
                    inside,
                    items.deep_view(),
                ),
                done ==> toc_epub3_of(all, dir) == items.deep_view(),
            decreases events.len() - i,
        {
            proof {
                assert(all.skip(i as int).first() == all[i as int]);
                assert(all.skip(i as int).drop_first() =~= all.skip(i + 1));
            }
            let ghost pre = items.deep_view();
            match &events[i] {
                XmlEvent::Open { name, attrs } | XmlEvent::EmptyTag { name, attrs } => {
                    match crate::xml::find_last_attr(attrs, "epub:type") {
                        Some(v) => {
                            inside = str_eq(v.as_str(), "toc");
                        },
                        None => {},
                    }
                    if str_eq(name.as_str(), "a") {
                        href = TableOfContentsItem::get_href_attribute_epub3(
                            attrs,
                            content_dir.as_str(),
                        );
                        started = true;
                    }
                },
                XmlEvent::Text { text } => {
                    label = text.clone();
                },
                XmlEvent::Close => {
                    if started {
                        if !inside {
                            done = true;
                        } else {
                            let ghost ghref = href@;
                            let ghost glabel = label@;
                            let item = TableOfContentsItem::new(href, label, None);
                            href = String::new();
                            label = String::new();
                            started = false;
                            items.push(item);
                            proof {
                                assert(items.deep_view() =~= pre.push(
                                    toc_item_model(ghref, glabel, None),
                                ));
                            }
                        }
                    }
                },
            }
            i = i + 1;
        }
        proof {
            if !done {
                assert(all.skip(all.len() as int) =~= Seq::<XmlEvent>::empty());
            }
        }
        TableOfContents { items }
    }

    /// Finds the position of the first entry whose path equals `href`.
    fn position_of(&self, href: &str) -> (r: Option<usize>)
        ensures
            r matches Some(p) ==> p < self.items.len() && first_where(
                self.items.deep_view(),
                path_pred(href@),
            ) == Some(p as int),
            r is None ==> first_where(self.items.deep_view(), path_pred(href@)) is None,
    {
        let mut i: usize = 0;
        while i < self.items.len()
            invariant
                i <= self.items.len(),
                forall|j: int| 0 <= j < i ==> !path_pred(href@)(self.items.deep_view()[j]),
            decreases self.items.len() - i,
        {
            proof {
                assert(self.items.deep_view()[i as int] == self.items@[i as int].deep_view());
            }
            if str_eq(self.items[i].path.as_str(), href) {
                proof {
                    assert(path_pred(href@)(self.items.deep_view()[i as int]));
                    lemma_first_where_some(self.items.deep_view(), path_pred(href@), i as int);
                }
                return Some(i);
            }
            proof {
                assert(!path_pred(href@)(self.items.deep_view()[i as int]));
            }
            i = i + 1;
        }
        proof {
            lemma_first_where_none(self.items.deep_view(), path_pred(href@));
        }
        None
    }

    /// Path-exact lookup: the first entry whose path equals `href`.
    pub fn search_for_item(&self, href: &str) -> (r: Option<&TableOfContentsItem>)
        ensures
            ({
                let found = first_where(self.items.deep_view(), path_pred(href@));
                &&& (r is Some <==> found is Some)
                &&& (r matches Some(item) ==> found matches Some(i) && *item == self.items@[i])
            }),
    {
        match self.position_of(href) {
            Some(p) => Some(&self.items[p]),
            None => None,
        }
    }

    /// The entry one before the one whose path equals `href`: `Ok(None)`
    /// at the first entry, and an error when no entry carries that path
    /// at all — an internally inconsistent state, not a boundary.
    pub fn previous_relative(&self, href: &str) -> (r: Result<
        Option<&TableOfContentsItem>,
        EpubError,
    >)
        ensures
            ({
                let outcome = previous_of(self.items.deep_view(), href@);
                &&& (r is Ok <==> outcome is Some)
                &&& (r matches Ok(opt) ==> outcome matches Some(inner) && (opt is Some <==> inner
                    is Some) && (opt matches Some(item) ==> inner matches Some(j) && 0 <= j
                    < self.items@.len() && *item == self.items@[j]))
                &&& (r is Err ==> r == Err::<Option<&TableOfContentsItem>, EpubError>(
                    EpubError::PathNotInTableOfContents,
                ))
            }),
    {
        let p = match self.position_of(href) {
            Some(p) => p,
            None => {
                return Err(EpubError::PathNotInTableOfContents);
            },
        };
        proof {
            assert(self.items.deep_view()[0] == self.items@[0].deep_view());
            assert(self.items.deep_view()[p as int] == self.items@[p as int].deep_view());
        }
        if self.items[0].eq(&self.items[p]) {
            Ok(None)
        } else {
            assert(p > 0);
            Ok(Some(&self.items[p - 1]))
        }
    }

    /// The entry one past the one whose path equals `href`: `Ok(None)` at
    /// the last entry, and an error when no entry carries that path at
    /// all — an internally inconsistent state, not a boundary.
    pub fn next_relative(&self, href: &str) -> (r: Result<
        Option<&TableOfContentsItem>,
        EpubError,
    >)
        ensures
            ({
                let outcome = next_of(self.items.deep_view(), href@);
                &&& (r is Ok <==> outcome is Some)
                &&& (r matches Ok(opt) ==> outcome matches Some(inner) && (opt is Some <==> inner
                    is Some) && (opt matches Some(item) ==> inner matches Some(j) && 0 <= j
                    < self.items@.len() && *item == self.items@[j]))
                &&& (r is Err ==> r == Err::<Option<&TableOfContentsItem>, EpubError>(
                    EpubError::PathNotInTableOfContents,
                ))
            }),
    {
        let p = match self.position_of(href) {
            Some(p) => p,
            None => {
                return Err(EpubError::PathNotInTableOfContents);
            },
        };
        let last = self.items.len() - 1;
        proof {
            assert(self.items.deep_view()[last as int] == self.items@[last as int].deep_view());
            assert(self.items.deep_view()[p as int] == self.items@[p as int].deep_view());
        }
        if self.items[last].eq(&self.items[p]) {
            Ok(None)
        } else {
            assert(p < last);
            Ok(Some(&self.items[p + 1]))
        }
    }
}

} // verus!

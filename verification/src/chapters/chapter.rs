//! One chapter of a book: its identity in the table of contents, its raw
//! markup, and the tree reconstructed from that markup.

use vstd::prelude::*;
use vstd::string::StringExecFns;

use crate::chapters::chapter_node::{node_wf, ChapterNode, ChapterNodeModel, ChapterStructure};
use crate::strings::{str_eq, strip_soft_hyphens, without_soft_hyphens, words_of};
use crate::table_of_contents::table_of_contents_item::TableOfContentsItem;
use crate::xml::{last_attr, xml_events, xml_events_of, XmlAttr, XmlEvent};
use crate::EpubError;

verus! {

/// One chapter.  Equality is by path and label alone: the raw text and
/// the reconstructed tree never take part.
#[derive(Debug, Clone)]
pub struct Chapter {
    pub path: String,
    pub label: String,
    /// The arena holding the reconstructed tree.
    pub recreated_structure: ChapterStructure,
    /// The arena position the reconstruction ended on: the synthetic root
    /// for balanced markup, an inner node where opens outnumber closes.
    pub root: usize,
    pub raw_content: String,
}

impl PartialEq for Chapter {
    /// Chapters are equal when their path and label are; differing
    /// content does not make two chapters differ.
    fn eq(&self, other: &Self) -> (r: bool) {
        self.path.eq(&other.path) && self.label.eq(&other.label)
    }
}

impl vstd::std_specs::cmp::PartialEqSpecImpl for Chapter {
    open spec fn obeys_eq_spec() -> bool {
        true
    }

    open spec fn eq_spec(&self, other: &Chapter) -> bool {
        self.path@ == other.path@ && self.label@ == other.label@
    }
}

/// The CSS classes of a start tag: its last `class` attribute split on
/// whitespace, or nothing.
pub open spec fn class_list_of(attrs: Seq<XmlAttr>) -> Seq<Seq<char>> {
    match last_attr(attrs, "class"@) {
        Some(v) => words_of(v),
        None => Seq::empty(),
    }
}

/// The synthetic root every reconstruction starts from.
pub open spec fn root_node_model() -> ChapterNodeModel {
    ChapterNodeModel {
        tag: "root"@,
        classes: Seq::empty(),
        content: Seq::empty(),
        parent: None,
        children: Seq::empty(),
    }
}

/// A start tag grows the arena: the new node goes to the end, under the
/// cursor node, carrying the tag name and its classes.
pub open spec fn open_step(
    nodes: Seq<ChapterNodeModel>,
    cursor: usize,
    name: Seq<char>,
    attrs: Seq<XmlAttr>,
) -> Seq<ChapterNodeModel> {
    let idx = nodes.len() as usize;
    nodes.update(
        cursor as int,
        ChapterNodeModel {
            children: nodes[cursor as int].children.push(idx),
            ..nodes[cursor as int]
        },
    ).push(
        ChapterNodeModel {
            tag: name,
            classes: class_list_of(attrs),
            content: Seq::empty(),
            parent: Some(cursor),
            children: Seq::empty(),
        },
    )
}

/// A text event appends to the cursor node, soft hyphens removed.
pub open spec fn text_step(
    nodes: Seq<ChapterNodeModel>,
    cursor: usize,
    text: Seq<char>,
) -> Seq<ChapterNodeModel> {
    nodes.update(
        cursor as int,
        ChapterNodeModel {
            content: nodes[cursor as int].content + without_soft_hyphens(text),
            ..nodes[cursor as int]
        },
    )
}

/// Folds the events over the arena and the cursor.  A start tag descends
/// into a new child; an end tag climbs to the parent, and climbing off
/// the root means unbalanced markup, which poisons the whole result.
/// Self-closing tags contribute nothing.
pub open spec fn chapter_fold(
    events: Seq<XmlEvent>,
    nodes: Seq<ChapterNodeModel>,
    cursor: usize,
) -> Option<(Seq<ChapterNodeModel>, usize)>
    decreases events.len(),
{
    if events.len() == 0 {
        Some((nodes, cursor))
    } else {
        let rest = events.drop_first();
        match events.first() {
            XmlEvent::Open { name, attrs } => chapter_fold(
                rest,
                open_step(nodes, cursor, name@, attrs@),
                nodes.len() as usize,
            ),
            XmlEvent::EmptyTag { name, attrs } => chapter_fold(rest, nodes, cursor),
            XmlEvent::Text { text } => chapter_fold(rest, text_step(nodes, cursor, text@), cursor),
            XmlEvent::Close => match nodes[cursor as int].parent {
                Some(p) => chapter_fold(rest, nodes, p),
                None => None,
            },
        }
    }
}

/// What reconstruction yields on a whole event stream: the arena and the
/// position the cursor ended on, or nothing for unbalanced markup.
pub open spec fn chapter_structure_of(events: Seq<XmlEvent>) -> Option<
    (Seq<ChapterNodeModel>, usize),
> {
    chapter_fold(events, seq![root_node_model()], 0)
}

/// Whether a piece of text is free of soft hyphens.
pub open spec fn shy_free(s: Seq<char>) -> bool {
    forall|j: int| 0 <= j < s.len() ==> !crate::strings::is_soft_hyphen(#[trigger] s[j])
}

/// Whether every node's gathered text is free of soft hyphens.
pub open spec fn contents_clean(nodes: Seq<ChapterNodeModel>) -> bool {
    forall|i: int| 0 <= i < nodes.len() ==> shy_free(#[trigger] nodes[i].content)
}

/// Stripped text is free of soft hyphens.
proof fn lemma_stripped_shy_free(s: Seq<char>)
    ensures
        shy_free(crate::strings::without_soft_hyphens(s)),
{
    crate::strings::lemma_without_soft_hyphens_clean(s);
}

/// Appending shy-free text to shy-free text stays shy-free.
proof fn lemma_shy_free_concat(a: Seq<char>, b: Seq<char>)
    requires
        shy_free(a),
        shy_free(b),
    ensures
        shy_free(a + b),
{
    assert forall|j: int| 0 <= j < (a + b).len() implies !crate::strings::is_soft_hyphen(
        #[trigger] (a + b)[j],
    ) by {
        if j < a.len() {
            assert((a + b)[j] == a[j]);
        } else {
            assert((a + b)[j] == b[j - a.len()]);
        }
    }
}

/// Whether every parent link points strictly backwards; enough to keep
/// the fold's cursor in bounds.
pub open spec fn parents_before(nodes: Seq<ChapterNodeModel>) -> bool {
    forall|i: int|
        0 <= i < nodes.len() ==> (#[trigger] nodes[i].parent matches Some(p) ==> p < i)
}

/// The fold keeps every node's text shy-free: a new node starts empty, a
/// text event appends stripped text only, and nothing else touches text.
proof fn lemma_chapter_fold_clean(
    events: Seq<XmlEvent>,
    nodes: Seq<ChapterNodeModel>,
    cursor: usize,
)
    requires
        contents_clean(nodes),
        parents_before(nodes),
        (cursor as int) < nodes.len(),
    ensures
        chapter_fold(events, nodes, cursor) matches Some(p) ==> contents_clean(p.0),
    decreases events.len(),
{
    if events.len() != 0 {
        let rest = events.drop_first();
        match events.first() {
            XmlEvent::Open { name, attrs } => {
                let stepped = open_step(nodes, cursor, name@, attrs@);
                assert forall|i: int| 0 <= i < stepped.len() implies shy_free(
                    #[trigger] stepped[i].content,
                ) by {
                    if i < nodes.len() {
                        assert(stepped[i].content == nodes[i].content);
                    } else {
                        assert(stepped[i].content == Seq::<char>::empty());
                    }
                }
                assert forall|i: int|
                    0 <= i < stepped.len() implies (#[trigger] stepped[i].parent matches Some(
                    p,
                ) ==> p < i) by {
                    if i < nodes.len() {
                        assert(stepped[i].parent == nodes[i].parent);
                    } else {
                        assert(stepped[i].parent == Some(cursor));
                    }
                }
                lemma_chapter_fold_clean(rest, stepped, nodes.len() as usize);
            },
            XmlEvent::EmptyTag { .. } => {
                lemma_chapter_fold_clean(rest, nodes, cursor);
            },
            XmlEvent::Text { text } => {
                let stepped = text_step(nodes, cursor, text@);
                lemma_stripped_shy_free(text@);
                assert forall|i: int| 0 <= i < stepped.len() implies shy_free(
                    #[trigger] stepped[i].content,
                ) by {
                    if i == cursor as int {
                        lemma_shy_free_concat(
                            nodes[i].content,
                            crate::strings::without_soft_hyphens(text@),
                        );
                    } else {
                        assert(stepped[i].content == nodes[i].content);
                    }
                }
                assert forall|i: int|
                    0 <= i < stepped.len() implies (#[trigger] stepped[i].parent matches Some(
                    p,
                ) ==> p < i) by {
                    assert(stepped[i].parent == nodes[i].parent);
                }
                lemma_chapter_fold_clean(rest, stepped, cursor);
            },
            XmlEvent::Close => {
                match nodes[cursor as int].parent {
                    Some(p) => {
                        lemma_chapter_fold_clean(rest, nodes, p);
                    },
                    None => {},
                }
            },
        }
    }
}

/// Law: soft-hyphen stripping.  Whatever chapter markup is reconstructed,
/// no node of the resulting tree holds a single U+00AD character in its
/// text: every text event is stripped before it is gathered.
pub proof fn lemma_no_soft_hyphens(events: Seq<XmlEvent>)
    ensures
        chapter_structure_of(events) matches Some(p) ==> contents_clean(p.0),
{
    let start = seq![root_node_model()];
    assert forall|i: int| 0 <= i < start.len() implies shy_free(#[trigger] start[i].content) by {
        assert(start[i].content == Seq::<char>::empty());
    }
    assert(parents_before(start));
    lemma_chapter_fold_clean(events, start, 0);
}

/// The first node tagged `body` among these positions, scanned in order.
pub open spec fn first_body_in(nodes: Seq<ChapterNodeModel>, kids: Seq<usize>) -> Option<usize>
    decreases kids.len(),
{
    if kids.len() == 0 {
        None
    } else if nodes[kids.first() as int].tag == "body"@ {
        Some(kids.first())
    } else {
        first_body_in(nodes, kids.drop_first())
    }
}

/// The body node reachable from these children: each child is tried
/// first, then its own children, before moving to the next child.
pub open spec fn body_search(nodes: Seq<ChapterNodeModel>, kids: Seq<usize>) -> Option<usize>
    decreases kids.len(),
{
    if kids.len() == 0 {
        None
    } else {
        let c = kids.first();
        if nodes[c as int].tag == "body"@ {
            Some(c)
        } else {
            match first_body_in(nodes, nodes[c as int].children) {
                Some(g) => Some(g),
                None => body_search(nodes, kids.drop_first()),
            }
        }
    }
}

/// Where the `body` element of a reconstructed chapter stands: among the
/// root's children and their children, two levels and no deeper.
pub open spec fn body_of(nodes: Seq<ChapterNodeModel>, root: usize) -> Option<usize> {
    body_search(nodes, nodes[root as int].children)
}

impl Chapter {
    /// Whether this chapter's tree is well formed and its root position
    /// in bounds; everything that builds a chapter establishes this.
    pub open spec fn wf(self) -> bool {
        self.recreated_structure.wf() && self.root < self.recreated_structure.model().len()
    }

    /// Streams one chapter's markup into an owned tree.  Start tags open
    /// children under a moving cursor, text accumulates on the cursor
    /// node with soft hyphens stripped and surrounding whitespace kept,
    /// and end tags climb back up.  An end tag at the synthetic root is
    /// unbalanced markup and fails; leftover open tags leave the cursor
    /// on the innermost node, which is what the pair's position returns.
    pub fn recreate_structure(chapter_content: &str) -> (r: Result<
        (ChapterStructure, usize),
        EpubError,
    >)
        ensures
            ({
                let outcome = chapter_structure_of(xml_events_of(chapter_content@, false));
                &&& (r is Ok <==> outcome is Some)
                &&& (r matches Ok(sr) ==> outcome == Some((sr.0.model(), sr.1)) && sr.0.wf()
                    && sr.1 < sr.0.model().len())
                &&& (r is Err ==> r == Err::<(ChapterStructure, usize), EpubError>(
                    EpubError::UnbalancedMarkup,
                ))
            }),
    {
        let events = xml_events(chapter_content, false);
        let ghost all: Seq<XmlEvent> = events@;
        let mut st = ChapterStructure::with_root(
            ChapterNode::new(String::from_str("root"), Vec::new(), String::new()),
        );
        let mut cursor: usize = 0;
        let mut i: usize = 0;
        proof {
            assert(all.skip(0) =~= all);
            assert(st.model() =~~= seq![root_node_model()]);
        }
        while i < events.len()
            invariant
                i <= events.len(),
                events@ == all,
                all == xml_events_of(chapter_content@, false),
                st.wf(),
                cursor < st.nodes@.len(),
                chapter_structure_of(all) == chapter_fold(
                    all.skip(i as int),
                    st.model(),
                    cursor,
                ),
            decreases events.len() - i,
        {
            proof {
                assert(all.skip(i as int).first() == all[i as int]);
                assert(all.skip(i as int).drop_first() =~= all.skip(i + 1));
            }
            match &events[i] {
                XmlEvent::Open { name, attrs } => {
                    let classes = match crate::xml::find_last_attr(attrs, "class") {
                        Some(v) => crate::strings::split_whitespace_words(v.as_str()),
                        None => Vec::new(),
                    };
                    proof {
                        assert(classes.deep_view() =~~= class_list_of(attrs@));
                    }
                    let ghost pre = st.model();
                    let node = ChapterNode::new(name.clone(), classes, String::new());
                    let idx = st.add_child(cursor, node);
                    proof {
                        assert(st.model() =~= open_step(pre, cursor, name@, attrs@));
                    }
                    cursor = idx;
                },
                XmlEvent::EmptyTag { .. } => {},
                XmlEvent::Text { text } => {
                    let ghost pre = st.model();
                    let stripped = strip_soft_hyphens(text.as_str());
                    st.append_to_content(cursor, stripped.as_str());
                    proof {
                        assert(st.model() =~= text_step(pre, cursor, text@));
                    }
                },
                XmlEvent::Close => {
                    proof {
                        assert(node_wf(st.model(), cursor as int));
                    }
                    match st.node(cursor).get_parent() {
                        Some(p) => {
                            cursor = p;
                        },
                        None => {
                            return Err(EpubError::UnbalancedMarkup);
                        },
                    }
                },
            }
            i = i + 1;
        }
        proof {
            assert(all.skip(all.len() as int) =~= Seq::<XmlEvent>::empty());
        }
        Ok((st, cursor))
    }

    /// Builds a chapter from a navigation entry whose raw text is already
    /// in hand.
    pub fn from_item_with_content(item: TableOfContentsItem, content: String) -> (r: Result<
        Chapter,
        EpubError,
    >)
        ensures
            ({
                let outcome = chapter_structure_of(xml_events_of(content@, false));
                &&& (r is Ok <==> outcome is Some)
                &&& (r matches Ok(c) ==> c.path@ == item.path@ && c.label@ == item.label@
                    && c.raw_content@ == content@ && outcome == Some(
                    (c.recreated_structure.model(), c.root),
                ) && c.wf())
                &&& (r is Err ==> r == Err::<Chapter, EpubError>(EpubError::UnbalancedMarkup))
            }),
    {
        match Chapter::recreate_structure(content.as_str()) {
            Ok((structure, root)) => Ok(
                Chapter {
                    path: item.path,
                    label: item.label,
                    recreated_structure: structure,
                    root,
                    raw_content: content,
                },
            ),
            Err(e) => Err(e),
        }
    }

    /// Builds a chapter from a navigation entry by fetching its raw text
    /// from the book's archive and reconstructing the tree.
    pub fn from_item(item: TableOfContentsItem, ebook: &mut crate::epub::EBook) -> (r: Result<
        Chapter,
        EpubError,
    >)
        ensures
            final(ebook).entries() == old(ebook).entries(),
            final(ebook).entry_names() == old(ebook).entry_names(),
            final(ebook).metadata == old(ebook).metadata,
            final(ebook).path == old(ebook).path,
            final(ebook).spine == old(ebook).spine,
            final(ebook).manifest == old(ebook).manifest,
            final(ebook).table_of_contents == old(ebook).table_of_contents,
            final(ebook).content_dir == old(ebook).content_dir,
            ({
                let entries = old(ebook).entries();
                let names = old(ebook).entry_names();
                &&& (entries.dom().contains(item.path@) ==> ({
                    let outcome = chapter_structure_of(
                        xml_events_of(entries[item.path@], false),
                    );
                    &&& (r is Ok <==> outcome is Some)
                    &&& (r matches Ok(c) ==> c.path@ == item.path@ && c.label@ == item.label@
                        && c.raw_content@ == entries[item.path@] && outcome == Some(
                        (c.recreated_structure.model(), c.root),
                    ) && c.wf())
                    &&& (outcome is None ==> r == Err::<Chapter, EpubError>(
                        EpubError::UnbalancedMarkup,
                    ))
                }))
                &&& (!names.contains(item.path@) ==> r == Err::<Chapter, EpubError>(
                    EpubError::EntryNotFound,
                ))
                &&& (names.contains(item.path@) && !entries.dom().contains(item.path@) ==> r
                    == Err::<Chapter, EpubError>(EpubError::Utf8DecodeError))
            }),
    {
        let content = match ebook.get_content_by_toc_item(&item) {
            Ok(c) => c,
            Err(e) => {
                return Err(e);
            },
        };
        Chapter::from_item_with_content(item, content)
    }

    /// Decides [`Chapter::wf`] at run time, so that callers outside the
    /// proofs can test it before asking for the body.
    pub fn is_well_formed(&self) -> (r: bool)
        ensures
            r == self.wf(),
    {
        self.root < self.recreated_structure.len() && self.recreated_structure.is_well_formed()
    }

    /// Finds the `body` element: the root's children are searched first,
    /// each followed by its own children, so a body nested one level
    /// under an `<html>` wrapper is still found; anything deeper is not.
    pub fn get_body(&self) -> (r: Option<usize>)
        requires
            self.wf(),
        ensures
            r == body_of(self.recreated_structure.model(), self.root),
    {
        let st = &self.recreated_structure;
        let ghost nodes = st.model();
        let kids = st.node(self.root).get_children();
        let mut ci: usize = 0;
        proof {
            assert(kids@.skip(0) =~= kids@);
        }
        while ci < kids.len()
            invariant
                ci <= kids.len(),
                self.wf(),
                nodes == self.recreated_structure.model(),
                kids@ == nodes[self.root as int].children,
                body_of(nodes, self.root) == body_search(nodes, kids@.skip(ci as int)),
            decreases kids.len() - ci,
        {
            proof {
                assert(kids@.skip(ci as int).first() == kids@[ci as int]);
                assert(kids@.skip(ci as int).drop_first() =~= kids@.skip(ci + 1));
                assert(node_wf(nodes, self.root as int));
                assert(self.root < nodes[self.root as int].children[ci as int] < nodes.len());
            }
            let c = kids[ci];
            let st2 = &self.recreated_structure;
            if str_eq(st2.node(c).tag.as_str(), "body") {
                return Some(c);
            }
            let gkids = st2.node(c).get_children();
            let mut gi: usize = 0;
            proof {
                assert(gkids@.skip(0) =~= gkids@);
            }
            while gi < gkids.len()
                invariant
                    gi <= gkids.len(),
                    ci < kids.len(),
                    self.wf(),
                    nodes == self.recreated_structure.model(),
                    kids@ == nodes[self.root as int].children,
                    body_of(nodes, self.root) == body_search(nodes, kids@.skip(ci as int)),
                    c == kids@[ci as int],
                    0 <= c < nodes.len(),
                    nodes[c as int].tag != "body"@,
                    gkids@ == nodes[c as int].children,
                    first_body_in(nodes, gkids@) == first_body_in(
                        nodes,
                        gkids@.skip(gi as int),
                    ),
                decreases gkids.len() - gi,
            {
                proof {
                    assert(gkids@.skip(gi as int).first() == gkids@[gi as int]);
                    assert(gkids@.skip(gi as int).drop_first() =~= gkids@.skip(gi + 1));
                    assert(node_wf(nodes, c as int));
                    assert((c as int) < nodes[c as int].children[gi as int] < nodes.len());
                }
                let g = gkids[gi];
                let st3 = &self.recreated_structure;
                if str_eq(st3.node(g).tag.as_str(), "body") {
                    proof {
                        assert(kids@.skip(ci as int).first() == kids@[ci as int]);
                        assert(body_search(nodes, kids@.skip(ci as int)) == Some(g));
                    }
                    return Some(g);
                }
                gi = gi + 1;
            }
            proof {
                assert(gkids@.skip(gkids@.len() as int) =~= Seq::<usize>::empty());
                assert(kids@.skip(ci as int).first() == kids@[ci as int]);
                assert(kids@.skip(ci as int).drop_first() =~= kids@.skip(ci + 1));
            }
            ci = ci + 1;
        }
        proof {
            assert(kids@.skip(kids@.len() as int) =~= Seq::<usize>::empty());
        }
        None
    }
}

} // verus!

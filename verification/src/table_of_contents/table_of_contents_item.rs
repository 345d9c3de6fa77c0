//! One navigation entry: a content-root-relative path, an optional
//! in-document anchor, and a display label.

use vstd::prelude::*;

use crate::strings::{
    chars_of, find_first_char, first_index_of, slash_joined, string_from_chars,
};
use crate::xml::{attr_or_empty, find_last_attr, XmlAttr};

verus! {

/// One table-of-contents entry.  `path` never holds a `#` fragment: the
/// constructor splits it off into `anchor`.  `content` is raw chapter text
/// supplied up front, normally `None`.
#[derive(Debug, Clone)]
pub struct TableOfContentsItem {
    pub path: String,
    pub anchor: Option<String>,
    pub label: String,
    pub content: Option<String>,
}

/// The mathematical value of a [`TableOfContentsItem`].
#[verifier::ext_equal]
pub struct TocItemModel {
    pub path: Seq<char>,
    pub anchor: Option<Seq<char>>,
    pub label: Seq<char>,
    pub content: Option<Seq<char>>,
}

impl DeepView for TableOfContentsItem {
    type V = TocItemModel;

    open spec fn deep_view(&self) -> TocItemModel {
        TocItemModel {
            path: self.path@,
            anchor: self.anchor.deep_view(),
            label: self.label@,
            content: self.content.deep_view(),
        }
    }
}

impl PartialEq for TableOfContentsItem {
    /// Navigation entries compare by path and label alone: neither the
    /// anchor nor any pre-supplied content takes part.  The next/previous
    /// lookups locate the current position by this equality.
    fn eq(&self, other: &Self) -> (r: bool) {
        self.path.eq(&other.path) && self.label.eq(&other.label)
    }
}

impl vstd::std_specs::cmp::PartialEqSpecImpl for TableOfContentsItem {
    open spec fn obeys_eq_spec() -> bool {
        true
    }

    open spec fn eq_spec(&self, other: &TableOfContentsItem) -> bool {
        self.path@ == other.path@ && self.label@ == other.label@
    }
}

/// The part of an href before its first `#`, or all of it.
pub open spec fn href_path(href: Seq<char>) -> Seq<char> {
    match first_index_of(href, '#') {
        Some(i) => href.take(i),
        None => href,
    }
}

/// The part of an href after its first `#`; an absent or empty fragment is
/// `None`, so `"x.xhtml#"` carries no anchor.
pub open spec fn href_anchor(href: Seq<char>) -> Option<Seq<char>> {
    match first_index_of(href, '#') {
        Some(i) => if i + 1 < href.len() {
            Some(href.skip(i + 1))
        } else {
            None
        },
        None => None,
    }
}

/// The entry built from a raw href: path and anchor split at the first
/// `#`, label and content carried through.
pub open spec fn toc_item_model(
    href: Seq<char>,
    label: Seq<char>,
    content: Option<Seq<char>>,
) -> TocItemModel {
    TocItemModel { path: href_path(href), anchor: href_anchor(href), label, content }
}

/// An element's href prefixed with the content root, `/`-joined: the raw
/// attribute value (last occurrence, empty if absent) behind the supplied
/// directory.
pub open spec fn item_href_of(attrs: Seq<XmlAttr>, key: Seq<char>, dir: Seq<char>) -> Seq<char> {
    slash_joined(dir, attr_or_empty(attrs, key))
}

impl TableOfContentsItem {
    /// Builds an entry from an href that may carry a `#fragment`: the path
    /// keeps what stands before the first `#`, the anchor takes what
    /// stands after it, and an empty fragment means no anchor at all.
    pub fn new(path: String, label: String, content: Option<String>) -> (r: Self)
        ensures
            r.deep_view() == toc_item_model(path@, label@, content.deep_view()),
    {
        let cs = chars_of(path.as_str());
        match find_first_char(&cs, '#') {
            Some(i) => {
                let cleaned = string_from_chars(&cs, 0, i);
                let anchor = if i + 1 < cs.len() {
                    Some(string_from_chars(&cs, i + 1, cs.len()))
                } else {
                    None
                };
                proof {
                    assert(cs@.subrange(0, i as int) =~= path@.take(i as int));
                    if i + 1 < cs.len() {
                        assert(cs@.subrange(i + 1, cs@.len() as int) =~= path@.skip(i + 1));
                    }
                }
                Self { path: cleaned, anchor, label, content }
            },
            None => Self { path, anchor: None, label, content },
        }
    }

    /// Reads the `src` attribute of an EPUB 2 `<content>` element and
    /// prefixes it with the content root.
    pub fn get_src_attribute_epub2(attrs: &Vec<XmlAttr>, content_dir: &str) -> (r: String)
        ensures
            r@ == item_href_of(attrs@, "src"@, content_dir@),
    {
        Self::create_path_from_attribute_and_content_dir(attrs, content_dir, "src")
    }

    /// Reads the `href` attribute of an EPUB 3 `<a>` element and prefixes
    /// it with the content root.
    pub fn get_href_attribute_epub3(attrs: &Vec<XmlAttr>, content_dir: &str) -> (r: String)
        ensures
            r@ == item_href_of(attrs@, "href"@, content_dir@),
    {
        Self::create_path_from_attribute_and_content_dir(attrs, content_dir, "href")
    }

    /// The shared worker of the two attribute readers: last occurrence of
    /// the attribute wins, a missing one reads as empty, and the content
    /// root is always joined in front with `/`.
    fn create_path_from_attribute_and_content_dir(
        attrs: &Vec<XmlAttr>,
        content_dir: &str,
        selector: &str,
    ) -> (r: String)
        ensures
            r@ == item_href_of(attrs@, selector@, content_dir@),
    {
        let href = match find_last_attr(attrs, selector) {
            Some(v) => v,
            None => String::new(),
        };
        crate::strings::slash_join(content_dir, href.as_str())
    }

    /// An owned copy with the same fields.
    pub fn duplicate(&self) -> (r: Self)
        ensures
            r.deep_view() == self.deep_view(),
    {
        let anchor = match &self.anchor {
            Some(a) => Some(a.clone()),
            None => None,
        };
        let content = match &self.content {
            Some(c) => Some(c.clone()),
            None => None,
        };
        Self { path: self.path.clone(), anchor, label: self.label.clone(), content }
    }
}

} // verus!

//! The manifest of a package document: every resource the book carries,
//! each with an id, a relative href and a media type.

use vstd::prelude::*;

use crate::seqs::{first_where, lemma_first_where_none, lemma_first_where_some};
use crate::strings::{contains_seq, contains_substr};
use crate::xml::{attr_or_empty, xml_events, xml_events_of, XmlAttr, XmlEvent};

verus! {

/// One manifest entry.  An attribute missing from the source element is
/// recorded as the empty string, not as an error.
#[derive(Debug, Clone)]
pub struct ManifestItem {
    pub id: String,
    pub href: String,
    pub media_type: String,
}

/// The mathematical value of a [`ManifestItem`].
#[verifier::ext_equal]
pub struct ManifestItemModel {
    pub id: Seq<char>,
    pub href: Seq<char>,
    pub media_type: Seq<char>,
}

impl DeepView for ManifestItem {
    type V = ManifestItemModel;

    open spec fn deep_view(&self) -> ManifestItemModel {
        ManifestItemModel { id: self.id@, href: self.href@, media_type: self.media_type@ }
    }
}

impl PartialEq for ManifestItem {
    /// Manifest items are equal when all three fields are.
    fn eq(&self, other: &Self) -> (r: bool) {
        self.id.eq(&other.id) && self.href.eq(&other.href) && self.media_type.eq(
            &other.media_type,
        )
    }
}

impl vstd::std_specs::cmp::PartialEqSpecImpl for ManifestItem {
    open spec fn obeys_eq_spec() -> bool {
        true
    }

    open spec fn eq_spec(&self, other: &ManifestItem) -> bool {
        self.deep_view() == other.deep_view()
    }
}

/// The list of manifest entries, in the order the package document gives
/// them.
pub struct BookManifest {
    pub items: Vec<ManifestItem>,
}

/// The manifest entry read off one `<item>` element's attributes.
pub open spec fn manifest_item_of(attrs: Seq<XmlAttr>) -> ManifestItemModel {
    ManifestItemModel {
        id: attr_or_empty(attrs, "id"@),
        href: attr_or_empty(attrs, "href"@),
        media_type: attr_or_empty(attrs, "media-type"@),
    }
}

/// Every `<item>` element of the stream, opened or self-closing, turned
/// into a manifest entry, in encounter order.
pub open spec fn manifest_items_of(events: Seq<XmlEvent>) -> Seq<ManifestItemModel>
    decreases events.len(),
{
    if events.len() == 0 {
        Seq::empty()
    } else {
        let rest = manifest_items_of(events.drop_first());
        match events.first() {
            XmlEvent::Open { name, attrs } => if name@ == "item"@ {
                seq![manifest_item_of(attrs@)] + rest
            } else {
                rest
            },
            XmlEvent::EmptyTag { name, attrs } => if name@ == "item"@ {
                seq![manifest_item_of(attrs@)] + rest
            } else {
                rest
            },
            _ => rest,
        }
    }
}

/// Whether `query` occurs in the entry's id or href.
pub open spec fn matches_query(item: ManifestItemModel, query: Seq<char>) -> bool {
    contains_seq(item.id, query) || contains_seq(item.href, query)
}

/// [`matches_query`] with the query fixed, for use as a search predicate.
pub open spec fn query_pred(query: Seq<char>) -> spec_fn(ManifestItemModel) -> bool {
    |it: ManifestItemModel| matches_query(it, query)
}

impl ManifestItem {
    /// An owned copy with the same fields.
    pub fn duplicate(&self) -> (r: ManifestItem)
        ensures
            r.deep_view() == self.deep_view(),
    {
        ManifestItem {
            id: self.id.clone(),
            href: self.href.clone(),
            media_type: self.media_type.clone(),
        }
    }
}

/// Reads one `<item>` element's attributes into a manifest entry.
fn manifest_entry_from_attrs(attrs: &Vec<XmlAttr>) -> (r: ManifestItem)
    ensures
        r.deep_view() == manifest_item_of(attrs@),
{
    let id = match crate::xml::find_last_attr(attrs, "id") {
        Some(v) => v,
        None => String::new(),
    };
    let href = match crate::xml::find_last_attr(attrs, "href") {
        Some(v) => v,
        None => String::new(),
    };
    let media_type = match crate::xml::find_last_attr(attrs, "media-type") {
        Some(v) => v,
        None => String::new(),
    };
    ManifestItem { id, href, media_type }
}

impl BookManifest {
    /// Streams the package document and collects every `<item>` element,
    /// preserving encounter order.
    pub fn from_opf(opf_content: &str) -> (m: BookManifest)
        ensures
            m.items.deep_view() == manifest_items_of(xml_events_of(opf_content@, true)),
    {
        let events = xml_events(opf_content, true);
        let ghost all: Seq<XmlEvent> = events@;
        let mut items: Vec<ManifestItem> = Vec::new();
        let mut i: usize = 0;
        proof {
            assert(all.skip(0) =~= all);
            assert(items.deep_view() + manifest_items_of(all) =~= manifest_items_of(all));
        }
        while i < events.len()
            invariant
                i <= events.len(),
                events@ == all,
                manifest_items_of(all) == items.deep_view() + manifest_items_of(
                    all.skip(i as int),
                ),
            decreases events.len() - i,
        {
            proof {
                assert(all.skip(i as int).first() == all[i as int]);
                assert(all.skip(i as int).drop_first() =~= all.skip(i + 1));
            }
            let ghost pre = items.deep_view();
            match &events[i] {
                XmlEvent::Open { name, attrs } => {
                    if crate::strings::str_eq(name.as_str(), "item") {
                        items.push(manifest_entry_from_attrs(attrs));
                    }
                },
                XmlEvent::EmptyTag { name, attrs } => {
                    if crate::strings::str_eq(name.as_str(), "item") {
                        items.push(manifest_entry_from_attrs(attrs));
                    }
                },
                _ => {},
            }
            proof {
                if items.deep_view() != pre {
                    assert(items.deep_view() =~= pre.push(items@.last().deep_view()));
                    assert(pre.push(items@.last().deep_view()) + manifest_items_of(
                        all.skip(i + 1),
                    ) =~= pre + (seq![items@.last().deep_view()] + manifest_items_of(
                        all.skip(i + 1),
                    )));
                }
            }
            i = i + 1;
        }
        proof {
            assert(all.skip(all.len() as int) =~= Seq::<XmlEvent>::empty());
            assert(items.deep_view() + Seq::<ManifestItemModel>::empty() =~= items.deep_view());
        }
        BookManifest { items }
    }

    /// Searches for an entry by part of its id or href and returns the
    /// first entry whose id or href contains `query` as a substring.
    pub fn search_for_item(&self, query: &str) -> (r: Option<&ManifestItem>)
        ensures
            ({
                let found = first_where(self.items.deep_view(), query_pred(query@));
                &&& (r is Some <==> found is Some)
                &&& (r matches Some(item) ==> found matches Some(i) && *item == self.items@[i])
            }),
    {
        let mut i: usize = 0;
        while i < self.items.len()
            invariant
                i <= self.items.len(),
                forall|j: int| 0 <= j < i ==> !query_pred(query@)(self.items.deep_view()[j]),
            decreases self.items.len() - i,
        {
            let item = &self.items[i];
            if contains_substr(item.id.as_str(), query) || contains_substr(
                item.href.as_str(),
                query,
            ) {
                proof {
                    assert(self.items.deep_view()[i as int] == self.items@[i as int].deep_view());
                    assert(matches_query(self.items.deep_view()[i as int], query@));
                    assert(query_pred(query@)(self.items.deep_view()[i as int]));
                    lemma_first_where_some(self.items.deep_view(), query_pred(query@), i as int);
                }
                return Some(item);
            }
            proof {
                assert(self.items.deep_view()[i as int] == self.items@[i as int].deep_view());
                assert(!query_pred(query@)(self.items.deep_view()[i as int]));
            }
            i = i + 1;
        }
        proof {
            lemma_first_where_none(self.items.deep_view(), query_pred(query@));
        }
        None
    }
}

} // verus!

//! The spine of a package document: the linear reading order, each entry
//! resolved against the manifest.

use vstd::prelude::*;

use crate::manifest::{BookManifest, ManifestItem, ManifestItemModel};
use crate::seqs::{first_where, lemma_first_where_none, lemma_first_where_props, lemma_first_where_some};
use crate::xml::{first_attr, xml_events, xml_events_of, XmlAttr, XmlEvent};
use crate::EpubError;

verus! {

/// One reading-order entry: the idref it was declared with and the
/// manifest entry that id resolves to.
#[derive(Debug, Clone)]
pub struct BookSpineItem {
    pub id: String,
    pub value: ManifestItem,
}

/// The mathematical value of a [`BookSpineItem`].
#[verifier::ext_equal]
pub struct SpineItemModel {
    pub id: Seq<char>,
    pub value: ManifestItemModel,
}

impl DeepView for BookSpineItem {
    type V = SpineItemModel;

    open spec fn deep_view(&self) -> SpineItemModel {
        SpineItemModel { id: self.id@, value: self.value.deep_view() }
    }
}

/// The reading order, exactly as the package document lists it.
#[derive(Debug)]
pub struct BookSpine {
    pub items: Vec<BookSpineItem>,
}

/// Whether a manifest entry carries exactly this id.
pub open spec fn id_pred(id: Seq<char>) -> spec_fn(ManifestItemModel) -> bool {
    |it: ManifestItemModel| it.id == id
}

/// Prepends already-built entries to the outcome of the rest of the fold;
/// a dangling reference further right poisons the whole result.
pub open spec fn with_spine_prefix(
    prefix: Seq<SpineItemModel>,
    rest: Option<Seq<SpineItemModel>>,
) -> Option<Seq<SpineItemModel>> {
    match rest {
        Some(r) => Some(prefix + r),
        None => None,
    }
}

/// Every `<itemref>` element resolved against the manifest, in order.  An
/// element without an `idref` attribute contributes nothing; an `idref`
/// that no manifest entry carries makes the whole spine `None` — a
/// dangling reference in the reading order.
pub open spec fn spine_items_of(
    events: Seq<XmlEvent>,
    manifest: Seq<ManifestItemModel>,
) -> Option<Seq<SpineItemModel>>
    decreases events.len(),
{
    if events.len() == 0 {
        Some(Seq::empty())
    } else {
        let rest = spine_items_of(events.drop_first(), manifest);
        match events.first() {
            XmlEvent::Open { name, attrs } => if name@ == "itemref"@ {
                spine_step(attrs@, manifest, rest)
            } else {
                rest
            },
            XmlEvent::EmptyTag { name, attrs } => if name@ == "itemref"@ {
                spine_step(attrs@, manifest, rest)
            } else {
                rest
            },
            _ => rest,
        }
    }
}

/// The contribution of one `<itemref>` element: its first `idref`
/// attribute resolved to the first manifest entry with that exact id.
pub open spec fn spine_step(
    attrs: Seq<XmlAttr>,
    manifest: Seq<ManifestItemModel>,
    rest: Option<Seq<SpineItemModel>>,
) -> Option<Seq<SpineItemModel>> {
    match first_attr(attrs, "idref"@) {
        Some(idref) => match first_where(manifest, id_pred(idref)) {
            Some(k) => with_spine_prefix(
                seq![SpineItemModel { id: idref, value: manifest[k] }],
                rest,
            ),
            None => None,
        },
        None => rest,
    }
}

/// Finds the first manifest entry whose id equals `id` exactly.
fn find_by_id<'a>(manifest: &'a BookManifest, id: &str) -> (r: Option<&'a ManifestItem>)
    ensures
        ({
            let found = first_where(manifest.items.deep_view(), id_pred(id@));
            &&& (r is Some <==> found is Some)
            &&& (r matches Some(item) ==> found matches Some(k) && *item == manifest.items@[k])
        }),
{
    let mut i: usize = 0;
    while i < manifest.items.len()
        invariant
            i <= manifest.items.len(),
            forall|j: int| 0 <= j < i ==> !id_pred(id@)(manifest.items.deep_view()[j]),
        decreases manifest.items.len() - i,
    {
        proof {
            assert(manifest.items.deep_view()[i as int] == manifest.items@[i as int].deep_view());
        }
        if crate::strings::str_eq(manifest.items[i].id.as_str(), id) {
            proof {
                assert(id_pred(id@)(manifest.items.deep_view()[i as int]));
                lemma_first_where_some(manifest.items.deep_view(), id_pred(id@), i as int);
            }
            return Some(&manifest.items[i]);
        }
        proof {
            assert(!id_pred(id@)(manifest.items.deep_view()[i as int]));
        }
        i = i + 1;
    }
    proof {
        lemma_first_where_none(manifest.items.deep_view(), id_pred(id@));
    }
    None
}

impl BookSpine {
    /// Streams the package document's `<itemref>` elements and resolves
    /// each against the manifest by exact id.  A reference to an id the
    /// manifest does not carry is reported as
    /// [`EpubError::DanglingSpineReference`].
    pub fn from_opf_and_manifest(opf_content: &str, manifest: &BookManifest) -> (r: Result<
        BookSpine,
        EpubError,
    >)
        ensures
            ({
                let outcome = spine_items_of(
                    xml_events_of(opf_content@, true),
                    manifest.items.deep_view(),
                );
                &&& (r is Ok <==> outcome is Some)
                &&& (r matches Ok(s) ==> outcome == Some(s.items.deep_view()))
                &&& (r is Err ==> r == Err::<BookSpine, EpubError>(
                    EpubError::DanglingSpineReference,
                ))
            }),
    {
        let events = xml_events(opf_content, true);
        let ghost all: Seq<XmlEvent> = events@;
        let ghost mani: Seq<ManifestItemModel> = manifest.items.deep_view();
        let mut items: Vec<BookSpineItem> = Vec::new();
        let mut i: usize = 0;
        proof {
            assert(all.skip(0) =~= all);
            match spine_items_of(all, mani) {
                Some(s0) => {
                    assert(items.deep_view() + s0 =~= s0);
                },
                None => {},
            }
        }
        while i < events.len()
            invariant
                i <= events.len(),
                events@ == all,
                all == xml_events_of(opf_content@, true),
                mani == manifest.items.deep_view(),
                spine_items_of(all, mani) == with_spine_prefix(
                    items.deep_view(),
                    spine_items_of(all.skip(i as int), mani),
                ),
            decreases events.len() - i,
        {
            proof {
                assert(all.skip(i as int).first() == all[i as int]);
                assert(all.skip(i as int).drop_first() =~= all.skip(i + 1));
            }
            let ghost pre = items.deep_view();
            match &events[i] {
                XmlEvent::Open { name, attrs } | XmlEvent::EmptyTag { name, attrs } => {
                    if crate::strings::str_eq(name.as_str(), "itemref") {
                        if let Some(idref) = crate::xml::find_first_attr(attrs, "idref") {
                            let ghost gidref: Seq<char> = idref@;
                            match find_by_id(manifest, idref.as_str()) {
                                Some(item) => {
                                    let value = item.duplicate();
                                    items.push(BookSpineItem { id: idref, value });
                                    proof {
                                        lemma_first_where_props(mani, id_pred(gidref));
                                        match first_where(mani, id_pred(gidref)) {
                                            Some(kk) => {
                                                assert(mani[kk] == manifest.items@[
                                                    kk
                                                ].deep_view());
                                                assert(items@.last().deep_view()
                                                    == SpineItemModel {
                                                    id: gidref,
                                                    value: mani[kk],
                                                });
                                            },
                                            None => {},
                                        }
                                        assert(items.deep_view() =~= pre.push(
                                            items@.last().deep_view(),
                                        ));
                                        match spine_items_of(all.skip(i + 1), mani) {
                                            Some(rs) => {
                                                assert(pre.push(items@.last().deep_view()) + rs
                                                    =~= pre + (seq![items@.last().deep_view()]
                                                    + rs));
                                            },
                                            None => {},
                                        }
                                    }
                                },
                                None => {
                                    proof {
                                        assert(spine_items_of(all.skip(i as int), mani) is None);
                                    }
                                    return Err(EpubError::DanglingSpineReference);
                                },
                            }
                        }
                    }
                },
                _ => {},
            }
            i = i + 1;
        }
        proof {
            assert(all.skip(all.len() as int) =~= Seq::<XmlEvent>::empty());
            assert(items.deep_view() + Seq::<SpineItemModel>::empty() =~= items.deep_view());
        }
        Ok(BookSpine { items })
    }
}

/// Law: the reading order joins back onto the manifest.  Whenever the
/// spine builds at all, every entry it holds carries the id of its
/// resolved manifest entry, and that manifest entry is one of the
/// manifest's own items.
pub proof fn lemma_spine_join_integrity(events: Seq<XmlEvent>, manifest: Seq<ManifestItemModel>)
    ensures
        spine_items_of(events, manifest) matches Some(s) ==> forall|k: int|
            0 <= k < s.len() ==> (#[trigger] s[k]).value.id == s[k].id && manifest.contains(
                s[k].value,
            ),
    decreases events.len(),
{
    if events.len() == 0 {
    } else {
        lemma_spine_join_integrity(events.drop_first(), manifest);
        let rest = spine_items_of(events.drop_first(), manifest);
        let cur = spine_items_of(events, manifest);
        if cur is Some && cur != rest {
            let attrs: Seq<XmlAttr> = match events.first() {
                XmlEvent::Open { name, attrs } => attrs@,
                XmlEvent::EmptyTag { name, attrs } => attrs@,
                _ => Seq::empty(),
            };
            match first_attr(attrs, "idref"@) {
                Some(idref) => {
                    match first_where(manifest, id_pred(idref)) {
                        Some(kk) => {
                            lemma_first_where_props(manifest, id_pred(idref));
                            let s = cur.unwrap();
                            let r = rest.unwrap();
                            assert forall|k: int|
                                0 <= k < s.len() implies (#[trigger] s[k]).value.id == s[k].id
                                && manifest.contains(s[k].value) by {
                                if k == 0 {
                                    assert(s[0] == SpineItemModel {
                                        id: idref,
                                        value: manifest[kk],
                                    });
                                } else {
                                    assert(s[k] == r[k - 1]);
                                }
                            }
                        },
                        None => {},
                    }
                },
                None => {},
            }
        }
    }
}

} // verus!

//! Descriptive fields of a book, read from the package document.

use vstd::prelude::*;

use crate::xml::{xml_events, xml_events_of, XmlEvent};
use crate::strings::str_eq;

verus! {

/// The six descriptive fields the engine extracts.  A field that does not
/// occur in the package document stays `None`, which callers can tell apart
/// from a present-but-empty value.
pub struct BookMetadata {
    pub title: Option<String>,
    pub creator: Option<String>,
    pub identifier: Option<String>,
    pub language: Option<String>,
    pub publisher: Option<String>,
    pub rights: Option<String>,
}

/// The mathematical value of a [`BookMetadata`].
#[verifier::ext_equal]
pub struct BookMetadataModel {
    pub title: Option<Seq<char>>,
    pub creator: Option<Seq<char>>,
    pub identifier: Option<Seq<char>>,
    pub language: Option<Seq<char>>,
    pub publisher: Option<Seq<char>>,
    pub rights: Option<Seq<char>>,
}

impl DeepView for BookMetadata {
    type V = BookMetadataModel;

    open spec fn deep_view(&self) -> BookMetadataModel {
        BookMetadataModel {
            title: self.title.deep_view(),
            creator: self.creator.deep_view(),
            identifier: self.identifier.deep_view(),
            language: self.language.deep_view(),
            publisher: self.publisher.deep_view(),
            rights: self.rights.deep_view(),
        }
    }
}

/// Metadata with every field absent.
pub open spec fn empty_metadata() -> BookMetadataModel {
    BookMetadataModel {
        title: None,
        creator: None,
        identifier: None,
        language: None,
        publisher: None,
        rights: None,
    }
}

/// One text event dispatched by the tag it appeared under: a recognised
/// Dublin Core tag overwrites its field, any other tag changes nothing.
pub open spec fn metadata_apply(
    m: BookMetadataModel,
    tag: Seq<char>,
    text: Seq<char>,
) -> BookMetadataModel {
    if tag == "dc:title"@ {
        BookMetadataModel { title: Some(text), ..m }
    } else if tag == "dc:creator"@ {
        BookMetadataModel { creator: Some(text), ..m }
    } else if tag == "dc:identifier"@ {
        BookMetadataModel { identifier: Some(text), ..m }
    } else if tag == "dc:language"@ {
        BookMetadataModel { language: Some(text), ..m }
    } else if tag == "dc:publisher"@ {
        BookMetadataModel { publisher: Some(text), ..m }
    } else if tag == "dc:rights"@ {
        BookMetadataModel { rights: Some(text), ..m }
    } else {
        m
    }
}

/// Folds the remaining events over the current-tag cursor `cur` and the
/// fields gathered so far.  An opening tag moves the cursor, text is
/// dispatched through [`metadata_apply`], a closing tag clears the cursor.
pub open spec fn metadata_from(
    events: Seq<XmlEvent>,
    cur: Seq<char>,
    m: BookMetadataModel,
) -> BookMetadataModel
    decreases events.len(),
{
    if events.len() == 0 {
        m
    } else {
        let rest = events.drop_first();
        match events.first() {
            XmlEvent::Open { name, attrs } => metadata_from(rest, name@, m),
            XmlEvent::EmptyTag { name, attrs } => metadata_from(rest, name@, m),
            XmlEvent::Text { text } => metadata_from(rest, cur, metadata_apply(m, cur, text@)),
            XmlEvent::Close => metadata_from(rest, Seq::empty(), m),
        }
    }
}

/// What metadata extraction yields on a whole event stream.
pub open spec fn metadata_of(events: Seq<XmlEvent>) -> BookMetadataModel {
    metadata_from(events, Seq::empty(), empty_metadata())
}

/// [`metadata_apply`], executably.
fn apply_text(m: BookMetadata, cur: &String, text: &String) -> (r: BookMetadata)
    ensures
        r.deep_view() == metadata_apply(m.deep_view(), cur@, text@),
{
    if str_eq(cur.as_str(), "dc:title") {
        BookMetadata { title: Some(text.clone()), ..m }
    } else if str_eq(cur.as_str(), "dc:creator") {
        BookMetadata { creator: Some(text.clone()), ..m }
    } else if str_eq(cur.as_str(), "dc:identifier") {
        BookMetadata { identifier: Some(text.clone()), ..m }
    } else if str_eq(cur.as_str(), "dc:language") {
        BookMetadata { language: Some(text.clone()), ..m }
    } else if str_eq(cur.as_str(), "dc:publisher") {
        BookMetadata { publisher: Some(text.clone()), ..m }
    } else if str_eq(cur.as_str(), "dc:rights") {
        BookMetadata { rights: Some(text.clone()), ..m }
    } else {
        m
    }
}

impl BookMetadata {
    /// Streams the package document and gathers the Dublin Core fields,
    /// last occurrence winning; unknown tags are ignored and missing
    /// fields stay `None`.
    pub fn from_opf(opf_content: &str) -> (m: BookMetadata)
        ensures
            m.deep_view() == metadata_of(xml_events_of(opf_content@, true)),
    {
        let events = xml_events(opf_content, true);
        let ghost all: Seq<XmlEvent> = events@;
        let mut m = BookMetadata {
            title: None,
            creator: None,
            identifier: None,
            language: None,
            publisher: None,
            rights: None,
        };
        let mut cur = String::new();
        let mut i: usize = 0;
        proof {
            assert(all.skip(0) =~= all);
        }
        while i < events.len()
            invariant
                i <= events.len(),
                events@ == all,
                metadata_of(all) == metadata_from(all.skip(i as int), cur@, m.deep_view()),
            decreases events.len() - i,
        {
            proof {
                assert(all.skip(i as int).first() == all[i as int]);
                assert(all.skip(i as int).drop_first() =~= all.skip(i + 1));
            }
            match &events[i] {
                XmlEvent::Open { name, .. } => {
                    cur = name.clone();
                },
                XmlEvent::EmptyTag { name, .. } => {
                    cur = name.clone();
                },
                XmlEvent::Text { text } => {
                    m = apply_text(m, &cur, text);
                },
                XmlEvent::Close => {
                    cur = String::new();
                },
            }
            i = i + 1;
        }
        m
    }
}

} // verus!

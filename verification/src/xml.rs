//! The engine's view of an XML document: a flat stream of plain events.
//!
//! quick_xml does the tokenizing; everything the engine learns about a
//! document it learns from the event vector that [`xml_events`] returns.
//! All parsing decisions over those events are made by verified code in
//! the other modules.

use vstd::prelude::*;

use quick_xml::events::Event as QEvent;

verus! {

/// One attribute of an element, with the raw (not entity-resolved) value,
/// which is how the engine reads hrefs and ids.
pub struct XmlAttr {
    pub key: String,
    pub value: String,
}

/// One event of an XML document stream.
pub enum XmlEvent {
    /// A start tag `<name ...>`.
    Open { name: String, attrs: Vec<XmlAttr> },
    /// A self-closing tag `<name ... />`.
    EmptyTag { name: String, attrs: Vec<XmlAttr> },
    /// Character data between tags, with entities resolved.
    Text { text: String },
    /// An end tag `</name>`.
    Close,
}

/// The event stream that quick_xml produces for `text`: a function of the
/// document text and the whitespace-trimming flag alone.
pub uninterp spec fn xml_events_of(text: Seq<char>, trim: bool) -> Seq<XmlEvent>;

#[verifier::external_type_specification]
#[verifier::external_body]
pub struct ExBytesStart<'a>(quick_xml::events::BytesStart<'a>);

#[verifier::external_type_specification]
#[verifier::external_body]
pub struct ExBytesText<'a>(quick_xml::events::BytesText<'a>);

/// Relies on quick_xml's `BytesStart::name`: the bytes of the tag name,
/// including any namespace prefix.
#[verifier::external_body]
fn tag_name_of(e: &quick_xml::events::BytesStart<'_>) -> String {
    String::from_utf8_lossy(e.name().as_ref()).into_owned()
}

/// Relies on quick_xml's `BytesStart::attributes`: each well-formed
/// attribute's key and raw value, in document order.
#[verifier::external_body]
fn attrs_of(e: &quick_xml::events::BytesStart<'_>) -> Vec<XmlAttr> {
    e.attributes()
        .flatten()
        .map(|a| XmlAttr {
            key: String::from_utf8_lossy(a.key.as_ref()).into_owned(),
            value: String::from_utf8_lossy(&a.value).into_owned(),
        })
        .collect()
}

/// Relies on quick_xml's `BytesText::unescape`: the text with XML entity
/// references resolved, or `None` for an unresolvable reference.
#[verifier::external_body]
fn text_of(t: &quick_xml::events::BytesText<'_>) -> Option<String> {
    match t.unescape() {
        Ok(c) => Some(c.into_owned()),
        Err(_) => None,
    }
}

/// Converts a quick_xml start tag into one event, open or self-closing.
#[verifier::external_body]
fn start_event(e: &quick_xml::events::BytesStart<'_>, self_closing: bool) -> XmlEvent {
    let name = tag_name_of(e);
    let attrs = attrs_of(e);
    if self_closing {
        XmlEvent::EmptyTag { name, attrs }
    } else {
        XmlEvent::Open { name, attrs }
    }
}

/// Relies on quick_xml's `Reader`: tokenizes the document into its start,
/// self-closing, text and end events.  With `trim` set, surrounding
/// whitespace is removed from text and whitespace-only text is dropped.
/// The stream ends at the end of the document or at the first parse fault.
#[verifier::external_body]
pub fn xml_events(text: &str, trim: bool) -> (r: Vec<XmlEvent>)
    ensures
        r@ == xml_events_of(text@, trim),
{
    let mut reader = quick_xml::Reader::from_str(text);
    reader.trim_text(trim);
    let mut r: Vec<XmlEvent> = Vec::new();
    loop {
        match reader.read_event() {
            Ok(QEvent::Start(e)) => r.push(start_event(&e, false)),
            Ok(QEvent::Empty(e)) => r.push(start_event(&e, true)),
            Ok(QEvent::Text(t)) => match text_of(&t) { Some(s) => r.push(XmlEvent::Text { text: s }), None => return r },
            Ok(QEvent::End(_)) => r.push(XmlEvent::Close),
            Ok(QEvent::Eof) | Err(_) => return r,
            Ok(_) => {}
        }
    }
}

/// The value of the last attribute named `key`, if any.  Readers that let a
/// repeated attribute overwrite an earlier one follow this function.
pub open spec fn last_attr(attrs: Seq<XmlAttr>, key: Seq<char>) -> Option<Seq<char>>
    decreases attrs.len(),
{
    if attrs.len() == 0 {
        None
    } else if attrs.last().key@ == key {
        Some(attrs.last().value@)
    } else {
        last_attr(attrs.drop_last(), key)
    }
}

/// The value of the first attribute named `key`, if any.  Readers that stop
/// at the first hit follow this function.
pub open spec fn first_attr(attrs: Seq<XmlAttr>, key: Seq<char>) -> Option<Seq<char>>
    decreases attrs.len(),
{
    if attrs.len() == 0 {
        None
    } else if attrs.first().key@ == key {
        Some(attrs.first().value@)
    } else {
        first_attr(attrs.drop_first(), key)
    }
}

/// The value of the attribute named `key`, or the empty string where the
/// element carries none; a repeated attribute is read last-one-wins.
pub open spec fn attr_or_empty(attrs: Seq<XmlAttr>, key: Seq<char>) -> Seq<char> {
    match last_attr(attrs, key) {
        Some(v) => v,
        None => Seq::empty(),
    }
}

/// Scans all attributes and keeps the value of the last one named `key`.
pub fn find_last_attr(attrs: &Vec<XmlAttr>, key: &str) -> (r: Option<String>)
    ensures
        r.deep_view() == last_attr(attrs@, key@),
{
    let mut r: Option<String> = None;
    let mut i: usize = 0;
    while i < attrs.len()
        invariant
            i <= attrs.len(),
            r.deep_view() == last_attr(attrs@.take(i as int), key@),
        decreases attrs.len() - i,
    {
        proof {
            assert(attrs@.take(i + 1).last() == attrs@[i as int]);
            assert(attrs@.take(i + 1).drop_last() =~= attrs@.take(i as int));
        }
        if crate::strings::str_eq(attrs[i].key.as_str(), key) {
            r = Some(attrs[i].value.clone());
        }
        i = i + 1;
    }
    proof {
        assert(attrs@.take(attrs@.len() as int) =~= attrs@);
    }
    r
}

/// Scans the attributes and returns the value of the first one named `key`.
pub fn find_first_attr(attrs: &Vec<XmlAttr>, key: &str) -> (r: Option<String>)
    ensures
        r.deep_view() == first_attr(attrs@, key@),
{
    let mut i: usize = 0;
    proof {
        assert(attrs@.skip(0) =~= attrs@);
    }
    while i < attrs.len()
        invariant
            i <= attrs.len(),
            first_attr(attrs@, key@) == first_attr(attrs@.skip(i as int), key@),
        decreases attrs.len() - i,
    {
        proof {
            assert(attrs@.skip(i as int).first() == attrs@[i as int]);
            assert(attrs@.skip(i as int).drop_first() =~= attrs@.skip(i + 1));
        }
        if crate::strings::str_eq(attrs[i].key.as_str(), key) {
            return Some(attrs[i].value.clone());
        }
        i = i + 1;
    }
    None
}

} // verus!

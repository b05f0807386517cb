//! The events of an XML document, read with `quick_xml`.
//!
//! The reader is kept as it is; what it delivers is handed on as plain text,
//! so that everything that is decided about an event is decided in verified
//! code.

use quick_xml::events::attributes::Attributes;
use quick_xml::events::Event;
use quick_xml::reader::Reader;
use vstd::prelude::*;

verus! {

// The reader of `quick_xml`, of which only `unread` is known.
#[verifier::external_type_specification]
#[verifier::external_body]
#[verifier::reject_recursive_types(R)]
pub struct ExReader<R>(Reader<R>);

/// One attribute of an element, key and value as they stand in the document.
#[derive(Debug, Clone, PartialEq, Eq)]
pub struct Attribute {
    pub key: String,
    pub value: String,
}

/// An attribute as contracts speak of it.
pub struct AttributeView {
    pub key: Seq<char>,
    pub value: Seq<char>,
}

impl View for Attribute {
    type V = AttributeView;

    open spec fn view(&self) -> AttributeView {
        AttributeView { key: self.key@, value: self.value@ }
    }
}

impl DeepView for Attribute {
    type V = AttributeView;

    open spec fn deep_view(&self) -> AttributeView {
        self@
    }
}

/// One event of a document.
///
/// `attributes` is the text of the tag behind the element's name, and
/// `content` is character data with its entity references still in place.
#[derive(Debug, Clone, PartialEq, Eq)]
pub enum XmlEvent {
    Start { name: String, attributes: String },
    Empty { name: String, attributes: String },
    End { name: String },
    Text { content: String },
    /// A comment, a declaration, a processing instruction and the like.
    Other,
    /// The document is not well-formed at this point.
    Malformed,
    /// The end of the document.
    Eof,
}

/// An event as contracts speak of it.
pub enum XmlEventView {
    Start { name: Seq<char>, attributes: Seq<char> },
    Empty { name: Seq<char>, attributes: Seq<char> },
    End { name: Seq<char> },
    Text { content: Seq<char> },
    Other,
    Malformed,
    Eof,
}

impl View for XmlEvent {
    type V = XmlEventView;

    open spec fn view(&self) -> XmlEventView {
        match self {
            XmlEvent::Start { name, attributes } => XmlEventView::Start {
                name: name@,
                attributes: attributes@,
            },
            XmlEvent::Empty { name, attributes } => XmlEventView::Empty {
                name: name@,
                attributes: attributes@,
            },
            XmlEvent::End { name } => XmlEventView::End { name: name@ },
            XmlEvent::Text { content } => XmlEventView::Text { content: content@ },
            XmlEvent::Other => XmlEventView::Other,
            XmlEvent::Malformed => XmlEventView::Malformed,
            XmlEvent::Eof => XmlEventView::Eof,
        }
    }
}

/// What looking for a key among the attributes of an element comes to.
pub enum Lookup {
    /// The value of the attribute that was found.
    Found(Seq<char>),
    /// No attribute has the key.
    Absent,
    /// A malformed attribute stands before any with the key.
    Malformed,
}

/// Whether a well-formed attribute of `list` has this key and this value.
pub open spec fn has_attribute(
    list: Seq<Option<AttributeView>>,
    key: Seq<char>,
    value: Seq<char>,
) -> bool {
    exists|i: int| 0 <= i < list.len() && list[i] == Some(AttributeView { key, value })
}

/// The value of the last well-formed attribute of `list` with this key.
pub open spec fn last_value(list: Seq<Option<AttributeView>>, key: Seq<char>) -> Option<Seq<char>>
    decreases list.len(),
{
    if list.len() == 0 {
        None
    } else {
        match list.last() {
            Some(a) if a.key == key => Some(a.value),
            _ => last_value(list.drop_last(), key),
        }
    }
}

/// The value of the first attribute of `list` with this key, where no
/// malformed attribute stands before it.
pub open spec fn first_value(list: Seq<Option<AttributeView>>, key: Seq<char>) -> Lookup
    decreases list.len(),
{
    if list.len() == 0 {
        Lookup::Absent
    } else {
        match list.first() {
            None => Lookup::Malformed,
            Some(a) => if a.key == key {
                Lookup::Found(a.value)
            } else {
                first_value(list.drop_first(), key)
            },
        }
    }
}

/// Whether an attribute that could be read has this key and this value.
pub fn has_pair(attributes: &Vec<Option<Attribute>>, key: &str, value: &str) -> (found: bool)
    ensures
        found == has_attribute(attributes.deep_view(), key@, value@),
{
    let mut i: usize = 0;
    while i < attributes.len()
        invariant
            i <= attributes.len(),
            forall|j: int|
                0 <= j < i ==> attributes.deep_view()[j] != Some(
                    AttributeView { key: key@, value: value@ },
                ),
        decreases attributes.len() - i,
    {
        match &attributes[i] {
            Some(a) => {
                if a.key.as_str().eq(key) && a.value.as_str().eq(value) {
                    assert(attributes.deep_view()[i as int] == Some(
                        AttributeView { key: key@, value: value@ },
                    ));
                    return true;
                }
            },
            None => {},
        }
        i += 1;
    }
    false
}

/// The value of the last attribute that could be read and has this key.
pub fn find_last(attributes: &Vec<Option<Attribute>>, key: &str) -> (value: Option<String>)
    ensures
        value.deep_view() == last_value(attributes.deep_view(), key@),
{
    let ghost list = attributes.deep_view();
    let mut i: usize = attributes.len();
    assert(list.take(i as int) == list);
    while i > 0
        invariant
            i <= attributes.len(),
            list == attributes.deep_view(),
            last_value(list, key@) == last_value(list.take(i as int), key@),
        decreases i,
    {
        i -= 1;
        assert(list.take(i + 1).drop_last() == list.take(i as int));
        match &attributes[i] {
            Some(a) => {
                if a.key.as_str().eq(key) {
                    return Some(a.value.clone());
                }
            },
            None => {},
        }
    }
    None
}

/// The value of the first attribute with this key, and whether a malformed
/// attribute was met on the way to it.
pub fn find_first(attributes: &Vec<Option<Attribute>>, key: &str) -> (value: Result<
    Option<String>,
    (),
>)
    ensures
        match first_value(attributes.deep_view(), key@) {
            Lookup::Found(v) => value matches Ok(Some(s)) && s@ == v,
            Lookup::Absent => value == Ok::<Option<String>, ()>(None),
            Lookup::Malformed => value is Err,
        },
{
    let ghost list = attributes.deep_view();
    let mut i: usize = 0;
    assert(list.skip(0) == list);
    while i < attributes.len()
        invariant
            i <= attributes.len(),
            list == attributes.deep_view(),
            first_value(list, key@) == first_value(list.skip(i as int), key@),
        decreases attributes.len() - i,
    {
        assert(list.skip(i as int).drop_first() == list.skip(i + 1));
        match &attributes[i] {
            Some(a) => {
                if a.key.as_str().eq(key) {
                    return Ok(Some(a.value.clone()));
                }
            },
            None => {
                return Err(());
            },
        }
        i += 1;
    }
    Ok(None)
}

/// The events that a reader over `document` delivers before the end of the
/// document, up to and including the first `Malformed` one.
pub uninterp spec fn document_events(document: Seq<char>) -> Seq<XmlEventView>;

/// The events that `reader` has yet to deliver before the end of its
/// document, up to and including the first `Malformed` one.
pub uninterp spec fn unread(reader: Reader<&[u8]>) -> Seq<XmlEventView>;

/// The attributes that `quick_xml` finds in the text of a tag, in the order
/// of the text; `None` stands for one that is malformed or repeats a key.
pub uninterp spec fn attribute_list(attributes: Seq<char>) -> Seq<Option<AttributeView>>;

/// Character data with its references resolved by `quick_xml`, or `None`
/// where one cannot be resolved: it names no entity that XML defines, has no
/// `;` behind it, or is a character reference that stands for no character.
pub uninterp spec fn unescaped(content: Seq<char>) -> Option<Seq<char>>;

/// `Reader::from_str`: a reader at the start of `document`. What it will
/// deliver depends on the document alone, and is only given its name here.
#[verifier::external_body]
pub(crate) fn open_reader<'a>(document: &'a str) -> (reader: Reader<&'a [u8]>)
    ensures
        unread(reader) == document_events(document@),
{
    Reader::from_str(document)
}

/// `Reader::read_event`: takes the next event off the reader, with the name
/// of an element, the text behind the name and character data as the reader
/// has them. At the end of the document the event is `Eof`, and stays so. An
/// error of the reader is handed on as `Malformed`, and nothing is said of
/// the reader after it.
#[verifier::external_body]
pub(crate) fn next_event(reader: &mut Reader<&[u8]>) -> (event: XmlEvent)
    ensures
        unread(*old(reader)).len() == 0 ==> event@ == XmlEventView::Eof && unread(*final(reader)).len()
            == 0,
        unread(*old(reader)).len() > 0 ==> event@ == unread(*old(reader))[0] && event@
            != XmlEventView::Eof,
        unread(*old(reader)).len() > 0 && event@ != XmlEventView::Malformed ==> unread(*final(reader))
            == unread(*old(reader)).drop_first(),
{
    let text = |bytes: &[u8]| String::from_utf8_lossy(bytes).into_owned();
    match reader.read_event() {
        Ok(Event::Start(e)) => XmlEvent::Start { name: text(e.name().0), attributes: text(e.attributes_raw()) },
        Ok(Event::Empty(e)) => XmlEvent::Empty { name: text(e.name().0), attributes: text(e.attributes_raw()) },
        Ok(Event::End(e)) => XmlEvent::End { name: text(e.name().0) },
        Ok(Event::Text(e)) => XmlEvent::Text { content: text(&e) },
        Ok(Event::Eof) => XmlEvent::Eof,
        Ok(_) => XmlEvent::Other,
        Err(_) => XmlEvent::Malformed,
    }
}

/// `Attributes::new` and the iterator it returns, run to its end: the
/// attributes in the text of a tag, with `None` for each item that is an
/// error. The list depends on the text alone, and is only given its name
/// here.
#[verifier::external_body]
pub(crate) fn parse_attributes(attributes: &str) -> (list: Vec<Option<Attribute>>)
    ensures
        list.deep_view() == attribute_list(attributes@),
{
    Attributes::new(attributes, 0).map(|a| a.ok().map(|a| Attribute {
        key: String::from_utf8_lossy(a.key.0).into_owned(),
        value: String::from_utf8_lossy(&a.value).into_owned(),
    })).collect()
}

/// `quick_xml::escape::unescape`: character data with its entity references
/// resolved, or `None` where it returns an error. The result depends on the
/// text alone, and is only given its name here.
#[verifier::external_body]
pub(crate) fn unescape(content: &str) -> (text: Option<String>)
    ensures
        text.deep_view() == unescaped(content@),
{
    quick_xml::escape::unescape(content).ok().map(|text| text.into_owned())
}

} // verus!

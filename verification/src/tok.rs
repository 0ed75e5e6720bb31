//! The trusted boundary around the XML tokenizer and the text primitives.
//!
//! Everything the parser learns about the outside world comes through the
//! items of this module: the pull tokenizer of the `quick_xml` crate, its
//! entity unescaping, and std's UTF-8 decoding and whitespace trimming.
//! Each wrapper's contract states what the called function's source shows;
//! the parser itself is verified against those contracts alone.

use vstd::prelude::*;

use quick_xml::events::BytesStart;
use quick_xml::events::Event as QXEvent;

verus! {

/// An element tag as the tokenizer hands it out: its name, and either its
/// attributes as key/value pairs or the tokenizer's complaint about them.
/// Attribute values stay raw bytes; they are decoded only where the parser
/// reads them, as their meaning depends on the attribute.
pub struct ElemTag {
    /// The element name.
    pub name: String,
    /// The attributes in document order, or the attribute error's message.
    pub attrs: Result<Vec<(String, Vec<u8>)>, String>,
}

/// One event of the pull tokenizer, as a plain value.
pub enum Event {
    /// A start tag `<tag ...>`.
    Start(ElemTag),
    /// A self-closing tag `<tag ... />`.
    Empty(ElemTag),
    /// An end tag `</tag>`.
    End(String),
    /// Character data between tags, still escaped.
    Text(Vec<u8>),
    /// A `<![CDATA[...]]>` section's raw content.
    CData(Vec<u8>),
    /// A comment, processing instruction, document type or XML declaration.
    Other,
    /// The end of the document.
    Eof,
    /// The tokenizer reported malformed XML; carries its message.
    Bad(String),
}

#[verifier::external_type_specification]
#[verifier::external_body]
#[verifier::reject_recursive_types(R)]
pub struct ExXmlReader<R>(quick_xml::Reader<R>);

#[verifier::external_type_specification]
#[verifier::external_body]
pub struct ExBytesStart<'a>(quick_xml::events::BytesStart<'a>);

/// The tokenizer cursor over one document's bytes.
pub struct Tokenizer<'a> {
    reader: quick_xml::Reader<&'a [u8]>,
}

/// Relies on `quick_xml::Reader::from_reader`: a pull tokenizer over the
/// given bytes, with the crate's default configuration (end-tag names
/// checked, no text trimming, empty elements kept).
#[verifier::external_body]
fn new_tokenizer<'a>(data: &'a [u8]) -> Tokenizer<'a> {
    Tokenizer { reader: quick_xml::Reader::from_reader(data) }
}

/// Relies on `BytesStart::attributes`: the tag's attributes in document
/// order with raw values, or the first attribute error's message. Keys are
/// decoded lossily; a key that is not UTF-8 can then never equal a
/// recognized attribute name.
#[verifier::external_body]
fn attr_pairs(e: &BytesStart<'_>) -> Result<Vec<(String, Vec<u8>)>, String> {
    let pair = |a: quick_xml::events::attributes::Attribute| {
        (String::from_utf8_lossy(a.key.as_ref()).into_owned(), a.value.into_owned())
    };
    e.attributes().map(|a| a.map(pair).map_err(|err| err.to_string())).collect()
}

/// Relies on `BytesStart::name`: the tag's name, decoded lossily; a name
/// that is not UTF-8 can then never equal a recognized element name.
#[verifier::external_body]
fn tag_of(e: &BytesStart<'_>) -> ElemTag {
    ElemTag { name: String::from_utf8_lossy(e.name().as_ref()).into_owned(), attrs: attr_pairs(e) }
}

/// Relies on `quick_xml::Reader::read_event_into`: the next event of the
/// document, converted to a plain value.
#[verifier::external_body]
fn next_event(t: &mut Tokenizer<'_>) -> Event {
    let mut buf: Vec<u8> = Vec::new();
    match t.reader.read_event_into(&mut buf) {
        Ok(QXEvent::Start(e)) => Event::Start(tag_of(&e)),
        Ok(QXEvent::Empty(e)) => Event::Empty(tag_of(&e)),
        Ok(QXEvent::End(e)) => Event::End(String::from_utf8_lossy(e.name().as_ref()).into_owned()),
        Ok(QXEvent::Text(e)) => Event::Text(e.to_vec()),
        Ok(QXEvent::CData(e)) => Event::CData(e.to_vec()),
        Ok(QXEvent::Eof) => Event::Eof,
        Ok(_) => Event::Other,
        Err(err) => Event::Bad(err.to_string()),
    }
}

/// The event sequence the tokenizer yields on the given document bytes, up
/// to and including the first end-of-document or error event. Reading from
/// a byte slice involves no state but the bytes, so this is a function of
/// the document alone.
pub uninterp spec fn events_of(data: Seq<u8>) -> Seq<Event>;

/// Relies on `quick_xml::Reader::read_event_into`, driven over the whole
/// document: the events of the given bytes, which [`events_of`] names.
/// Reading stops at the first end-of-document or error event, so the
/// parser never sees what would follow a tokenizer failure.
#[verifier::external_body]
pub fn tokenize(data: &[u8]) -> (evs: Vec<Event>)
    ensures
        evs@ == events_of(data@),
{
    let mut t = new_tokenizer(data);
    let mut out: Vec<Event> = Vec::new();
    loop {
        let ev = next_event(&mut t);
        let stop = matches!(ev, Event::Eof | Event::Bad(_));
        out.push(ev);
        if stop {
            return out;
        }
    }
}

/// What std's `str::from_utf8` returns on the given bytes: the decoded
/// characters, or nothing when the bytes are not valid UTF-8.
pub uninterp spec fn utf8_of(b: Seq<u8>) -> Option<Seq<char>>;

/// Relies on std's `str::from_utf8`: decodes the bytes as UTF-8, or
/// reports that they are not valid UTF-8. Bytes that are all ASCII are
/// valid UTF-8 and decode to the characters with the same codes.
#[verifier::external_body]
pub fn utf8_string(b: &[u8]) -> (r: Option<String>)
    ensures
        r is Some <==> utf8_of(b@) is Some,
        r is Some ==> r->0@ == utf8_of(b@)->0,
        (forall|k: int| 0 <= k < b@.len() ==> b@[k] < 128) ==> r is Some && r->0@ == Seq::new(
            b@.len(),
            |k: int| b@[k] as char,
        ),
{
    match std::str::from_utf8(b) {
        Ok(s) => Some(s.to_owned()),
        Err(_) => None,
    }
}

/// What `quick_xml::escape::unescape` returns on the given text: the text
/// with entity and character references resolved, or nothing when a
/// reference is malformed or unknown.
pub uninterp spec fn unescaped_of(s: Seq<char>) -> Option<Seq<char>>;

/// Relies on `quick_xml::escape::unescape`: resolves XML entity and
/// character references, or reports a malformed or unknown reference. A
/// string without an ampersand holds no reference and comes back as it is.
#[verifier::external_body]
pub fn unescape_str(s: &str) -> (r: Option<String>)
    ensures
        r is Some <==> unescaped_of(s@) is Some,
        r is Some ==> r->0@ == unescaped_of(s@)->0,
        (forall|k: int| 0 <= k < s@.len() ==> s@[k] != '&') ==> r is Some && r->0@ == s@,
{
    match quick_xml::escape::unescape(s) {
        Ok(c) => Some(c.into_owned()),
        Err(_) => None,
    }
}

/// Whether std's `char::is_whitespace` holds of the character: the Unicode
/// `White_Space` property, a fixed set of code points.
pub open spec fn is_unicode_ws(c: char) -> bool {
    ||| (0x09 <= c as u32 && c as u32 <= 0x0d)
    ||| c == ' '
    ||| c as u32 == 0x85
    ||| c as u32 == 0xa0
    ||| c as u32 == 0x1680
    ||| (0x2000 <= c as u32 && c as u32 <= 0x200a)
    ||| c as u32 == 0x2028
    ||| c as u32 == 0x2029
    ||| c as u32 == 0x202f
    ||| c as u32 == 0x205f
    ||| c as u32 == 0x3000
}

/// `s` without its leading whitespace.
pub open spec fn trim_front(s: Seq<char>) -> Seq<char>
    decreases s.len(),
{
    if s.len() > 0 && is_unicode_ws(s[0]) {
        trim_front(s.drop_first())
    } else {
        s
    }
}

/// `s` without its trailing whitespace.
pub open spec fn trim_back(s: Seq<char>) -> Seq<char>
    decreases s.len(),
{
    if s.len() > 0 && is_unicode_ws(s.last()) {
        trim_back(s.drop_last())
    } else {
        s
    }
}

/// `s` without its leading and trailing whitespace.
pub open spec fn trim_spec(s: Seq<char>) -> Seq<char> {
    trim_back(trim_front(s))
}

/// Relies on std's `str::trim`: removes leading and trailing whitespace,
/// whitespace being the Unicode `White_Space` property as
/// [`is_unicode_ws`] states it.
#[verifier::external_body]
pub fn trim_string(s: &str) -> (r: String)
    ensures
        r@ == trim_spec(s@),
{
    s.trim().to_owned()
}

} // verus!

//! Trusted boundary to the XML tokenizer, base64 and zlib.
//!
//! Everything here either declares an outside type or wraps one outside
//! call in a function whose contract Verus believes.  Each wrapper's doc
//! comment names the call relied on.  Event payloads cross the boundary as
//! plain byte vectors; all interpretation happens in verified code.
//!
//! The tokenizer runs over an owned in-memory buffer, so everything it
//! returns is a function of the document bytes alone; `xml_events_of`
//! names that event sequence, and `reader_events` names what is left of
//! it inside a reader value.

use vstd::prelude::*;
use quick_xml::events::Event;

verus! {

#[verifier::external_type_specification]
#[verifier::external_body]
#[verifier::reject_recursive_types(R)]
pub struct ExXmlReader<R>(quick_xml::Reader<R>);

#[verifier::external_type_specification]
#[verifier::external_body]
#[verifier::reject_recursive_types(T)]
pub struct ExCursor<T>(std::io::Cursor<T>);

/// One tokenizer event, reduced to plain values.  `content` of a tag is
/// the raw bytes between the angle brackets (name first, then attribute
/// text); `raw` of a text event is the escaped character data.
pub enum XmlEvent {
    StartTag { name: Vec<u8>, content: Vec<u8> },
    EmptyTag { name: Vec<u8>, content: Vec<u8> },
    EndTag { name: Vec<u8> },
    Text { raw: Vec<u8> },
    Eof,
    Other,
    ReadError { msg: String },
}

/// Why an attribute could not be extracted from a tag.
pub enum AttrFault {
    /// The tag's content is not valid UTF-8.
    Encoding,
    /// The attribute text does not parse.
    Syntax(String),
}

/// What the tokenizer yields over a document, before its end-of-stream:
/// a function of the bytes alone.
pub uninterp spec fn xml_events_of(data: Seq<u8>) -> Seq<XmlEvent>;

/// The events a reader value has not yet yielded.
pub uninterp spec fn reader_events(r: quick_xml::Reader<std::io::Cursor<Vec<u8>>>) -> Seq<XmlEvent>;

/// Relies on `quick_xml::Reader::from_reader` over an owned copy of the
/// document: the new reader has the document's whole event sequence ahead
/// of it.
#[verifier::external_body]
pub(crate) fn xml_reader_from(data: &[u8]) -> (r: quick_xml::Reader<std::io::Cursor<Vec<u8>>>)
    ensures
        reader_events(r) == xml_events_of(data@),
{
    quick_xml::Reader::from_reader(std::io::Cursor::new(data.to_vec()))
}

/// Relies on `quick_xml::Reader::read_event_into` for tokenizing; the
/// event is copied out as plain bytes, one enum arm per event kind.  The
/// reader yields its remaining events in order, then `Eof` forever; a
/// tag's name is a prefix of its content.
#[verifier::external_body]
pub(crate) fn read_xml_event(r: &mut quick_xml::Reader<std::io::Cursor<Vec<u8>>>) -> (e: XmlEvent)
    ensures
        reader_events(*old(r)).len() == 0 ==> e is Eof && reader_events(*final(r))
            == reader_events(*old(r)),
        reader_events(*old(r)).len() > 0 ==> e == reader_events(*old(r))[0] && reader_events(
            *final(r),
        ) == reader_events(*old(r)).drop_first(),
        e matches XmlEvent::StartTag { name, content } ==> name@.len() <= content@.len(),
        e matches XmlEvent::EmptyTag { name, content } ==> name@.len() <= content@.len(),
{
    let mut b: Vec<u8> = Vec::new();
    match r.read_event_into(&mut b) {
        Ok(Event::Start(t)) => XmlEvent::StartTag { name: t.name().into_inner().to_vec(), content: t.to_vec() },
        Ok(Event::Empty(t)) => XmlEvent::EmptyTag { name: t.name().into_inner().to_vec(), content: t.to_vec() },
        Ok(Event::End(t)) => XmlEvent::EndTag { name: t.to_vec() },
        Ok(Event::Text(t)) => XmlEvent::Text { raw: t.to_vec() },
        Ok(Event::Eof) => XmlEvent::Eof,
        Ok(_) => XmlEvent::Other,
        Err(e) => XmlEvent::ReadError { msg: format!("{}", e) },
    }
}

/// What attribute lookup yields on a tag's content: a function of the
/// content, the name length and the key alone.  `Err(true)` is an
/// encoding fault, `Err(false)` an attribute-syntax fault.
pub uninterp spec fn attr_of(content: Seq<u8>, name_len: int, key: Seq<char>) -> Result<
    Option<Seq<u8>>,
    bool,
>;

/// Relies on `quick_xml`'s attribute parser (`BytesStart::from_content`
/// plus `try_get_attribute`): the raw value of the named attribute, `None`
/// when absent; `Encoding` when the tag content is not UTF-8 (the parser
/// takes text), `Syntax` when the attribute text does not parse.
#[verifier::external_body]
pub(crate) fn tag_attribute(content: &Vec<u8>, name_len: usize, key: &str) -> (r: Result<
    Option<Vec<u8>>,
    AttrFault,
>)
    requires
        name_len <= content@.len(),
    ensures
        match r {
            Ok(Some(v)) => attr_of(content@, name_len as int, key@) == Ok::<Option<Seq<u8>>, bool>(
                Some(v@),
            ),
            Ok(None) => attr_of(content@, name_len as int, key@) == Ok::<Option<Seq<u8>>, bool>(
                None,
            ),
            Err(AttrFault::Encoding) => attr_of(content@, name_len as int, key@) == Err::<
                Option<Seq<u8>>,
                bool,
            >(true),
            Err(AttrFault::Syntax(_)) => attr_of(content@, name_len as int, key@) == Err::<
                Option<Seq<u8>>,
                bool,
            >(false),
        },
{
    let text = match core::str::from_utf8(content.as_slice()) {
        Ok(s) => s,
        Err(_) => {
            return Err(AttrFault::Encoding);
        },
    };
    let tag = quick_xml::events::BytesStart::from_content(text, name_len);
    match tag.try_get_attribute(key.as_bytes()) {
        Ok(Some(a)) => Ok(Some(a.value.to_vec())),
        Ok(None) => Ok(None),
        Err(e) => Err(AttrFault::Syntax(format!("{}", e))),
    }
}

/// What entity unescaping yields: a function of the bytes alone, failing
/// exactly on invalid UTF-8 or bad references.
pub uninterp spec fn unescaped_of(raw: Seq<u8>) -> Result<Seq<u8>, ()>;

/// Relies on `quick_xml::escape::unescape`: entity and character
/// references are resolved; failure on invalid UTF-8 or bad references.
#[verifier::external_body]
pub(crate) fn unescape_text(raw: &Vec<u8>) -> (r: Result<Vec<u8>, String>)
    ensures
        match r {
            Ok(v) => unescaped_of(raw@) == Ok::<Seq<u8>, ()>(v@),
            Err(_) => unescaped_of(raw@) is Err,
        },
{
    let s = match core::str::from_utf8(raw.as_slice()) {
        Ok(s) => s,
        Err(e) => {
            return Err(format!("{}", e));
        },
    };
    match quick_xml::escape::unescape(s) {
        Ok(c) => Ok(c.into_owned().into_bytes()),
        Err(e) => Err(format!("{}", e)),
    }
}

/// What base64 decoding yields: a function of the bytes alone, failing
/// exactly on input outside the alphabet or with bad padding.
pub uninterp spec fn b64_of(text: Seq<u8>) -> Result<Seq<u8>, ()>;

/// Relies on `base64::decode`: standard-alphabet decoding, `Err` on any
/// byte outside the alphabet or bad padding.
#[verifier::external_body]
pub(crate) fn decode_base64(text: &Vec<u8>) -> (r: Result<Vec<u8>, String>)
    ensures
        match r {
            Ok(v) => b64_of(text@) == Ok::<Seq<u8>, ()>(v@),
            Err(_) => b64_of(text@) is Err,
        },
{
    match base64::decode(text.as_slice()) {
        Ok(v) => Ok(v),
        Err(e) => Err(format!("{}", e)),
    }
}

/// What zlib inflation yields: a function of the bytes alone, failing
/// exactly on a corrupt stream.
pub uninterp spec fn inflate_of(data: Seq<u8>) -> Result<Seq<u8>, ()>;

/// Relies on `async_compression`'s `ZlibDecoder` (driven to completion by
/// `futures`' executor): the decompressed stream, `Err` on corrupt input.
#[verifier::external_body]
pub(crate) fn inflate(data: &Vec<u8>) -> (r: Result<Vec<u8>, String>)
    ensures
        match r {
            Ok(v) => inflate_of(data@) == Ok::<Seq<u8>, ()>(v@),
            Err(_) => inflate_of(data@) is Err,
        },
{
    let mut out: Vec<u8> = Vec::new();
    let mut dec = async_compression::futures::bufread::ZlibDecoder::new(data.as_slice());
    match futures::executor::block_on(futures::io::AsyncReadExt::read_to_end(&mut dec, &mut out)) {
        Ok(_) => Ok(out),
        Err(e) => Err(format!("{}", e)),
    }
}

/// Relies on `String::from_utf8`: succeeds exactly on valid UTF-8, giving
/// the decoded characters (vstd's own UTF-8 model states both).
#[verifier::external_body]
pub(crate) fn bytes_to_string(v: &Vec<u8>) -> (r: Result<String, ()>)
    ensures
        r is Ok <==> vstd::utf8::valid_utf8(v@),
        r matches Ok(s) ==> s@ == vstd::utf8::decode_utf8(v@),
{
    match std::string::String::from_utf8(v.clone()) {
        Ok(s) => Ok(s),
        Err(_) => Err(()),
    }
}

} // verus!

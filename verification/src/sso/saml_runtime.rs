//! SAML service-provider metadata, and the assertion consumer: decoding
//! the posted response, reading the assertion out of its XML, and checking
//! it before a session is issued.

use vstd::prelude::*;
use crate::sso::saml::{SamlAttribute, SamlConfig};
use crate::text::{chars_of, chars_eq, eq_str, owned, push_str, string_from_chars, trim_chars, trimmed};
use crate::validation::search::{parse_rfc3339, rfc3339_instant, UtcTimestamp};
use vstd::utf8::{encode_utf8, valid_utf8};
use base64::Engine;
use std::io::Read;
use quick_xml::events::Event;

verus! {

#[derive(Debug)]
pub struct SamlAcsRequest {
    pub saml_response: String,
    pub relay_state: Option<String>,
}

#[derive(Debug)]
pub struct SamlMetadataResponse {
    pub entity_id: String,
    pub acs_url: String,
    pub metadata_url: String,
    pub sp_metadata_xml: String,
}

#[derive(Debug)]
pub struct SamlAcsResponse {
    pub access_token: String,
    pub token_type: String,
    pub expires_in: u64,
    pub name_id: String,
    pub attributes: Vec<SamlAttribute>,
}


// ---------------------------------------------------------------------------
// Service-provider metadata
// ---------------------------------------------------------------------------

/// The metadata document: fixed text with the entity ID and the
/// assertion-consumer URL (and its logout URL) filled in.
pub open spec fn sp_metadata(entity_id: Seq<char>, acs_url: Seq<char>) -> Seq<char> {
    "<?xml version=\"1.0\" encoding=\"UTF-8\"?>\n<md:EntityDescriptor xmlns:md=\"urn:oasis:names:tc:SAML:2.0:metadata\"\n                         entityID=\""@
        + entity_id
        + "\"\n                         validUntil=\"2027-12-31T23:59:59Z\">\n  <md:SPSSODescriptor AuthnRequestsSigned=\"false\" WantAssertionsSigned=\"true\"\n                        protocolSupportEnumeration=\"urn:oasis:names:tc:SAML:2.0:protocol\">\n    <md:NameIDFormat>\n      <saml:NameIDFormat xmlns:saml=\"urn:oasis:names:tc:SAML:2.0:assertion\">\n        urn:oasis:names:tc:SAML:1.1:nameid-format:emailAddress\n      </saml:NameIDFormat>\n      <saml:NameIDFormat xmlns:saml=\"urn:oasis:names:tc:SAML:2.0:assertion\">\n        urn:oasis:names:tc:SAML:2.0:nameid-format:transient\n      </saml:NameIDFormat>\n    </md:NameIDFormat>\n    <md:AssertionConsumerService Binding=\"urn:oasis:names:tc:SAML:2.0:bindings:HTTP-POST\"\n                                 Location=\""@
        + acs_url
        + "\" />\n    <md:SingleLogoutService Binding=\"urn:oasis:names:tc:SAML:2.0:bindings:HTTP-REDIRECT\"\n                           Location=\""@
        + acs_url
        + "/logout\" />\n  </md:SPSSODescriptor>\n</md:EntityDescriptor>"@
}

pub fn generate_sp_metadata_xml(config: &SamlConfig) -> (r: String)
    ensures
        r@ == sp_metadata(config.entity_id@, config.acs_url@),
{
    let mut xml = owned(
        "<?xml version=\"1.0\" encoding=\"UTF-8\"?>\n<md:EntityDescriptor xmlns:md=\"urn:oasis:names:tc:SAML:2.0:metadata\"\n                         entityID=\"",
    );
    push_str(&mut xml, config.entity_id.as_str());
    push_str(
        &mut xml,
        "\"\n                         validUntil=\"2027-12-31T23:59:59Z\">\n  <md:SPSSODescriptor AuthnRequestsSigned=\"false\" WantAssertionsSigned=\"true\"\n                        protocolSupportEnumeration=\"urn:oasis:names:tc:SAML:2.0:protocol\">\n    <md:NameIDFormat>\n      <saml:NameIDFormat xmlns:saml=\"urn:oasis:names:tc:SAML:2.0:assertion\">\n        urn:oasis:names:tc:SAML:1.1:nameid-format:emailAddress\n      </saml:NameIDFormat>\n      <saml:NameIDFormat xmlns:saml=\"urn:oasis:names:tc:SAML:2.0:assertion\">\n        urn:oasis:names:tc:SAML:2.0:nameid-format:transient\n      </saml:NameIDFormat>\n    </md:NameIDFormat>\n    <md:AssertionConsumerService Binding=\"urn:oasis:names:tc:SAML:2.0:bindings:HTTP-POST\"\n                                 Location=\"",
    );
    push_str(&mut xml, config.acs_url.as_str());
    push_str(
        &mut xml,
        "\" />\n    <md:SingleLogoutService Binding=\"urn:oasis:names:tc:SAML:2.0:bindings:HTTP-REDIRECT\"\n                           Location=\"",
    );
    push_str(&mut xml, config.acs_url.as_str());
    push_str(&mut xml, "/logout\" />\n  </md:SPSSODescriptor>\n</md:EntityDescriptor>");
    xml
}

// ---------------------------------------------------------------------------
// Decoding the posted response
// ---------------------------------------------------------------------------

/// What the standard base64 engine of the `base64` crate decodes a text to,
/// or `None` where it refuses the text.
pub uninterp spec fn base64_decoded(s: Seq<char>) -> Option<Seq<u8>>;

/// The text that `flate2::read::DeflateDecoder` reads from the bytes, or
/// `None` where the stream is invalid or not UTF-8.
pub uninterp spec fn inflated_text(b: Seq<u8>) -> Option<Seq<char>>;

/// Decodes with `base64::engine::general_purpose::STANDARD`.  On failure
/// the error's text is returned; nothing is stated of that text.
#[verifier::external_body]
fn base64_decode(s: &str) -> (r: Result<Vec<u8>, String>)
    ensures
        match r {
            Ok(v) => base64_decoded(s@) == Some(v@),
            Err(_) => base64_decoded(s@) is None,
        },
{
    match base64::engine::general_purpose::STANDARD.decode(s) {
        Ok(v) => Ok(v),
        Err(e) => Err(e.to_string()),
    }
}

/// Inflates a raw DEFLATE stream with `flate2::read::DeflateDecoder` and
/// `read_to_string`.  On failure the error's text is returned; nothing is
/// stated of that text.
#[verifier::external_body]
fn inflate(data: &[u8]) -> (r: Result<String, String>)
    ensures
        match r {
            Ok(t) => inflated_text(data@) == Some(t@),
            Err(_) => inflated_text(data@) is None,
        },
{
    let mut decoder = flate2::read::DeflateDecoder::new(data);
    let mut text = String::new();
    match decoder.read_to_string(&mut text) {
        Ok(_) => Ok(text),
        Err(e) => Err(e.to_string()),
    }
}

/// Calls `String::from_utf8`, which accepts exactly the valid UTF-8 byte
/// strings and gives the text they encode.  On failure the error's text is
/// returned; nothing is stated of that text.
#[verifier::external_body]
fn utf8_text(data: &[u8]) -> (r: Result<String, String>)
    ensures
        match r {
            Ok(t) => valid_utf8(data@) && encode_utf8(t@) == data@,
            Err(_) => !valid_utf8(data@),
        },
{
    match String::from_utf8(data.to_vec()) {
        Ok(t) => Ok(t),
        Err(e) => Err(e.to_string()),
    }
}

/// The bytes look like a zlib stream: at least two of them, the first 0x78.
pub open spec fn looks_deflated(data: Seq<u8>) -> bool {
    data.len() >= 2 && data[0] == 0x78
}

/// The XML text of a posted `SAMLResponse`: base64-decoded after trimming,
/// inflated when it looks compressed, otherwise read as UTF-8.  An error
/// names the step that failed, followed by the library's message.
pub fn decode_saml_payload(encoded: &str) -> (r: Result<String, String>)
    ensures
        match base64_decoded(trimmed(encoded@)) {
            None => r matches Err(m) && exists|e: Seq<char>| m@ == "Failed to base64-decode SAMLResponse: "@ + e,
            Some(bytes) => if looks_deflated(bytes) {
                match r {
                    Ok(t) => inflated_text(bytes) == Some(t@),
                    Err(m) => inflated_text(bytes) is None && exists|e: Seq<char>| m@ == "Failed to inflate SAMLResponse: "@ + e,
                }
            } else {
                match r {
                    Ok(t) => valid_utf8(bytes) && encode_utf8(t@) == bytes,
                    Err(m) => !valid_utf8(bytes) && exists|e: Seq<char>| m@ == "SAMLResponse is not valid UTF-8: "@ + e,
                }
            },
        },
{
    let raw = chars_of(encoded);
    let t = trim_chars(raw.as_slice());
    let ts = string_from_chars(t.as_slice());
    let bytes = match base64_decode(ts.as_str()) {
        Ok(b) => b,
        Err(e) => {
            let mut m = owned("Failed to base64-decode SAMLResponse: ");
            push_str(&mut m, e.as_str());
            return Err(m);
        },
    };
    if bytes.len() >= 2 && bytes[0] == 0x78 {
        match inflate(bytes.as_slice()) {
            Ok(text) => Ok(text),
            Err(e) => {
                let mut m = owned("Failed to inflate SAMLResponse: ");
                push_str(&mut m, e.as_str());
                Err(m)
            },
        }
    } else {
        match utf8_text(bytes.as_slice()) {
            Ok(text) => Ok(text),
            Err(e) => {
                let mut m = owned("SAMLResponse is not valid UTF-8: ");
                push_str(&mut m, e.as_str());
                Err(m)
            },
        }
    }
}

// ---------------------------------------------------------------------------
// Reading the assertion
// ---------------------------------------------------------------------------

#[verifier::external_type_specification]
#[verifier::external_body]
#[verifier::reject_recursive_types(R)]
pub struct ExXmlReader<R>(quick_xml::Reader<R>);

/// An event of the XML reader, with names and texts as strings.
#[derive(Debug)]
pub enum XmlEvent {
    /// A start tag or an empty-element tag: its local name and its
    /// attributes as (key, value), `None` for one that could not be read.
    Start { name: String, attributes: Vec<Option<(String, String)>> },
    /// Text content, unescaped (empty when unescaping failed).
    Text(String),
    /// An end tag and its local name.
    End { name: String },
    /// The end of the input.
    Eof,
    /// Comments, declarations and the other events the parser ignores.
    Other,
    /// The reader failed, with its message.
    Error(String),
}

/// An attribute of a start tag with its key and value taken by their
/// characters.
pub open spec fn attr_view(a: Option<(String, String)>) -> Option<(Seq<char>, Seq<char>)> {
    match a {
        Some((k, v)) => Some((k@, v@)),
        None => None,
    }
}

pub open spec fn attr_views(a: Seq<Option<(String, String)>>) -> Seq<Option<(Seq<char>, Seq<char>)>> {
    a.map_values(|x: Option<(String, String)>| attr_view(x))
}

/// An event of the XML reader with its texts taken by their characters.
pub enum XmlEventView {
    Start { name: Seq<char>, attributes: Seq<Option<(Seq<char>, Seq<char>)>> },
    Text(Seq<char>),
    End { name: Seq<char> },
    Eof,
    Other,
    Error(Seq<char>),
}

impl View for XmlEvent {
    type V = XmlEventView;

    open spec fn view(&self) -> XmlEventView {
        match self {
            XmlEvent::Start { name, attributes } => XmlEventView::Start {
                name: name@,
                attributes: attr_views(attributes@),
            },
            XmlEvent::Text(t) => XmlEventView::Text(t@),
            XmlEvent::End { name } => XmlEventView::End { name: name@ },
            XmlEvent::Eof => XmlEventView::Eof,
            XmlEvent::Other => XmlEventView::Other,
            XmlEvent::Error(m) => XmlEventView::Error(m@),
        }
    }
}

/// The events of a run taken by their views.
pub open spec fn event_views(e: Seq<XmlEvent>) -> Seq<XmlEventView> {
    e.map_values(|x: XmlEvent| x@)
}

/// The `k`-th event (counting from 0) that `quick_xml`'s reader, trimming
/// the whitespace around texts, reads from a text and `XmlEvent` converts.
pub uninterp spec fn xml_event_at(xml: Seq<char>, k: nat) -> XmlEventView;

/// Creates a `quick_xml::Reader` over the text that trims whitespace
/// around text events.
#[verifier::external_body]
fn new_xml_reader<'a>(xml: &'a str) -> quick_xml::Reader<&'a [u8]> {
    let mut reader = quick_xml::Reader::from_str(xml);
    reader.config_mut().trim_text(true);
    reader
}

#[verifier::external_type_specification]
#[verifier::external_body]
pub struct ExBytesStart<'a>(quick_xml::events::BytesStart<'a>);

/// Calls `String::from_utf8_lossy`: valid UTF-8 is read as the text it
/// encodes; invalid sequences become U+FFFD.
#[verifier::external_body]
fn utf8_lossy(b: &[u8]) -> (r: String)
    ensures
        valid_utf8(b@) ==> encode_utf8(r@) == b@,
{
    String::from_utf8_lossy(b).to_string()
}

/// Converts a start tag: its local name and its attributes (key and value
/// read with `utf8_lossy`, `None` for an attribute `quick_xml` could not
/// read).  Nothing is stated of the result.
#[verifier::external_body]
fn start_event(e: &quick_xml::events::BytesStart) -> (r: XmlEvent) {
    XmlEvent::Start {
        name: utf8_lossy(e.local_name().as_ref()),
        attributes: e.attributes().map(|a| a.ok().map(|a| (utf8_lossy(a.key.as_ref()), utf8_lossy(&a.value)))).collect(),
    }
}

/// A reader over a text, with the text and the number of events read from
/// it so far.
struct XmlEventSource<'a> {
    reader: quick_xml::Reader<&'a [u8]>,
    text: Ghost<Seq<char>>,
    read: Ghost<nat>,
}

/// A fresh reader over the text, trimming the whitespace around texts.
fn open_xml_source<'a>(xml: &'a str) -> (r: XmlEventSource<'a>)
    ensures
        r.text@ == xml@,
        r.read@ == 0,
{
    XmlEventSource { reader: new_xml_reader(xml), text: Ghost(xml@), read: Ghost(0) }
}

/// Reads the next event with `read_event_into` and converts it; text is
/// unescaped (empty when unescaping fails).  The reader was made from the
/// text and has read `read` events before: what comes back is the event
/// `xml_event_at` names for that text and position.
#[verifier::external_body]
fn next_xml_event(src: &mut XmlEventSource) -> (r: XmlEvent)
    ensures
        final(src).text == old(src).text,
        final(src).read@ == old(src).read@ + 1,
        r@ == xml_event_at(old(src).text@, old(src).read@),
{
    let mut buf = Vec::new();
    match src.reader.read_event_into(&mut buf) {
        Ok(Event::Start(e)) | Ok(Event::Empty(e)) => start_event(&e),
        Ok(Event::Text(e)) => XmlEvent::Text(e.unescape().unwrap_or_default().to_string()),
        Ok(Event::End(e)) => XmlEvent::End { name: utf8_lossy(e.local_name().as_ref()) },
        Ok(Event::Eof) => XmlEvent::Eof,
        Ok(_) => XmlEvent::Other,
        Err(e) => XmlEvent::Error(e.to_string()),
    }
}

/// The value of the last readable attribute with the given key.
pub open spec fn last_attr(attrs: Seq<Option<(Seq<char>, Seq<char>)>>, key: Seq<char>) -> Option<Seq<char>>
    decreases attrs.len(),
{
    if attrs.len() == 0 {
        None
    } else {
        match attrs.last() {
            Some((k, v)) if k == key => Some(v),
            _ => last_attr(attrs.drop_last(), key),
        }
    }
}

fn last_attr_exec(attrs: &Vec<Option<(String, String)>>, key: &str) -> (r: Option<String>)
    ensures
        match r {
            Some(v) => last_attr(attr_views(attrs@), key@) == Some(v@),
            None => last_attr(attr_views(attrs@), key@) is None,
        },
{
    let k = chars_of(key);
    let mut i: usize = attrs.len();
    assert(attr_views(attrs@.take(i as int)) =~= attr_views(attrs@));
    while i > 0
        invariant
            i <= attrs@.len(),
            k@ == key@,
            last_attr(attr_views(attrs@), key@) == last_attr(attr_views(attrs@.take(i as int)), key@),
        decreases i,
    {
        assert(attr_views(attrs@.take(i as int)).drop_last() =~= attr_views(attrs@.take(i as int - 1)));
        assert(attr_views(attrs@.take(i as int)).last() == attr_view(attrs@[i as int - 1]));
        match &attrs[i - 1] {
            Some((name, value)) => {
                let n = chars_of(name.as_str());
                if chars_eq(n.as_slice(), k.as_slice()) {
                    return Some(value.clone());
                }
            },
            None => {},
        }
        i = i - 1;
    }
    None
}

/// What the parser has read so far, and where in the document it is.
#[derive(Debug)]
pub struct SamlParser {
    pub name_id: Option<String>,
    pub issuer: Option<String>,
    pub attributes: Vec<SamlAttribute>,
    pub signature_present: bool,
    pub signature_cert_reference: Option<String>,
    pub assertion_id: Option<String>,
    pub in_assertion: bool,
    pub in_conditions: bool,
    pub in_audience_restriction: bool,
    pub in_audience: bool,
    pub conditions_not_before: Option<String>,
    pub conditions_not_on_or_after: Option<String>,
    pub audience_values: Vec<String>,
    pub in_name_id: bool,
    pub in_issuer: bool,
    pub in_attribute: bool,
    pub current_attr_name: Option<String>,
    pub current_attr_friendly_name: Option<String>,
    pub current_attr_values: Vec<String>,
    pub in_attribute_value: bool,
    pub in_x509_cert: bool,
}

/// A SAML attribute with its texts taken by their characters.
pub struct SamlAttributeView {
    pub name: Seq<char>,
    pub friendly_name: Option<Seq<char>>,
    pub values: Seq<Seq<char>>,
}

pub open spec fn opt_text(o: Option<String>) -> Option<Seq<char>> {
    match o {
        Some(s) => Some(s@),
        None => None,
    }
}

pub open spec fn texts(v: Seq<String>) -> Seq<Seq<char>> {
    v.map_values(|s: String| s@)
}

pub open spec fn attribute_view(a: SamlAttribute) -> SamlAttributeView {
    SamlAttributeView {
        name: a.name@,
        friendly_name: opt_text(a.friendly_name),
        values: texts(a.values@),
    }
}

/// The parser's state with its texts taken by their characters.
pub struct SamlParserView {
    pub name_id: Option<Seq<char>>,
    pub issuer: Option<Seq<char>>,
    pub attributes: Seq<SamlAttributeView>,
    pub signature_present: bool,
    pub signature_cert_reference: Option<Seq<char>>,
    pub assertion_id: Option<Seq<char>>,
    pub in_assertion: bool,
    pub in_conditions: bool,
    pub in_audience_restriction: bool,
    pub in_audience: bool,
    pub conditions_not_before: Option<Seq<char>>,
    pub conditions_not_on_or_after: Option<Seq<char>>,
    pub audience_values: Seq<Seq<char>>,
    pub in_name_id: bool,
    pub in_issuer: bool,
    pub in_attribute: bool,
    pub current_attr_name: Option<Seq<char>>,
    pub current_attr_friendly_name: Option<Seq<char>>,
    pub current_attr_values: Seq<Seq<char>>,
    pub in_attribute_value: bool,
    pub in_x509_cert: bool,
}

impl View for SamlParser {
    type V = SamlParserView;

    open spec fn view(&self) -> SamlParserView {
        SamlParserView {
            name_id: opt_text(self.name_id),
            issuer: opt_text(self.issuer),
            attributes: self.attributes@.map_values(|a: SamlAttribute| attribute_view(a)),
            signature_present: self.signature_present,
            signature_cert_reference: opt_text(self.signature_cert_reference),
            assertion_id: opt_text(self.assertion_id),
            in_assertion: self.in_assertion,
            in_conditions: self.in_conditions,
            in_audience_restriction: self.in_audience_restriction,
            in_audience: self.in_audience,
            conditions_not_before: opt_text(self.conditions_not_before),
            conditions_not_on_or_after: opt_text(self.conditions_not_on_or_after),
            audience_values: texts(self.audience_values@),
            in_name_id: self.in_name_id,
            in_issuer: self.in_issuer,
            in_attribute: self.in_attribute,
            current_attr_name: opt_text(self.current_attr_name),
            current_attr_friendly_name: opt_text(self.current_attr_friendly_name),
            current_attr_values: texts(self.current_attr_values@),
            in_attribute_value: self.in_attribute_value,
            in_x509_cert: self.in_x509_cert,
        }
    }
}

/// `old` replaced by `new` when there is one.
pub open spec fn override_with(old: Option<Seq<char>>, new: Option<Seq<char>>) -> Option<Seq<char>> {
    match new {
        Some(v) => Some(v),
        None => old,
    }
}

/// The state after a start tag.
pub open spec fn on_start(s: SamlParserView, name: Seq<char>, attrs: Seq<Option<(Seq<char>, Seq<char>)>>) -> SamlParserView {
    if name == "Assertion"@ {
        SamlParserView {
            in_assertion: true,
            assertion_id: override_with(s.assertion_id, last_attr(attrs, "ID"@)),
            ..s
        }
    } else if name == "Conditions"@ && s.in_assertion {
        SamlParserView {
            in_conditions: true,
            conditions_not_before: override_with(s.conditions_not_before, last_attr(attrs, "NotBefore"@)),
            conditions_not_on_or_after: override_with(
                s.conditions_not_on_or_after,
                last_attr(attrs, "NotOnOrAfter"@),
            ),
            ..s
        }
    } else if name == "AudienceRestriction"@ && s.in_conditions {
        SamlParserView { in_audience_restriction: true, ..s }
    } else if name == "Audience"@ && s.in_audience_restriction {
        SamlParserView { in_audience: true, ..s }
    } else if name == "NameID"@ && s.in_assertion {
        SamlParserView { in_name_id: true, ..s }
    } else if name == "Issuer"@ && s.in_assertion && s.name_id is None {
        SamlParserView { in_issuer: true, issuer: Some(Seq::empty()), ..s }
    } else if name == "Attribute"@ && s.in_assertion {
        SamlParserView {
            in_attribute: true,
            current_attr_name: override_with(s.current_attr_name, last_attr(attrs, "Name"@)),
            current_attr_friendly_name: override_with(
                s.current_attr_friendly_name,
                last_attr(attrs, "FriendlyName"@),
            ),
            current_attr_values: Seq::empty(),
            ..s
        }
    } else if name == "AttributeValue"@ && s.in_attribute {
        SamlParserView { in_attribute_value: true, ..s }
    } else if name == "Signature"@ && s.in_assertion {
        SamlParserView { signature_present: true, ..s }
    } else if name == "X509Certificate"@ {
        SamlParserView { in_x509_cert: true, ..s }
    } else {
        s
    }
}

/// The state after a (non-empty) text: it goes to the element being read
/// (an audience, the certificate of a signature, the NameID, the Issuer
/// while inside it, an attribute value).
pub open spec fn on_text(s: SamlParserView, t: Seq<char>) -> SamlParserView {
    if s.in_audience {
        SamlParserView { audience_values: s.audience_values.push(t), ..s }
    } else if s.in_x509_cert && s.signature_present {
        SamlParserView { signature_cert_reference: Some(trimmed(t)), in_x509_cert: false, ..s }
    } else if s.in_name_id {
        SamlParserView { name_id: Some(t), in_name_id: false, ..s }
    } else if s.in_issuer {
        if s.issuer == Some(Seq::<char>::empty()) {
            SamlParserView { issuer: Some(t), ..s }
        } else {
            s
        }
    } else if s.in_attribute_value {
        SamlParserView {
            current_attr_values: s.current_attr_values.push(t),
            in_attribute_value: false,
            ..s
        }
    } else {
        s
    }
}

/// The state after an end tag.
pub open spec fn on_end(s: SamlParserView, name: Seq<char>) -> SamlParserView {
    if name == "Conditions"@ {
        SamlParserView { in_conditions: false, ..s }
    } else if name == "AudienceRestriction"@ {
        SamlParserView { in_audience_restriction: false, ..s }
    } else if name == "Audience"@ {
        SamlParserView { in_audience: false, ..s }
    } else if name == "Attribute"@ && s.in_attribute {
        match s.current_attr_name {
            Some(n) => SamlParserView {
                attributes: s.attributes.push(
                    SamlAttributeView {
                        name: n,
                        friendly_name: s.current_attr_friendly_name,
                        values: s.current_attr_values,
                    },
                ),
                current_attr_name: None,
                current_attr_friendly_name: None,
                current_attr_values: Seq::empty(),
                in_attribute: false,
                ..s
            },
            None => SamlParserView { in_attribute: false, ..s },
        }
    } else if name == "NameID"@ {
        SamlParserView { in_name_id: false, ..s }
    } else if name == "Issuer"@ {
        SamlParserView { in_issuer: false, ..s }
    } else if name == "X509Certificate"@ {
        SamlParserView { in_x509_cert: false, ..s }
    } else {
        s
    }
}

/// The state after an event that is neither the end of input nor an error.
pub open spec fn on_event(s: SamlParserView, e: XmlEventView) -> SamlParserView {
    match e {
        XmlEventView::Start { name, attributes } => on_start(s, name, attributes),
        XmlEventView::Text(t) => if t.len() == 0 {
            s
        } else {
            on_text(s, t)
        },
        XmlEventView::End { name } => on_end(s, name),
        _ => s,
    }
}

/// The state after a run of events: reading stops at the end of input (or
/// of the run), and fails at a reader error.
pub open spec fn read_events(s: SamlParserView, events: Seq<XmlEventView>) -> Result<SamlParserView, Seq<char>>
    decreases events.len(),
{
    if events.len() == 0 {
        Ok(s)
    } else {
        match events[0] {
            XmlEventView::Eof => Ok(s),
            XmlEventView::Error(m) => Err("Failed to parse SAML response XML: "@ + m),
            e => read_events(on_event(s, e), events.drop_first()),
        }
    }
}

/// The state before any event.
pub open spec fn initial_parser() -> SamlParserView {
    SamlParserView {
        name_id: None,
        issuer: None,
        attributes: Seq::empty(),
        signature_present: false,
        signature_cert_reference: None,
        assertion_id: None,
        in_assertion: false,
        in_conditions: false,
        in_audience_restriction: false,
        in_audience: false,
        conditions_not_before: None,
        conditions_not_on_or_after: None,
        audience_values: Seq::empty(),
        in_name_id: false,
        in_issuer: false,
        in_attribute: false,
        current_attr_name: None,
        current_attr_friendly_name: None,
        current_attr_values: Seq::empty(),
        in_attribute_value: false,
        in_x509_cert: false,
    }
}

impl SamlParser {
    pub fn new() -> (r: Self)
        ensures
            r@ == initial_parser(),
    {
        let r = SamlParser {
            name_id: None,
            issuer: None,
            attributes: Vec::new(),
            signature_present: false,
            signature_cert_reference: None,
            assertion_id: None,
            in_assertion: false,
            in_conditions: false,
            in_audience_restriction: false,
            in_audience: false,
            conditions_not_before: None,
            conditions_not_on_or_after: None,
            audience_values: Vec::new(),
            in_name_id: false,
            in_issuer: false,
            in_attribute: false,
            current_attr_name: None,
            current_attr_friendly_name: None,
            current_attr_values: Vec::new(),
            in_attribute_value: false,
            in_x509_cert: false,
        };
        assert(r@ =~= initial_parser()) by {
            assert(r.attributes@.map_values(|a: SamlAttribute| attribute_view(a)) =~= Seq::<
                SamlAttributeView,
            >::empty());
            assert(texts(r.audience_values@) =~= Seq::<Seq<char>>::empty());
            assert(texts(r.current_attr_values@) =~= Seq::<Seq<char>>::empty());
        }
        r
    }

    fn start(&mut self, name: &String, attrs: &Vec<Option<(String, String)>>)
        ensures
            final(self)@ == on_start(old(self)@, name@, attr_views(attrs@)),
    {
        let n = chars_of(name.as_str());
        if eq_str(n.as_slice(), "Assertion") {
            self.in_assertion = true;
            match last_attr_exec(attrs, "ID") {
                Some(v) => {
                    self.assertion_id = Some(v);
                },
                None => {},
            }
        } else if eq_str(n.as_slice(), "Conditions") && self.in_assertion {
            self.in_conditions = true;
            match last_attr_exec(attrs, "NotBefore") {
                Some(v) => {
                    self.conditions_not_before = Some(v);
                },
                None => {},
            }
            match last_attr_exec(attrs, "NotOnOrAfter") {
                Some(v) => {
                    self.conditions_not_on_or_after = Some(v);
                },
                None => {},
            }
        } else if eq_str(n.as_slice(), "AudienceRestriction") && self.in_conditions {
            self.in_audience_restriction = true;
        } else if eq_str(n.as_slice(), "Audience") && self.in_audience_restriction {
            self.in_audience = true;
        } else if eq_str(n.as_slice(), "NameID") && self.in_assertion {
            self.in_name_id = true;
        } else if eq_str(n.as_slice(), "Issuer") && self.in_assertion && self.name_id.is_none() {
            self.in_issuer = true;
            self.issuer = Some(String::new());
        } else if eq_str(n.as_slice(), "Attribute") && self.in_assertion {
            self.in_attribute = true;
            match last_attr_exec(attrs, "Name") {
                Some(v) => {
                    self.current_attr_name = Some(v);
                },
                None => {},
            }
            match last_attr_exec(attrs, "FriendlyName") {
                Some(v) => {
                    self.current_attr_friendly_name = Some(v);
                },
                None => {},
            }
            self.current_attr_values = Vec::new();
            assert(texts(self.current_attr_values@) =~= Seq::<Seq<char>>::empty());
        } else if eq_str(n.as_slice(), "AttributeValue") && self.in_attribute {
            self.in_attribute_value = true;
        } else if eq_str(n.as_slice(), "Signature") && self.in_assertion {
            self.signature_present = true;
        } else if eq_str(n.as_slice(), "X509Certificate") {
            self.in_x509_cert = true;
        }
    }

    fn text(&mut self, t: &String)
        requires
            t@.len() > 0,
        ensures
            final(self)@ == on_text(old(self)@, t@),
    {
        if self.in_audience {
            let ghost before = texts(self.audience_values@);
            self.audience_values.push(t.clone());
            assert(texts(self.audience_values@) =~= before.push(t@));
        } else if self.in_x509_cert && self.signature_present {
            let c = chars_of(t.as_str());
            let trimmed_text = trim_chars(c.as_slice());
            self.signature_cert_reference = Some(string_from_chars(trimmed_text.as_slice()));
            self.in_x509_cert = false;
        } else if self.in_name_id {
            self.name_id = Some(t.clone());
            self.in_name_id = false;
        } else if self.in_issuer {
            let empty = match &self.issuer {
                Some(i) => {
                    let c = chars_of(i.as_str());
                    proof {
                        if c@.len() == 0 {
                            assert(i@ =~= Seq::<char>::empty());
                        }
                    }
                    c.len() == 0
                },
                None => false,
            };
            if empty {
                self.issuer = Some(t.clone());
            }
        } else if self.in_attribute_value {
            let ghost before = texts(self.current_attr_values@);
            self.current_attr_values.push(t.clone());
            assert(texts(self.current_attr_values@) =~= before.push(t@));
            self.in_attribute_value = false;
        }
    }

    fn end(&mut self, name: &String)
        ensures
            final(self)@ == on_end(old(self)@, name@),
    {
        let n = chars_of(name.as_str());
        if eq_str(n.as_slice(), "Conditions") {
            self.in_conditions = false;
        } else if eq_str(n.as_slice(), "AudienceRestriction") {
            self.in_audience_restriction = false;
        } else if eq_str(n.as_slice(), "Audience") {
            self.in_audience = false;
        } else if eq_str(n.as_slice(), "Attribute") && self.in_attribute {
            match self.current_attr_name.take() {
                Some(attr_name) => {
                    let friendly = self.current_attr_friendly_name.take();
                    let mut values: Vec<String> = Vec::new();
                    std::mem::swap(&mut values, &mut self.current_attr_values);
                    let attr = SamlAttribute { name: attr_name, friendly_name: friendly, values };
                    let ghost before = self.attributes@.map_values(|a: SamlAttribute| attribute_view(a));
                    self.attributes.push(attr);
                    assert(self.attributes@.map_values(|a: SamlAttribute| attribute_view(a)) =~= before.push(attribute_view(attr)));
                    assert(texts(self.current_attr_values@) =~= Seq::<Seq<char>>::empty());
                },
                None => {},
            }
            self.in_attribute = false;
        } else if eq_str(n.as_slice(), "NameID") {
            self.in_name_id = false;
        } else if eq_str(n.as_slice(), "Issuer") {
            self.in_issuer = false;
        } else if eq_str(n.as_slice(), "X509Certificate") {
            self.in_x509_cert = false;
        }
    }

    /// Takes in one event that is neither the end of input nor an error.
    pub fn step(&mut self, event: &XmlEvent)
        ensures
            final(self)@ == on_event(old(self)@, event@),
    {
        let ghost before = self@;
        match event {
            XmlEvent::Start { name, attributes } => {
                assert(on_event(before, event@) == on_start(before, name@, attr_views(attributes@)));
                self.start(name, attributes);
            },
            XmlEvent::Text(t) => {
                if chars_of(t.as_str()).len() > 0 {
                    self.text(t);
                }
            },
            XmlEvent::End { name } => self.end(name),
            _ => {},
        }
    }
}

// ---------------------------------------------------------------------------
// The parsed assertion
// ---------------------------------------------------------------------------

/// The validity window and audiences of an assertion.
#[derive(Debug)]
pub struct ParsedConditions {
    pub not_before: Option<UtcTimestamp>,
    pub not_on_or_after: Option<UtcTimestamp>,
    pub audience_restrictions: Vec<String>,
}

/// What the assertion consumer reads from a SAML response.
#[derive(Debug)]
pub struct ParsedSamlResponse {
    pub name_id: String,
    pub issuer: String,
    pub attributes: Vec<SamlAttribute>,
    pub signature_present: bool,
    pub signature_cert_reference: Option<String>,
    pub assertion_id: Option<String>,
    pub conditions: Option<ParsedConditions>,
}

pub struct ParsedConditionsView {
    pub not_before: Option<UtcTimestamp>,
    pub not_on_or_after: Option<UtcTimestamp>,
    pub audience_restrictions: Seq<Seq<char>>,
}

pub struct ParsedSamlView {
    pub name_id: Seq<char>,
    pub issuer: Seq<char>,
    pub attributes: Seq<SamlAttributeView>,
    pub signature_present: bool,
    pub signature_cert_reference: Option<Seq<char>>,
    pub assertion_id: Option<Seq<char>>,
    pub conditions: Option<ParsedConditionsView>,
}

impl View for ParsedSamlResponse {
    type V = ParsedSamlView;

    open spec fn view(&self) -> ParsedSamlView {
        ParsedSamlView {
            name_id: self.name_id@,
            issuer: self.issuer@,
            attributes: self.attributes@.map_values(|a: SamlAttribute| attribute_view(a)),
            signature_present: self.signature_present,
            signature_cert_reference: opt_text(self.signature_cert_reference),
            assertion_id: opt_text(self.assertion_id),
            conditions: match self.conditions {
                Some(c) => Some(
                    ParsedConditionsView {
                        not_before: c.not_before,
                        not_on_or_after: c.not_on_or_after,
                        audience_restrictions: texts(c.audience_restrictions@),
                    },
                ),
                None => None,
            },
        }
    }
}

/// The instant a timestamp text denotes, if it parses as RFC 3339.
pub open spec fn instant_of(t: Option<Seq<char>>) -> Option<UtcTimestamp> {
    match t {
        Some(x) => match rfc3339_instant(x) {
            Some((seconds, nanos)) => Some(UtcTimestamp { seconds, nanos }),
            None => None,
        },
        None => None,
    }
}

/// The assertion read once the events are over: a NameID is required, the
/// issuer defaults to `unknown`, and conditions exist when either bound was
/// given (bounds that do not parse are dropped).
pub open spec fn finished(s: SamlParserView) -> Result<ParsedSamlView, Seq<char>> {
    match s.name_id {
        None => Err("SAML response contains no NameID in the assertion"@),
        Some(name_id) => Ok(
            ParsedSamlView {
                name_id,
                issuer: match s.issuer {
                    Some(i) => i,
                    None => "unknown"@,
                },
                attributes: s.attributes,
                signature_present: s.signature_present,
                signature_cert_reference: s.signature_cert_reference,
                assertion_id: s.assertion_id,
                conditions: if s.conditions_not_before is Some || s.conditions_not_on_or_after is Some {
                    Some(
                        ParsedConditionsView {
                            not_before: instant_of(s.conditions_not_before),
                            not_on_or_after: instant_of(s.conditions_not_on_or_after),
                            audience_restrictions: s.audience_values,
                        },
                    )
                } else {
                    None
                },
            },
        ),
    }
}

/// The assertion read from a run of events, or the error.
pub open spec fn saml_outcome(events: Seq<XmlEventView>) -> Result<ParsedSamlView, Seq<char>> {
    match read_events(initial_parser(), events) {
        Err(m) => Err(m),
        Ok(s) => finished(s),
    }
}

pub open spec fn parsed_result_view(r: &Result<ParsedSamlResponse, String>) -> Result<ParsedSamlView, Seq<char>> {
    match r {
        Ok(p) => Ok(p@),
        Err(e) => Err(e@),
    }
}

fn parse_instant(t: &Option<String>) -> (r: Option<UtcTimestamp>)
    ensures
        r == instant_of(opt_text(*t)),
{
    match t {
        Some(x) => match parse_rfc3339(x.as_str()) {
            Some((seconds, nanos)) => Some(UtcTimestamp { seconds, nanos }),
            None => None,
        },
        None => None,
    }
}

impl SamlParser {
    /// The assertion read so far.
    pub fn finish(self) -> (r: Result<ParsedSamlResponse, String>)
        ensures
            parsed_result_view(&r) == finished(self@),
    {
        let ghost v = self@;
        let name_id = match self.name_id {
            Some(n) => n,
            None => {
                return Err(owned("SAML response contains no NameID in the assertion"));
            },
        };
        let issuer = match self.issuer {
            Some(i) => i,
            None => owned("unknown"),
        };
        let conditions = if self.conditions_not_before.is_some()
            || self.conditions_not_on_or_after.is_some() {
            Some(
                ParsedConditions {
                    not_before: parse_instant(&self.conditions_not_before),
                    not_on_or_after: parse_instant(&self.conditions_not_on_or_after),
                    audience_restrictions: self.audience_values,
                },
            )
        } else {
            None
        };
        let r = ParsedSamlResponse {
            name_id,
            issuer,
            attributes: self.attributes,
            signature_present: self.signature_present,
            signature_cert_reference: self.signature_cert_reference,
            assertion_id: self.assertion_id,
            conditions,
        };
        assert(finished(v) == Ok::<ParsedSamlView, Seq<char>>(r@));
        Ok(r)
    }
}

/// Reads an assertion from a run of reader events.
pub fn parse_saml_events(events: &[XmlEvent]) -> (r: Result<ParsedSamlResponse, String>)
    ensures
        parsed_result_view(&r) == saml_outcome(event_views(events@)),
{
    let ghost ev = event_views(events@);
    let mut parser = SamlParser::new();
    let mut i: usize = 0;
    assert(ev.skip(0) =~= ev);
    while i < events.len()
        invariant
            i <= events@.len(),
            ev == event_views(events@),
            read_events(initial_parser(), ev) == read_events(parser@, ev.skip(i as int)),
        decreases events@.len() - i,
    {
        assert(ev.skip(i as int).drop_first() =~= ev.skip(i as int + 1));
        assert(ev.skip(i as int)[0] == events@[i as int]@);
        match &events[i] {
            XmlEvent::Eof => {
                return parser.finish();
            },
            XmlEvent::Error(m) => {
                let mut msg = owned("Failed to parse SAML response XML: ");
                push_str(&mut msg, m.as_str());
                return Err(msg);
            },
            e => {
                parser.step(e);
            },
        }
        i = i + 1;
    }
    assert(ev.skip(ev.len() as int) =~= Seq::<XmlEventView>::empty());
    parser.finish()
}

/// An event after which the reader is not asked for more: the end of the
/// input or an error.
pub open spec fn ends_reading(e: XmlEvent) -> bool {
    e is Eof || e is Error
}

pub open spec fn ends_view(e: XmlEventView) -> bool {
    e is Eof || e is Error
}

/// The events read from a text from position `k` on: one at a time, up to
/// and including the end of input or the first error, and at most
/// `left + 1` of them.
pub open spec fn xml_run_from(xml: Seq<char>, k: nat, left: nat) -> Seq<XmlEventView>
    decreases left,
{
    let e = xml_event_at(xml, k);
    if ends_view(e) || left == 0 {
        seq![e]
    } else {
        seq![e] + xml_run_from(xml, k + 1, (left - 1) as nat)
    }
}

/// The events read from a text: at most one more than it has bytes.
pub open spec fn xml_run(xml: Seq<char>) -> Seq<XmlEventView> {
    xml_run_from(xml, 0, encode_utf8(xml).len())
}

/// The reader's events for a text, up to and including the end of input or
/// the first error.  The reader consumes input with every other event, so
/// at most one event per byte is read (plus the last).
fn read_xml_events(xml: &str) -> (r: Vec<XmlEvent>)
    ensures
        1 <= r@.len() <= xml.len() + 1,
        forall|i: int| 0 <= i < r@.len() - 1 ==> !ends_reading(#[trigger] r@[i]),
        ends_reading(r@.last()) || r@.len() == xml.len() + 1,
        event_views(r@) == xml_run(xml@),
{
    let mut source = open_xml_source(xml);
    let mut events: Vec<XmlEvent> = Vec::new();
    let bytes = xml.as_bytes();
    proof {
        vstd::slice::axiom_spec_len(bytes);
    }
    let n: usize = xml.len();
    let mut budget: usize = n;
    proof {
        assert(n == encode_utf8(xml@).len());
        assert(event_views(events@) + xml_run_from(xml@, 0, n as nat) =~= xml_run(xml@));
    }
    loop
        invariant_except_break
            n == xml.len(),
            n == encode_utf8(xml@).len(),
            budget <= n,
            events@.len() == n - budget,
            source.text@ == xml@,
            source.read@ == events@.len(),
            forall|i: int| 0 <= i < events@.len() ==> !ends_reading(#[trigger] events@[i]),
            event_views(events@) + xml_run_from(xml@, events@.len() as nat, budget as nat) == xml_run(xml@),
        ensures
            n == xml.len(),
            1 <= events@.len() <= n + 1,
            forall|i: int| 0 <= i < events@.len() - 1 ==> !ends_reading(#[trigger] events@[i]),
            ends_reading(events@.last()) || events@.len() == n + 1,
            event_views(events@) == xml_run(xml@),
        decreases budget,
    {
        let ghost before = event_views(events@);
        let ghost k = events@.len() as nat;
        let e = next_xml_event(&mut source);
        let last = match &e {
            XmlEvent::Eof => true,
            XmlEvent::Error(_) => true,
            _ => false,
        };
        let ghost ev = e@;
        events.push(e);
        proof {
            assert(event_views(events@) =~= before.push(ev));
            assert(ends_view(ev) == last);
        }
        if last || budget == 0 {
            proof {
                assert(xml_run_from(xml@, k, budget as nat) == seq![ev]);
                assert(before + seq![ev] =~= before.push(ev));
            }
            break;
        }
        proof {
            assert(xml_run_from(xml@, k, budget as nat) == seq![ev] + xml_run_from(
                xml@,
                k + 1,
                (budget - 1) as nat,
            ));
            assert(before + (seq![ev] + xml_run_from(xml@, k + 1, (budget - 1) as nat)) =~= before.push(ev)
                + xml_run_from(xml@, k + 1, (budget - 1) as nat));
        }
        budget = budget - 1;
    }
    events
}

/// Reads the assertion out of a SAML response's XML: what
/// `parse_saml_events` gives for the events the reader yields for the text.
pub fn parse_saml_response(xml: &str) -> (r: Result<ParsedSamlResponse, String>)
    ensures
        parsed_result_view(&r) == saml_outcome(xml_run(xml@)),
{
    let events = read_xml_events(xml);
    parse_saml_events(events.as_slice())
}

// ---------------------------------------------------------------------------
// Checking the assertion
// ---------------------------------------------------------------------------

/// `a` is an earlier instant than `b`.
pub open spec fn before(a: UtcTimestamp, b: UtcTimestamp) -> bool {
    a.seconds < b.seconds || (a.seconds == b.seconds && a.nanos < b.nanos)
}

fn before_exec(a: UtcTimestamp, b: UtcTimestamp) -> (r: bool)
    ensures
        r == before(a, b),
{
    a.seconds < b.seconds || (a.seconds == b.seconds && a.nanos < b.nanos)
}

/// Why an assertion is refused, if it is: it must be signed; at `now` it
/// must be valid (not before `NotBefore`, before `NotOnOrAfter`); and when
/// it restricts its audience, this service provider must be among them.
pub open spec fn assertion_problem(p: ParsedSamlView, now: UtcTimestamp, entity_id: Seq<char>) -> Option<Seq<char>> {
    if !p.signature_present {
        Some("SAML assertion must be signed. The IdP did not include a signature."@)
    } else {
        match p.conditions {
            None => None,
            Some(c) => if c.not_before matches Some(nb) && before(now, nb) {
                Some("SAML assertion is not yet valid (NotBefore condition not met)"@)
            } else if c.not_on_or_after matches Some(na) && !before(now, na) {
                Some("SAML assertion has expired (NotOnOrAfter condition exceeded)"@)
            } else if c.audience_restrictions.len() > 0 && !c.audience_restrictions.contains(entity_id) {
                Some("SAML assertion audience does not match this service provider"@)
            } else {
                None
            },
        }
    }
}

/// Checks a parsed assertion at `now` for this service provider.
pub fn check_saml_assertion(parsed: &ParsedSamlResponse, now: UtcTimestamp, entity_id: &str) -> (r: Result<(), String>)
    ensures
        match assertion_problem(parsed@, now, entity_id@) {
            None => r is Ok,
            Some(m) => r matches Err(e) && e@ == m,
        },
{
    if !parsed.signature_present {
        return Err(owned("SAML assertion must be signed. The IdP did not include a signature."));
    }
    match &parsed.conditions {
        None => Ok(()),
        Some(c) => {
            match c.not_before {
                Some(nb) => {
                    if before_exec(now, nb) {
                        return Err(owned("SAML assertion is not yet valid (NotBefore condition not met)"));
                    }
                },
                None => {},
            }
            match c.not_on_or_after {
                Some(na) => {
                    if !before_exec(now, na) {
                        return Err(owned("SAML assertion has expired (NotOnOrAfter condition exceeded)"));
                    }
                },
                None => {},
            }
            if c.audience_restrictions.len() > 0 {
                let want = chars_of(entity_id);
                let mut i: usize = 0;
                let ghost verdict = if texts(c.audience_restrictions@).contains(entity_id@) {
                    None
                } else {
                    Some("SAML assertion audience does not match this service provider"@)
                };
                assert(assertion_problem(parsed@, now, entity_id@) == verdict);
                while i < c.audience_restrictions.len()
                    invariant
                        i <= c.audience_restrictions@.len(),
                        want@ == entity_id@,
                        assertion_problem(parsed@, now, entity_id@) == verdict,
                        verdict == (if texts(c.audience_restrictions@).contains(entity_id@) {
                            None
                        } else {
                            Some("SAML assertion audience does not match this service provider"@)
                        }),
                        forall|j: int| 0 <= j < i ==> c.audience_restrictions@[j]@ != entity_id@,
                    decreases c.audience_restrictions@.len() - i,
                {
                    let a = chars_of(c.audience_restrictions[i].as_str());
                    if chars_eq(a.as_slice(), want.as_slice()) {
                        assert(texts(c.audience_restrictions@)[i as int] == entity_id@);
                        return Ok(());
                    }
                    i = i + 1;
                }
                proof {
                    let t = texts(c.audience_restrictions@);
                    if t.contains(entity_id@) {
                        let k = choose|k: int| 0 <= k < t.len() && t[k] == entity_id@;
                        assert(c.audience_restrictions@[k]@ == entity_id@);
                    }
                }
                return Err(owned("SAML assertion audience does not match this service provider"));
            }
            Ok(())
        },
    }
}

// ---------------------------------------------------------------------------
// Replay protection and the issued token
// ---------------------------------------------------------------------------

/// The prefix of the keys under which used assertion IDs are recorded.
pub const SAML_ASSERTION_PREFIX: &'static str = "saml:assertion:";

/// The key under which an assertion ID is recorded as used.
pub fn saml_replay_key(assertion_id: &str) -> (r: String)
    ensures
        r@ == SAML_ASSERTION_PREFIX@ + assertion_id@,
{
    let mut k = owned(SAML_ASSERTION_PREFIX);
    push_str(&mut k, assertion_id);
    k
}

/// What the replay check decides once the store has been asked for the
/// assertion's key: an ID found there was used before and the assertion is
/// refused; otherwise the ID is to be recorded and the assertion passes.
pub fn replay_check(already_used: bool) -> (r: Result<(), String>)
    ensures
        already_used ==> (r matches Err(m) && m@ == "SAML assertion has already been used (possible replay attack)"@),
        !already_used ==> r is Ok,
{
    if already_used {
        Err(owned("SAML assertion has already been used (possible replay attack)"))
    } else {
        Ok(())
    }
}

/// What the assertion consumer does next with a parsed assertion.
#[derive(Debug)]
pub enum AcsAction {
    /// Answer `400 Bad Request` with this message; nothing is recorded.
    Refuse(String),
    /// Ask the store for this key, consuming it, and decide again with the
    /// answer.
    LookUpReplay(String),
    /// Record this key as used, then log the user in.
    RecordAndAccept(String),
    /// Log the user in (the assertion carries no ID to record).
    Accept,
}

pub enum AcsActionView {
    Refuse(Seq<char>),
    LookUpReplay(Seq<char>),
    RecordAndAccept(Seq<char>),
    Accept,
}

impl View for AcsAction {
    type V = AcsActionView;

    open spec fn view(&self) -> AcsActionView {
        match self {
            AcsAction::Refuse(m) => AcsActionView::Refuse(m@),
            AcsAction::LookUpReplay(k) => AcsActionView::LookUpReplay(k@),
            AcsAction::RecordAndAccept(k) => AcsActionView::RecordAndAccept(k@),
            AcsAction::Accept => AcsActionView::Accept,
        }
    }
}

/// The assertion consumer's decision before any user is stored or token
/// issued. The assertion is checked first (signature, validity window,
/// audience); one that passes and carries an ID is then checked against
/// replays: `replay_lookup` is `None` while the store has not been asked,
/// and whether the ID was found there once it has.
pub open spec fn acs_decision(
    p: ParsedSamlView,
    now: UtcTimestamp,
    entity_id: Seq<char>,
    replay_lookup: Option<bool>,
) -> AcsActionView {
    match assertion_problem(p, now, entity_id) {
        Some(m) => AcsActionView::Refuse(m),
        None => match p.assertion_id {
            None => AcsActionView::Accept,
            Some(id) => match replay_lookup {
                None => AcsActionView::LookUpReplay(SAML_ASSERTION_PREFIX@ + id),
                Some(true) => AcsActionView::Refuse(
                    "SAML assertion has already been used (possible replay attack)"@,
                ),
                Some(false) => AcsActionView::RecordAndAccept(SAML_ASSERTION_PREFIX@ + id),
            },
        },
    }
}

/// One step of the assertion consumer: what to do with `parsed` at `now`
/// for the service provider `entity_id`, given what the replay store
/// answered so far.
pub fn saml_acs_step(
    parsed: &ParsedSamlResponse,
    now: UtcTimestamp,
    entity_id: &str,
    replay_lookup: Option<bool>,
) -> (r: AcsAction)
    ensures
        r@ == acs_decision(parsed@, now, entity_id@, replay_lookup),
{
    match check_saml_assertion(parsed, now, entity_id) {
        Err(m) => AcsAction::Refuse(m),
        Ok(()) => match &parsed.assertion_id {
            None => AcsAction::Accept,
            Some(id) => {
                let key = saml_replay_key(id.as_str());
                match replay_lookup {
                    None => AcsAction::LookUpReplay(key),
                    Some(used) => match replay_check(used) {
                        Err(m) => AcsAction::Refuse(m),
                        Ok(()) => AcsAction::RecordAndAccept(key),
                    },
                }
            },
        },
    }
}

/// A refused assertion is refused whatever the replay store would answer,
/// so the store is never consulted for it; once the store has answered,
/// the consumer never asks it again; and an assertion whose ID the store
/// already held is refused.
pub proof fn lemma_acs_consults_store_once(
    p: ParsedSamlView,
    now: UtcTimestamp,
    entity_id: Seq<char>,
    lookup: Option<bool>,
)
    ensures
        assertion_problem(p, now, entity_id) is Some ==> acs_decision(p, now, entity_id, lookup)
            == acs_decision(p, now, entity_id, None),
        assertion_problem(p, now, entity_id) is Some ==> !(acs_decision(p, now, entity_id, lookup) is LookUpReplay),
        lookup is Some ==> !(acs_decision(p, now, entity_id, lookup) is LookUpReplay),
        p.assertion_id is Some ==> acs_decision(p, now, entity_id, Some(true)) is Refuse,
{
}

/// The claims of the token issued for a SAML login.
#[derive(Debug, Clone)]
pub struct SamlTokenClaims {
    pub sub: String,
    pub name: String,
    pub role: String,
    pub iss: String,
    pub aud: String,
    pub exp: u64,
    pub iat: u64,
    pub sso_provider: String,
    pub sso_issuer: String,
}

/// How long a SAML login's token is valid, in seconds.
pub const SAML_TOKEN_LIFETIME_SECS: u64 = 3600;

/// The claims for a SAML login at `now`: the NameID as subject and name,
/// the `user` role, issuer `tachyon`, audience `tachyon-api`, valid for an
/// hour, and the identity provider that vouched for it.
pub fn saml_token_claims(name_id: &str, issuer: &str, now: u64) -> (r: SamlTokenClaims)
    requires
        now + SAML_TOKEN_LIFETIME_SECS <= u64::MAX,
    ensures
        r.sub@ == name_id@,
        r.name@ == name_id@,
        r.role@ == "user"@,
        r.iss@ == "tachyon"@,
        r.aud@ == "tachyon-api"@,
        r.exp == now + SAML_TOKEN_LIFETIME_SECS,
        r.iat == now,
        r.sso_provider@ == "saml"@,
        r.sso_issuer@ == issuer@,
{
    SamlTokenClaims {
        sub: owned(name_id),
        name: owned(name_id),
        role: owned("user"),
        iss: owned("tachyon"),
        aud: owned("tachyon-api"),
        exp: now + SAML_TOKEN_LIFETIME_SECS,
        iat: now,
        sso_provider: owned("saml"),
        sso_issuer: owned(issuer),
    }
}

/// The answer to a successful SAML login: the signed token, of type
/// `Bearer` for an hour, with the NameID and the attributes read.
pub fn saml_acs_response(access_token: String, parsed: ParsedSamlResponse) -> (r: SamlAcsResponse)
    ensures
        r.access_token == access_token,
        r.token_type@ == "Bearer"@,
        r.expires_in == SAML_TOKEN_LIFETIME_SECS,
        r.name_id@ == parsed.name_id@,
        r.attributes@ == parsed.attributes@,
{
    SamlAcsResponse {
        access_token,
        token_type: owned("Bearer"),
        expires_in: SAML_TOKEN_LIFETIME_SECS,
        name_id: parsed.name_id,
        attributes: parsed.attributes,
    }
}

} // verus!

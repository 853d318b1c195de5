use crate::text::owned;
use hyper::http::Uri;
use hyper::StatusCode;
use vstd::prelude::*;
use vstd::utf8::is_ascii_chars;

verus! {

/// The mathematical value of a header field.
pub struct HeaderFieldValue {
    pub name: Seq<char>,
    pub value: Seq<u8>,
}

/// One header field of a message: its name and the bytes of its value. Names
/// are told apart without regard to the case of their letters.
#[derive(Debug, Clone, PartialEq, Eq)]
pub struct HeaderField {
    pub name: String,
    pub value: Vec<u8>,
}

impl View for HeaderField {
    type V = HeaderFieldValue;

    open spec fn view(&self) -> HeaderFieldValue {
        HeaderFieldValue { name: self.name@, value: self.value@ }
    }
}

/// The values of a run of header fields, in their order.
pub open spec fn header_values(fields: Seq<HeaderField>) -> Seq<HeaderFieldValue> {
    fields.map_values(|f: HeaderField| f@)
}

impl HeaderField {
    /// A header field with the given name and value.
    pub fn new(name: &str, value: &[u8]) -> (f: HeaderField)
        ensures
            f@.name == name@,
            f@.value == value@,
    {
        HeaderField { name: owned(name), value: vstd::slice::slice_to_vec(value) }
    }

    /// A copy of this field.
    pub fn duplicate(&self) -> (f: HeaderField)
        ensures
            f@ == self@,
    {
        let value = self.value.clone();
        assert(value@ =~= self.value@);
        HeaderField { name: self.name.clone(), value }
    }
}

/// The mathematical value of the head of a request.
pub struct RequestValue {
    pub method: Seq<char>,
    pub uri: Seq<char>,
    pub headers: Seq<HeaderFieldValue>,
}

/// The head of an HTTP request: method, request target and header fields.
#[derive(Debug, Clone, PartialEq, Eq)]
pub struct RequestParts {
    pub method: String,
    pub uri: String,
    pub headers: Vec<HeaderField>,
}

impl View for RequestParts {
    type V = RequestValue;

    open spec fn view(&self) -> RequestValue {
        RequestValue {
            method: self.method@,
            uri: self.uri@,
            headers: header_values(self.headers@),
        }
    }
}

/// The mathematical value of the head of a response.
pub struct ResponseValue {
    pub status: u16,
    pub headers: Seq<HeaderFieldValue>,
}

/// The head of an HTTP response: status code and header fields.
#[derive(Debug, Clone, PartialEq, Eq)]
pub struct ResponseParts {
    pub status: u16,
    pub headers: Vec<HeaderField>,
}

impl View for ResponseParts {
    type V = ResponseValue;

    open spec fn view(&self) -> ResponseValue {
        ResponseValue { status: self.status, headers: header_values(self.headers@) }
    }
}

/// The mathematical value of a whole response.
pub struct ResponseMessageValue {
    pub parts: ResponseValue,
    pub body: Seq<u8>,
}

/// A whole response: its head and the bytes of its body.
#[derive(Debug, Clone, PartialEq, Eq)]
pub struct ResponseMessage {
    pub parts: ResponseParts,
    pub body: Vec<u8>,
}

impl View for ResponseMessage {
    type V = ResponseMessageValue;

    open spec fn view(&self) -> ResponseMessageValue {
        ResponseMessageValue { parts: self.parts@, body: self.body@ }
    }
}

/// The host that the `http` crate finds in a request target; none where the
/// text is no URI or names no authority.
pub uninterp spec fn uri_host_of(uri: Seq<char>) -> Option<Seq<char>>;

/// The port, as written, that the `http` crate finds in a request target;
/// none where the text is no URI or its authority gives no port.
pub uninterp spec fn uri_port_of(uri: Seq<char>) -> Option<Seq<char>>;

/// The path and query that the `http` crate finds in a request target; none
/// where the text is no URI or is an authority alone.
pub uninterp spec fn uri_path_and_query_of(uri: Seq<char>) -> Option<Seq<char>>;

/// The path alone that the `http` crate finds in a request target; none
/// where the text is no URI.
pub uninterp spec fn uri_path_of(uri: Seq<char>) -> Option<Seq<char>>;

/// The text that the `http` crate shows for a request target once it has
/// parsed it; none where the text is no URI.
pub uninterp spec fn uri_shown(uri: Seq<char>) -> Option<Seq<char>>;

/// The reason phrase that the `http` crate knows for a status code; none
/// where the code is outside 100..=999 or has no registered phrase.
pub uninterp spec fn canonical_reason_of(status: u16) -> Option<Seq<char>>;

/// Whether an optional string holds exactly the optional text.
pub open spec fn holds(found: Option<String>, text: Option<Seq<char>>) -> bool {
    match found {
        Some(s) => text == Some(s@),
        None => text is None,
    }
}

/// `Uri::host` of the `http` crate, on the URI parsed from `uri` by
/// `Uri::from_str`: the host part of the authority.
#[verifier::external_body]
pub(crate) fn uri_host(uri: &str) -> (r: Option<String>)
    ensures
        holds(r, uri_host_of(uri@)),
{
    uri.parse::<Uri>().ok().and_then(|u| u.host().map(|h| h.to_string()))
}

/// `Uri::port` of the `http` crate, on the URI parsed from `uri` by
/// `Uri::from_str`: the port part of the authority, as it is written.
#[verifier::external_body]
pub(crate) fn uri_port(uri: &str) -> (r: Option<String>)
    ensures
        holds(r, uri_port_of(uri@)),
{
    uri.parse::<Uri>().ok().and_then(|u| u.port().map(|p| p.to_string()))
}

/// `Uri::path_and_query` of the `http` crate, on the URI parsed from `uri` by
/// `Uri::from_str`: the origin-form part of the target.
#[verifier::external_body]
pub(crate) fn uri_path_and_query(uri: &str) -> (r: Option<String>)
    ensures
        holds(r, uri_path_and_query_of(uri@)),
{
    uri.parse::<Uri>().ok().and_then(|u| u.path_and_query().map(|p| p.as_str().to_string()))
}

/// `Uri::path` of the `http` crate, on the URI parsed from `uri` by
/// `Uri::from_str`.
#[verifier::external_body]
pub(crate) fn uri_path(uri: &str) -> (r: Option<String>)
    ensures
        holds(r, uri_path_of(uri@)),
{
    uri.parse::<Uri>().ok().map(|u| u.path().to_string())
}

/// `Uri::from_str` of the `http` crate followed by the URI's `Display`: the
/// target as the crate writes it back, where it accepts the text.
#[verifier::external_body]
pub(crate) fn uri_show(uri: &str) -> (r: Option<String>)
    ensures
        holds(r, uri_shown(uri@)),
{
    uri.parse::<Uri>().ok().map(|u| u.to_string())
}

/// `StatusCode::canonical_reason` of the `http` crate, on the status that
/// `StatusCode::from_u16` makes of the code.
#[verifier::external_body]
pub(crate) fn canonical_reason(status: u16) -> (r: Option<String>)
    ensures
        holds(r, canonical_reason_of(status)),
{
    StatusCode::from_u16(status).ok().and_then(|s| s.canonical_reason()).map(|t| t.to_string())
}

/// Whether a status code announces a redirection.
pub open spec fn is_redirection_code(status: u16) -> bool {
    300 <= status < 400
}

/// Tells whether `status` lies in the redirection class.
pub fn is_redirection(status: u16) -> (r: bool)
    ensures
        r == is_redirection_code(status),
{
    300 <= status && status < 400
}

/// Whether a byte may stand in a header value that is shown as text: a
/// printable ASCII character or a tab.
pub open spec fn is_visible_ascii(b: u8) -> bool {
    (32 <= b && b < 127) || b == 9
}

/// Whether a header value can be shown as text.
pub open spec fn is_text_value(value: Seq<u8>) -> bool {
    forall|i: int| 0 <= i < value.len() ==> is_visible_ascii(#[trigger] value[i])
}

/// The names of the header fields that the proxy looks for are ASCII.
pub proof fn lemma_known_names()
    ensures
        is_ascii_chars("proxy-connection"@),
        is_ascii_chars("content-type"@),
        is_ascii_chars("set-cookie"@),
        is_ascii_chars("cookie"@),
        is_ascii_chars("location"@),
        is_ascii_chars("host"@),
{
    reveal_strlit("proxy-connection");
    reveal_strlit("content-type");
    reveal_strlit("set-cookie");
    reveal_strlit("cookie");
    reveal_strlit("location");
    reveal_strlit("host");
}

} // verus!

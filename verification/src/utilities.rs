use crate::archive::{
    cookies_values, headers_values, Cache, Content, ContentValue, Cookies, CookiesValue, Entries,
    EntryRecord, Headers, HeadersValue, PostData, PostDataValue, Request, RequestRecord, Response,
    ResponseRecord, Timings,
};
use crate::http::{
    canonical_reason, canonical_reason_of, header_values, is_redirection, is_redirection_code,
    is_text_value, is_visible_ascii, lemma_known_names, HeaderField, HeaderFieldValue,
    RequestParts, RequestValue, ResponseMessage, ResponseMessageValue, ResponseParts,
    ResponseValue,
};
use crate::json::{json_of, json_text_of, Json, JsonValue};
use crate::sequences::lemma_filter_push;
use crate::text::{
    byte_len, bytes_as_chars, decode_or_empty, is_ascii_bytes, lemma_ascii_bytes, lossy_text,
    names_match, owned, same_name, string_from_utf8,
};
use chrono::Local;
use cookie::{Cookie, Expiration};
use time::OffsetDateTime;
use uuid::Uuid;
use vstd::prelude::*;
use vstd::string::{StrSliceExecFns, StringExecFns};
use vstd::utf8::*;

verus! {

/// When a cookie ends.
#[derive(Debug, Clone, Copy, PartialEq, Eq, Structural)]
pub enum CookieExpiry {
    /// With the session.
    Session,
    /// At this instant, in seconds of the epoch.
    At(i64),
}

/// The mathematical value of a cookie as it is read from a header.
pub struct CookieValue {
    pub name: Seq<char>,
    pub value: Seq<char>,
    pub path: Option<Seq<char>>,
    pub domain: Option<Seq<char>>,
    pub expires: Option<CookieExpiry>,
    pub http_only: Option<bool>,
    pub secure: Option<bool>,
}

/// A cookie as it is read from a header.
#[derive(Debug, Clone, PartialEq, Eq)]
pub struct CookieParts {
    pub name: String,
    pub value: String,
    pub path: Option<String>,
    pub domain: Option<String>,
    pub expires: Option<CookieExpiry>,
    pub http_only: Option<bool>,
    pub secure: Option<bool>,
}

impl View for CookieParts {
    type V = CookieValue;

    open spec fn view(&self) -> CookieValue {
        CookieValue {
            name: self.name@,
            value: self.value@,
            path: crate::archive::optional_text(self.path),
            domain: crate::archive::optional_text(self.domain),
            expires: self.expires,
            http_only: self.http_only,
            secure: self.secure,
        }
    }
}

/// The cookie that the `cookie` crate reads from a text; none where it rejects
/// the text.
pub uninterp spec fn cookie_of(text: Seq<char>) -> Option<CookieValue>;

/// The text that the `time` crate writes for an instant, given in seconds of
/// the epoch, under a format description; none where it rejects the
/// description or the instant.
pub uninterp spec fn formatted_date_time_of(seconds: i64, description: Seq<char>) -> Option<
    Seq<char>,
>;

/// `Cookie::parse` of the `cookie` crate, and the accessors of the cookie it
/// returns: name, value, path, domain, expiry, and the two flags.
#[verifier::external_body]
pub(crate) fn cookie_parse(text: &str) -> (r: Option<CookieParts>)
    ensures
        match r {
            Some(parts) => cookie_of(text@) == Some(parts@),
            None => cookie_of(text@) is None,
        },
{
    let c = Cookie::parse(text).ok()?;
    let expires = c.expires().map(|e| match e {
        Expiration::DateTime(t) => CookieExpiry::At(t.unix_timestamp()),
        Expiration::Session => CookieExpiry::Session,
    });
    let (name, value) = (c.name().to_string(), c.value().to_string());
    let path = c.path().map(|p| p.to_string());
    let domain = c.domain().map(|d| d.to_string());
    Some(CookieParts { name, value, path, domain, expires, http_only: c.http_only(), secure: c.secure() })
}

/// `OffsetDateTime::format` of the `time` crate, on the instant that
/// `OffsetDateTime::from_unix_timestamp` makes of the seconds and with the
/// items that `format_description::parse_borrowed` reads from the
/// description.
#[verifier::external_body]
pub(crate) fn format_date_time(seconds: i64, description: &str) -> (r: Option<String>)
    ensures
        crate::http::holds(r, formatted_date_time_of(seconds, description@)),
{
    let items = time::format_description::parse_borrowed::<1>(description).ok()?;
    OffsetDateTime::from_unix_timestamp(seconds).ok()?.format(&items).ok()
}

/// How the archive writes the end of a cookie: `session` for a cookie that
/// ends with the session, and otherwise the instant under the description
/// `%F %r %z`.
pub open spec fn expiry_text(expires: Option<CookieExpiry>) -> Option<Seq<char>> {
    match expires {
        None => None,
        Some(CookieExpiry::Session) => Some("session"@),
        Some(CookieExpiry::At(seconds)) => formatted_date_time_of(seconds, "%F %r %z"@),
    }
}

/// The record of a cookie: its fields as they were read, and its end as text.
pub open spec fn cookie_record(cookie: CookieValue) -> CookiesValue {
    CookiesValue {
        name: cookie.name,
        value: cookie.value,
        path: cookie.path,
        domain: cookie.domain,
        expires: expiry_text(cookie.expires),
        http_only: cookie.http_only,
        secure: cookie.secure,
        comment: None,
    }
}

/// Records a cookie that has been read.
pub fn cookie_to_har(cookie: CookieParts) -> (record: Cookies)
    ensures
        record@ == cookie_record(cookie@),
{
    let expires = match cookie.expires {
        None => None,
        Some(CookieExpiry::Session) => Some(owned("session")),
        Some(CookieExpiry::At(seconds)) => format_date_time(seconds, "%F %r %z"),
    };
    Cookies {
        name: cookie.name,
        value: cookie.value,
        path: cookie.path,
        domain: cookie.domain,
        expires,
        http_only: cookie.http_only,
        secure: cookie.secure,
        comment: None,
    }
}

/// Reads a cookie from the value of a header and records it.
///
/// The text must be one from which a cookie can be read.
pub fn parse_cookie(cookie_str: &str) -> (record: Cookies)
    requires
        cookie_of(cookie_str@) is Some,
    ensures
        record@ == cookie_record(cookie_of(cookie_str@).unwrap()),
{
    match cookie_parse(cookie_str) {
        Some(cookie) => cookie_to_har(cookie),
        None => vstd::pervasive::unreached(),
    }
}

/// Reads a cookie from the value of a header and records it; nothing where no
/// cookie can be read from the text.
pub fn try_parse_cookie(cookie_str: &str) -> (r: Option<Cookies>)
    ensures
        match r {
            Some(record) => cookie_of(cookie_str@) matches Some(cookie) && record@ == cookie_record(
                cookie,
            ),
            None => cookie_of(cookie_str@) is None,
        },
{
    if cookie_parse(cookie_str).is_some() {
        Some(parse_cookie(cookie_str))
    } else {
        None
    }
}

/// The document that a body holds: what is read from its text, and null where
/// the body is not UTF-8 or its text is not JSON.
pub open spec fn body_json(body: Seq<u8>) -> JsonValue {
    match json_of(lossy_text(body)) {
        Some(json) => json,
        None => JsonValue::Null,
    }
}

/// Reads the body of a request as JSON.
pub fn convert_body_to_json(body_bytes: Vec<u8>) -> (json: Json)
    ensures
        json@ == body_json(body_bytes@),
{
    let text = decode_or_empty(body_bytes);
    match Json::parse(text.as_str()) {
        Some(json) => json,
        None => Json::Null,
    }
}

/// The place of the prompt in a conversation request: the first of the
/// `parts` of the `content` of the first of the `messages`. The place must
/// exist down to `parts`; where `parts` has no first item the prompt is
/// null.
pub open spec fn prompt_value(json: JsonValue) -> Option<JsonValue> {
    match json.get("messages"@) {
        None => None,
        Some(messages) => match messages.at(0) {
            None => None,
            Some(first) => match first.get("content"@) {
                None => None,
                Some(content) => match content.get("parts"@) {
                    None => None,
                    Some(parts) => match parts.at(0) {
                        Some(prompt) => Some(prompt),
                        None => Some(JsonValue::Null),
                    },
                },
            },
        },
    }
}

/// Whether the prompt of a document can be told: the document has no
/// `messages` at all, or it has the whole place of the prompt.
pub open spec fn prompt_defined(json: JsonValue) -> bool {
    json.get("messages"@) is None || prompt_value(json) is Some
}

/// The prompt of a document as text: the compact JSON of the prompt, and the
/// empty text where the document has no `messages`.
pub open spec fn prompt_text(json: JsonValue) -> Seq<char> {
    match prompt_value(json) {
        Some(prompt) => json_text_of(prompt),
        None => Seq::empty(),
    }
}

/// Tells the prompt of a document as text; nothing where the document has
/// `messages` but lacks a part of the place of the prompt.
pub fn prompt_of(json: &Json) -> (r: Option<String>)
    ensures
        match r {
            Some(text) => prompt_defined(json@) && text@ == prompt_text(json@),
            None => !prompt_defined(json@),
        },
{
    match json.get("messages") {
        None => Some(String::new()),
        Some(messages) => match messages.at(0) {
            None => None,
            Some(first) => match first.get("content") {
                None => None,
                Some(content) => match content.get("parts") {
                    None => None,
                    Some(parts) => match parts.at(0) {
                        Some(prompt) => Some(prompt.to_text()),
                        None => Some(Json::Null.to_text()),
                    },
                },
            },
        },
    }
}

/// Reads the prompt off the body of a conversation request.
///
/// The body must be one whose prompt can be told: see `prompt_defined`.
pub fn parse_request(body_bytes: Vec<u8>) -> (prompt: String)
    requires
        prompt_defined(body_json(body_bytes@)),
    ensures
        prompt@ == prompt_text(body_json(body_bytes@)),
{
    let json = convert_body_to_json(body_bytes);
    match prompt_of(&json) {
        Some(prompt) => prompt,
        None => vstd::pervasive::unreached(),
    }
}

/// Reads the prompt off the body of a conversation request; nothing where
/// the prompt of the body cannot be told.
pub fn try_parse_request(body_bytes: Vec<u8>) -> (r: Option<String>)
    ensures
        match r {
            Some(prompt) => prompt_defined(body_json(body_bytes@)) && prompt@ == prompt_text(
                body_json(body_bytes@),
            ),
            None => !prompt_defined(body_json(body_bytes@)),
        },
{
    let copy = body_bytes.clone();
    assert(copy@ =~= body_bytes@);
    let json = convert_body_to_json(copy);
    if prompt_of(&json).is_some() {
        Some(parse_request(body_bytes))
    } else {
        None
    }
}

/// The text of a header value that is made of visible ASCII: each byte as the
/// character of its code.
pub open spec fn ascii_text(bytes: Seq<u8>) -> Seq<char> {
    bytes_as_chars(bytes)
}

/// Whether every header value can be shown as text.
pub open spec fn all_text_values(headers: Seq<HeaderFieldValue>) -> bool {
    forall|i: int| 0 <= i < headers.len() ==> is_text_value(#[trigger] headers[i].value)
}

/// The headers as the archive records them: each name with its value as text.
pub open spec fn recorded_headers(headers: Seq<HeaderFieldValue>) -> Seq<HeadersValue> {
    headers.map_values(
        |h: HeaderFieldValue|
            HeadersValue { name: h.name, value: ascii_text(h.value), comment: None },
    )
}

/// The size of the headers: the bytes of every name and of every value.
pub open spec fn header_bytes(headers: Seq<HeaderFieldValue>) -> int
    decreases headers.len(),
{
    if headers.len() == 0 {
        0
    } else {
        header_bytes(headers.drop_last()) + byte_len(headers.last().name)
            + headers.last().value.len()
    }
}

/// The value of the first header of a name; none where no header has the
/// name.
pub open spec fn first_value(headers: Seq<HeaderFieldValue>, name: Seq<char>) -> Option<Seq<u8>>
    decreases headers.len(),
{
    if headers.len() == 0 {
        None
    } else if same_name(headers[0].name, name) {
        Some(headers[0].value)
    } else {
        first_value(headers.drop_first(), name)
    }
}

/// The headers of a name, in their order.
pub open spec fn named(headers: Seq<HeaderFieldValue>, name: Seq<char>) -> Seq<HeaderFieldValue> {
    headers.filter(|h: HeaderFieldValue| same_name(h.name, name))
}

/// Whether a cookie can be read from every header of a name.
pub open spec fn cookies_readable(headers: Seq<HeaderFieldValue>, name: Seq<char>) -> bool {
    forall|i: int|
        0 <= i < headers.len() && same_name((#[trigger] headers[i]).name, name) ==> cookie_of(
            ascii_text(headers[i].value),
        ) is Some
}

/// The cookies as the archive records them: one for each header of the name,
/// in their order.
pub open spec fn recorded_cookies(headers: Seq<HeaderFieldValue>, name: Seq<char>) -> Seq<
    CookiesValue,
> {
    named(headers, name).map_values(
        |h: HeaderFieldValue| cookie_record(cookie_of(ascii_text(h.value)).unwrap()),
    )
}

/// The media type that the headers declare: the text of the first
/// `content-type`, and the empty text where there is none.
pub open spec fn mime_type(headers: Seq<HeaderFieldValue>) -> Seq<char> {
    match first_value(headers, "content-type"@) {
        Some(value) => ascii_text(value),
        None => Seq::empty(),
    }
}

/// Whether the headers of a message can be recorded: every value is text, a
/// cookie can be read from every header of the cookie name, and the size of
/// the headers fits the 64-bit count of the archive.
pub open spec fn recordable(headers: Seq<HeaderFieldValue>, cookie_name: Seq<char>) -> bool {
    &&& all_text_values(headers)
    &&& cookies_readable(headers, cookie_name)
    &&& header_bytes(headers) <= i64::MAX
}

/// Bytes of visible ASCII are valid UTF-8 and decode to the characters of
/// their codes.
pub proof fn lemma_ascii_text(bytes: Seq<u8>)
    requires
        is_text_value(bytes),
    ensures
        valid_utf8(bytes),
        decode_utf8(bytes) == ascii_text(bytes),
        byte_len(ascii_text(bytes)) == bytes.len(),
{
    assert(is_ascii_bytes(bytes)) by {
        assert forall|i: int| 0 <= i < bytes.len() implies #[trigger] bytes[i] < 128 by {
            assert(is_visible_ascii(bytes[i]));
        }
    }
    lemma_ascii_bytes(bytes);
}

/// The size of the first headers is no more than the size of all.
pub proof fn lemma_header_bytes_rising(headers: Seq<HeaderFieldValue>, i: int)
    requires
        0 <= i <= headers.len(),
    ensures
        0 <= header_bytes(headers.take(i)) <= header_bytes(headers),
    decreases headers.len() - i,
{
    if i == headers.len() {
        assert(headers.take(i) =~= headers);
        lemma_header_bytes_nonnegative(headers);
    } else {
        lemma_header_bytes_rising(headers, i + 1);
        assert(headers.take(i + 1).drop_last() =~= headers.take(i));
        lemma_header_bytes_nonnegative(headers.take(i));
    }
}

/// The size of headers is not negative.
pub proof fn lemma_header_bytes_nonnegative(headers: Seq<HeaderFieldValue>)
    ensures
        0 <= header_bytes(headers),
    decreases headers.len(),
{
    if headers.len() > 0 {
        lemma_header_bytes_nonnegative(headers.drop_last());
    }
}

/// Whether a header value can be shown as text.
pub fn is_text(value: &Vec<u8>) -> (r: bool)
    ensures
        r == is_text_value(value@),
{
    let mut i: usize = 0;
    while i < value.len()
        invariant
            i <= value.len(),
            forall|k: int| 0 <= k < i ==> is_visible_ascii(#[trigger] value@[k]),
        decreases value.len() - i,
    {
        let b = value[i];
        if !((32 <= b && b < 127) || b == 9) {
            return false;
        }
        i = i + 1;
    }
    true
}

/// Shows a header value as text.
pub fn value_text(value: &Vec<u8>) -> (text: String)
    requires
        is_text_value(value@),
    ensures
        text@ == ascii_text(value@),
{
    let copy = value.clone();
    assert(copy@ =~= value@);
    proof {
        lemma_ascii_text(value@);
    }
    match string_from_utf8(copy) {
        Some(text) => text,
        None => vstd::pervasive::unreached(),
    }
}

/// Records the headers of a message.
pub fn record_headers(headers: &Vec<HeaderField>) -> (records: Vec<Headers>)
    requires
        all_text_values(header_values(headers@)),
    ensures
        headers_values(records@) == recorded_headers(header_values(headers@)),
{
    let mut records: Vec<Headers> = Vec::new();
    let mut i: usize = 0;
    while i < headers.len()
        invariant
            i <= headers.len(),
            all_text_values(header_values(headers@)),
            records@.len() == i,
            forall|k: int|
                0 <= k < i ==> (#[trigger] records@[k])@ == (HeadersValue {
                    name: headers@[k].name@,
                    value: ascii_text(headers@[k].value@),
                    comment: None,
                }),
        decreases headers.len() - i,
    {
        assert(is_text_value(header_values(headers@)[i as int].value));
        records.push(
            Headers {
                name: headers[i].name.clone(),
                value: value_text(&headers[i].value),
                comment: None,
            },
        );
        i = i + 1;
    }
    assert(headers_values(records@) =~= recorded_headers(header_values(headers@)));
    records
}

/// Counts the bytes of the names and values of the headers.
pub fn headers_size(headers: &Vec<HeaderField>) -> (size: i64)
    requires
        header_bytes(header_values(headers@)) <= i64::MAX,
    ensures
        size == header_bytes(header_values(headers@)),
{
    let mut size: i64 = 0;
    let mut i: usize = 0;
    assert(header_values(headers@).take(0) =~= Seq::empty());
    while i < headers.len()
        invariant
            i <= headers.len(),
            header_bytes(header_values(headers@)) <= i64::MAX,
            size == header_bytes(header_values(headers@).take(i as int)),
        decreases headers.len() - i,
    {
        proof {
            let all = header_values(headers@);
            lemma_header_bytes_rising(all, i + 1);
            lemma_header_bytes_rising(all, i as int);
            assert(all.take(i + 1).drop_last() =~= all.take(i as int));
            assert(all.take(i + 1).last() == headers@[i as int]@);
        }
        let name_len = headers[i].name.as_str().as_bytes().len();
        let value_len = headers[i].value.len();
        size = size + (name_len as i64 + value_len as i64);
        i = i + 1;
    }
    assert(header_values(headers@).take(headers.len() as int) =~= header_values(headers@));
    size
}

/// The text of the first header of a name.
pub fn first_header<'a>(headers: &'a Vec<HeaderField>, name: &str) -> (found: Option<&'a Vec<u8>>)
    requires
        is_ascii_chars(name@),
    ensures
        match found {
            Some(value) => {
                &&& first_value(header_values(headers@), name@) == Some(value@)
                &&& exists|k: int| 0 <= k < headers@.len() && headers@[k].value@ == value@
            },
            None => first_value(header_values(headers@), name@) is None,
        },
{
    let mut i: usize = 0;
    assert(header_values(headers@).skip(0) =~= header_values(headers@));
    while i < headers.len()
        invariant
            i <= headers.len(),
            is_ascii_chars(name@),
            first_value(header_values(headers@), name@) == first_value(
                header_values(headers@).skip(i as int),
                name@,
            ),
        decreases headers.len() - i,
    {
        proof {
            let rest = header_values(headers@).skip(i as int);
            assert(rest[0] == headers@[i as int]@);
            assert(rest.drop_first() =~= header_values(headers@).skip(i + 1));
        }
        if names_match(headers[i].name.as_str(), name) {
            return Some(&headers[i].value);
        }
        i = i + 1;
    }
    assert(header_values(headers@).skip(headers.len() as int).len() == 0);
    None
}

/// Records the cookies of a message: one for each header of the name.
pub fn record_cookies(headers: &Vec<HeaderField>, name: &str) -> (records: Vec<Cookies>)
    requires
        is_ascii_chars(name@),
        all_text_values(header_values(headers@)),
        cookies_readable(header_values(headers@), name@),
    ensures
        cookies_values(records@) == recorded_cookies(header_values(headers@), name@),
{
    let mut records: Vec<Cookies> = Vec::new();
    let mut i: usize = 0;
    let ghost wanted = |h: HeaderFieldValue| same_name(h.name, name@);
    let ghost record = |h: HeaderFieldValue|
        cookie_record(cookie_of(ascii_text(h.value)).unwrap());
    proof {
        reveal(Seq::filter);
        assert(header_values(headers@).take(0) =~= Seq::empty());
        assert(cookies_values(records@) =~= Seq::empty());
    }
    while i < headers.len()
        invariant
            i <= headers.len(),
            all_text_values(header_values(headers@)),
            cookies_readable(header_values(headers@), name@),
            is_ascii_chars(name@),
            wanted == |h: HeaderFieldValue| same_name(h.name, name@),
            record == |h: HeaderFieldValue|
                cookie_record(cookie_of(ascii_text(h.value)).unwrap()),
            cookies_values(records@) == header_values(headers@).take(i as int).filter(
                wanted,
            ).map_values(record),
        decreases headers.len() - i,
    {
        let ghost all = header_values(headers@);
        let ghost before = all.take(i as int);
        let ghost old_records = records@;
        proof {
            assert(all.take(i + 1) =~= before.push(all[i as int]));
            lemma_filter_push(before, all[i as int], wanted);
            assert(all[i as int] == headers@[i as int]@);
            assert(is_text_value(all[i as int].value));
        }
        if names_match(headers[i].name.as_str(), name) {
            let text = value_text(&headers[i].value);
            records.push(parse_cookie(text.as_str()));
            assert(cookies_values(records@) =~= cookies_values(old_records).push(
                record(all[i as int]),
            ));
            assert(before.filter(wanted).push(all[i as int]).map_values(record)
                =~= before.filter(wanted).map_values(record).push(record(all[i as int])));
        }
        i = i + 1;
    }
    assert(header_values(headers@).take(headers.len() as int) =~= header_values(headers@));
    records
}

/// Whether the headers of a message can be recorded.
pub fn can_record(headers: &Vec<HeaderField>, cookie_name: &str) -> (r: bool)
    requires
        is_ascii_chars(cookie_name@),
    ensures
        r == recordable(header_values(headers@), cookie_name@),
{
    let mut size: i64 = 0;
    let mut i: usize = 0;
    let ghost all = header_values(headers@);
    assert(all.take(0) =~= Seq::empty());
    while i < headers.len()
        invariant
            i <= headers.len(),
            is_ascii_chars(cookie_name@),
            all == header_values(headers@),
            forall|k: int| 0 <= k < i ==> is_text_value(#[trigger] all[k].value),
            forall|k: int|
                0 <= k < i && same_name((#[trigger] all[k]).name, cookie_name@) ==> cookie_of(
                    ascii_text(all[k].value),
                ) is Some,
            0 <= size == header_bytes(all.take(i as int)),
        decreases headers.len() - i,
    {
        proof {
            lemma_header_bytes_rising(all, i + 1);
            assert(all.take(i + 1).drop_last() =~= all.take(i as int));
            assert(all.take(i + 1).last() == headers@[i as int]@);
            assert(all[i as int] == headers@[i as int]@);
        }
        if !is_text(&headers[i].value) {
            return false;
        }
        if names_match(headers[i].name.as_str(), cookie_name) {
            let text = value_text(&headers[i].value);
            if cookie_parse(text.as_str()).is_none() {
                return false;
            }
        }
        let name_len = headers[i].name.as_str().as_bytes().len();
        let value_len = headers[i].value.len();
        if size as u128 + name_len as u128 + value_len as u128 > i64::MAX as u128 {
            return false;
        }
        size = size + (name_len as i64 + value_len as i64);
        i = i + 1;
    }
    assert(all.take(headers.len() as int) =~= all);
    true
}

/// The record of a request: its method, its target as the URL, the fixed
/// version `HTTP/1.1`, its headers and cookies, and its body as text. A body
/// that is not UTF-8 is recorded as empty, and only a body that is not empty
/// is recorded as posted data.
pub open spec fn request_record(parts: RequestValue, body: Seq<u8>) -> RequestRecord {
    let text = lossy_text(body);
    RequestRecord {
        method: parts.method,
        url: parts.uri,
        http_version: "HTTP/1.1"@,
        cookies: recorded_cookies(parts.headers, "cookie"@),
        headers: recorded_headers(parts.headers),
        query_string: Seq::empty(),
        post_data: if byte_len(text) as i64 > 0 {
            Some(
                PostDataValue {
                    mime_type: mime_type(parts.headers),
                    text: Some(text),
                    params: None,
                    comment: None,
                },
            )
        } else {
            None
        },
        headers_size: header_bytes(parts.headers) as i64,
        body_size: byte_len(text) as i64,
        comment: None,
    }
}

/// The media type that the headers declare.
pub fn declared_mime_type(headers: &Vec<HeaderField>) -> (mime: String)
    requires
        all_text_values(header_values(headers@)),
    ensures
        mime@ == mime_type(header_values(headers@)),
{
    proof {
        lemma_known_names();
    }
    match first_header(headers, "content-type") {
        Some(value) => {
            proof {
                let k = choose|k: int| 0 <= k < headers@.len() && headers@[k].value@ == value@;
                assert(is_text_value(header_values(headers@)[k].value));
            }
            value_text(value)
        },
        None => String::new(),
    }
}

/// Records a request for the archive.
///
/// The headers must be such as can be recorded: see `recordable`.
pub fn copy_from_http_request_to_har(parts: &RequestParts, body: Vec<u8>) -> (record: Request)
    requires
        recordable(parts@.headers, "cookie"@),
    ensures
        record@ == request_record(parts@, body@),
{
    proof {
        lemma_known_names();
    }
    let headers = record_headers(&parts.headers);
    let size = headers_size(&parts.headers);
    let cookies = record_cookies(&parts.headers, "cookie");
    let text = decode_or_empty(body);
    let body_size = #[verifier::truncate] (text.as_str().as_bytes().len() as i64);
    let mime = declared_mime_type(&parts.headers);
    let post_data = if body_size > 0 {
        Some(PostData { mime_type: mime, text: Some(text), params: None, comment: None })
    } else {
        None
    };
    let record = Request {
        method: parts.method.clone(),
        url: parts.uri.clone(),
        http_version: owned("HTTP/1.1"),
        cookies,
        headers,
        query_string: Vec::new(),
        post_data,
        headers_size: size,
        body_size,
        comment: None,
    };
    assert(record@.query_string =~= Seq::empty());
    record
}

/// Records a request for the archive; nothing where its headers cannot be
/// recorded.
pub fn try_copy_from_http_request_to_har(parts: &RequestParts, body: Vec<u8>) -> (r: Option<
    Request,
>)
    ensures
        match r {
            Some(record) => recordable(parts@.headers, "cookie"@) && record@ == request_record(
                parts@,
                body@,
            ),
            None => !recordable(parts@.headers, "cookie"@),
        },
{
    proof {
        lemma_known_names();
    }
    if can_record(&parts.headers, "cookie") {
        Some(copy_from_http_request_to_har(parts, body))
    } else {
        None
    }
}

/// The address that a response redirects to: the text of its first
/// `location` where its status announces a redirection, and the empty text
/// otherwise.
pub open spec fn redirect_target(parts: ResponseValue) -> Seq<char> {
    if is_redirection_code(parts.status) {
        match first_value(parts.headers, "location"@) {
            Some(value) => ascii_text(value),
            None => Seq::empty(),
        }
    } else {
        Seq::empty()
    }
}

/// The reason phrase of a status: the registered one, and the empty text
/// where none is registered.
pub open spec fn status_text(status: u16) -> Seq<char> {
    match canonical_reason_of(status) {
        Some(reason) => reason,
        None => Seq::empty(),
    }
}

/// The record of a response: its status and reason, the fixed version
/// `HTTP/1.1`, its headers and cookies, where it redirects to, and its body
/// as text. A body that is not UTF-8 is recorded as empty.
pub open spec fn response_record(parts: ResponseValue, body: Seq<u8>) -> ResponseRecord {
    let text = lossy_text(body);
    ResponseRecord {
        status: parts.status as i64,
        status_text: status_text(parts.status),
        http_version: "HTTP/1.1"@,
        cookies: recorded_cookies(parts.headers, "set-cookie"@),
        headers: recorded_headers(parts.headers),
        content: ContentValue {
            size: byte_len(text) as i64,
            compression: None,
            mime_type: Some(mime_type(parts.headers)),
            text: Some(text),
            encoding: None,
            comment: None,
        },
        redirect_url: Some(redirect_target(parts)),
        headers_size: header_bytes(parts.headers) as i64,
        body_size: byte_len(text) as i64,
        comment: None,
    }
}

/// Records a response for the archive.
///
/// The headers must be such as can be recorded: see `recordable`.
pub fn copy_from_http_response_to_har(parts: &ResponseParts, body: Vec<u8>) -> (record: Response)
    requires
        recordable(parts@.headers, "set-cookie"@),
    ensures
        record@ == response_record(parts@, body@),
{
    proof {
        lemma_known_names();
    }
    let headers = record_headers(&parts.headers);
    let size = headers_size(&parts.headers);
    let cookies = record_cookies(&parts.headers, "set-cookie");
    let mime = declared_mime_type(&parts.headers);
    let redirect_url = if is_redirection(parts.status) {
        match first_header(&parts.headers, "location") {
            Some(value) => {
                proof {
                    let k = choose|k: int|
                        0 <= k < parts.headers@.len() && parts.headers@[k].value@ == value@;
                    assert(is_text_value(header_values(parts.headers@)[k].value));
                }
                value_text(value)
            },
            None => String::new(),
        }
    } else {
        String::new()
    };
    let text = decode_or_empty(body);
    let body_size = #[verifier::truncate] (text.as_str().as_bytes().len() as i64);
    let reason = match canonical_reason(parts.status) {
        Some(reason) => reason,
        None => String::new(),
    };
    Response {
        status: parts.status as i64,
        status_text: reason,
        http_version: owned("HTTP/1.1"),
        cookies,
        headers,
        content: Content {
            size: body_size,
            compression: None,
            mime_type: Some(mime),
            text: Some(text),
            encoding: None,
            comment: None,
        },
        redirect_url: Some(redirect_url),
        headers_size: size,
        body_size,
        comment: None,
    }
}

/// Records a response for the archive; nothing where its headers cannot be
/// recorded.
pub fn try_copy_from_http_response_to_har(parts: &ResponseParts, body: Vec<u8>) -> (r: Option<
    Response,
>)
    ensures
        match r {
            Some(record) => recordable(parts@.headers, "set-cookie"@) && record@
                == response_record(parts@, body@),
            None => !recordable(parts@.headers, "set-cookie"@),
        },
{
    proof {
        lemma_known_names();
    }
    if can_record(&parts.headers, "set-cookie") {
        Some(copy_from_http_response_to_har(parts, body))
    } else {
        None
    }
}

/// `Uuid::new_v4` of the `uuid` crate, written as text: a random identifier,
/// of which nothing is promised.
#[verifier::external_body]
pub(crate) fn fresh_uuid() -> (id: String) {
    Uuid::new_v4().to_string()
}

/// `Local::now` of the `chrono` crate, written under a format: the time of the
/// machine's clock in its time zone, of which nothing is promised. The format
/// is the one of the archive's entries, ISO 8601 with milliseconds and the
/// offset of the zone, which the crate accepts.
#[verifier::external_body]
pub(crate) fn local_time(format: &str) -> (now: String)
    requires
        format@ == "%Y-%m-%dT%H:%M:%S%.3f%:z"@,
{
    Local::now().format(format).to_string()
}

/// The identifier of the message that a blocked request answers: the `id` of
/// the first of its `messages`.
pub open spec fn parent_id(json: JsonValue) -> Option<JsonValue> {
    match json.get("messages"@) {
        None => None,
        Some(messages) => match messages.at(0) {
            None => None,
            Some(first) => first.get("id"@),
        },
    }
}

/// The conversation that a blocked request belongs to: its own
/// `conversation_id`, or a fresh one where it names none.
pub open spec fn conversation_id(json: JsonValue, fresh: Seq<char>) -> JsonValue {
    match json.get("conversation_id"@) {
        Some(id) => id,
        None => JsonValue::String(fresh),
    }
}

/// The message that tells the user why the request was not sent.
pub open spec fn refusal_message(
    message_id: Seq<char>,
    parent: JsonValue,
    conversation: JsonValue,
) -> JsonValue {
    let author = JsonValue::object().with("role"@, JsonValue::String("assistant"@)).with(
        "name"@,
        JsonValue::Null,
    ).with("metadata"@, JsonValue::object());
    let content = JsonValue::object().with("content_type"@, JsonValue::String("text"@)).with(
        "parts"@,
        JsonValue::array().with_item(
            JsonValue::String(
                "Impossible d'executer votre requ\u{ea}te car elle contient des informations compromettantes pour votre entreprise !"@,
            ),
        ),
    );
    let finish = JsonValue::object().with("type"@, JsonValue::String("stop"@)).with(
        "stop_tokens"@,
        JsonValue::array().with_item(JsonValue::Number("200002"@)),
    );
    let metadata = JsonValue::object().with("citations"@, JsonValue::array()).with(
        "content_references"@,
        JsonValue::array(),
    ).with("gizmo_id"@, JsonValue::Null).with("message_type"@, JsonValue::String("next"@)).with(
        "model_slug"@,
        JsonValue::String("gpt-4o"@),
    ).with("default_model_slug"@, JsonValue::String("auto"@)).with(
        "pad"@,
        JsonValue::String("AAAAAAAAAAAAAAAAAAAAAA"@),
    ).with("parent_id"@, parent).with("finish_details"@, finish).with(
        "is_complete"@,
        JsonValue::Bool(true),
    ).with("model_switcher_deny"@, JsonValue::array());
    let message = JsonValue::object().with("id"@, JsonValue::String(message_id)).with(
        "author"@,
        author,
    ).with("create_time"@, JsonValue::Null).with("update_time"@, JsonValue::Null).with(
        "content"@,
        content,
    ).with("status"@, JsonValue::String("finished_successfully"@)).with(
        "end_turn"@,
        JsonValue::Bool(true),
    ).with("weight"@, JsonValue::Number("1.0"@)).with("metadata"@, metadata).with(
        "recipient"@,
        JsonValue::String("all"@),
    ).with("channel"@, JsonValue::Null);
    JsonValue::object().with("message"@, message).with("conversation_id"@, conversation).with(
        "error"@,
        JsonValue::Null,
    )
}

/// The message that names a new conversation; for a conversation that the
/// request named itself, the empty string.
pub open spec fn title_message(is_new: bool, conversation: JsonValue) -> JsonValue {
    if is_new {
        JsonValue::object().with("type"@, JsonValue::String("title_generation"@)).with(
            "title"@,
            JsonValue::String("New chat"@),
        ).with("conversation_id"@, conversation)
    } else {
        JsonValue::String(Seq::empty())
    }
}

/// The message that closes the details of the conversation.
pub open spec fn details_message(conversation: JsonValue) -> JsonValue {
    JsonValue::object().with("type"@, JsonValue::String("conversation_detail_metadata"@)).with(
        "banner_info"@,
        JsonValue::Null,
    ).with("blocked_features"@, JsonValue::array()).with("model_limits"@, JsonValue::array()).with(
        "default_model_slug"@,
        JsonValue::String("auto"@),
    ).with("conversation_id"@, conversation)
}

/// One frame of an event stream: `data: `, the compact JSON of the value, and
/// an empty line.
pub open spec fn frame(value: JsonValue) -> Seq<char> {
    "data: "@ + json_text_of(value) + "\n\n"@
}

/// The body of the answer to a blocked request: the refusal, the title and
/// the details, each in a frame, and the closing frame `data: [DONE]`. It is
/// empty where the request names no message that the refusal could answer.
pub open spec fn sse_body(json: JsonValue, fresh_conversation: Seq<char>, message_id: Seq<char>) -> Seq<
    char,
> {
    match parent_id(json) {
        None => Seq::empty(),
        Some(parent) => {
            let conversation = conversation_id(json, fresh_conversation);
            let is_new = json.get("conversation_id"@) is None;
            frame(refusal_message(message_id, parent, conversation)) + frame(
                title_message(is_new, conversation),
            ) + frame(details_message(conversation)) + "data: [DONE]\n\n"@
        },
    }
}

/// The answer to a blocked request: status 200, the media type of an event
/// stream, and the body that `sse_body` gives, in UTF-8.
pub open spec fn blocked_response_value(
    json: JsonValue,
    fresh_conversation: Seq<char>,
    message_id: Seq<char>,
) -> ResponseMessageValue {
    ResponseMessageValue {
        parts: ResponseValue {
            status: 200,
            headers: seq![
                HeaderFieldValue {
                    name: "content-type"@,
                    value: encode_utf8("text/event-stream"@),
                },
            ],
        },
        body: encode_utf8(sse_body(json, fresh_conversation, message_id)),
    }
}

/// Builds the refusal.
pub fn build_refusal(message_id: String, parent: Json, conversation: Json) -> (message: Json)
    ensures
        message@ == refusal_message(message_id@, parent@, conversation@),
{
    let author = Json::object().with("role", Json::string("assistant")).with(
        "name",
        Json::Null,
    ).with("metadata", Json::object());
    let content = Json::object().with("content_type", Json::string("text")).with(
        "parts",
        Json::array().with_item(
            Json::string(
                "Impossible d'executer votre requ\u{ea}te car elle contient des informations compromettantes pour votre entreprise !",
            ),
        ),
    );
    let finish = Json::object().with("type", Json::string("stop")).with(
        "stop_tokens",
        Json::array().with_item(Json::number("200002")),
    );
    let metadata = Json::object().with("citations", Json::array()).with(
        "content_references",
        Json::array(),
    ).with("gizmo_id", Json::Null).with("message_type", Json::string("next")).with(
        "model_slug",
        Json::string("gpt-4o"),
    ).with("default_model_slug", Json::string("auto")).with(
        "pad",
        Json::string("AAAAAAAAAAAAAAAAAAAAAA"),
    ).with("parent_id", parent).with("finish_details", finish).with(
        "is_complete",
        Json::Bool(true),
    ).with("model_switcher_deny", Json::array());
    let message = Json::object().with("id", Json::String(message_id)).with("author", author).with(
        "create_time",
        Json::Null,
    ).with("update_time", Json::Null).with("content", content).with(
        "status",
        Json::string("finished_successfully"),
    ).with("end_turn", Json::Bool(true)).with("weight", Json::number("1.0")).with(
        "metadata",
        metadata,
    ).with("recipient", Json::string("all")).with("channel", Json::Null);
    Json::object().with("message", message).with("conversation_id", conversation).with(
        "error",
        Json::Null,
    )
}

/// Builds the title message.
pub fn build_title(is_new: bool, conversation: Json) -> (message: Json)
    ensures
        message@ == title_message(is_new, conversation@),
{
    if is_new {
        Json::object().with("type", Json::string("title_generation")).with(
            "title",
            Json::string("New chat"),
        ).with("conversation_id", conversation)
    } else {
        Json::String(String::new())
    }
}

/// Builds the details message.
pub fn build_details(conversation: Json) -> (message: Json)
    ensures
        message@ == details_message(conversation@),
{
    Json::object().with("type", Json::string("conversation_detail_metadata")).with(
        "banner_info",
        Json::Null,
    ).with("blocked_features", Json::array()).with("model_limits", Json::array()).with(
        "default_model_slug",
        Json::string("auto"),
    ).with("conversation_id", conversation)
}

/// Writes a value as one frame at the end of a stream.
pub fn push_frame(stream: &mut String, value: &Json)
    ensures
        final(stream)@ == old(stream)@ + frame(value@),
{
    let ghost before = stream@;
    stream.append("data: ");
    let text = value.to_text();
    stream.append(text.as_str());
    stream.append("\n\n");
    assert(stream@ =~= before + frame(value@));
}

/// Finds the identifier of the message that a blocked request answers.
pub fn find_parent_id(json: &Json) -> (r: Option<&Json>)
    ensures
        match r {
            Some(id) => parent_id(json@) == Some(id@),
            None => parent_id(json@) is None,
        },
{
    match json.get("messages") {
        None => None,
        Some(messages) => match messages.at(0) {
            None => None,
            Some(first) => first.get("id"),
        },
    }
}

/// Writes the body of the answer to a blocked request.
pub fn write_sse_body(json: &Json, fresh_conversation: String, message_id: String) -> (body:
    String)
    ensures
        body@ == sse_body(json@, fresh_conversation@, message_id@),
{
    let mut body = String::new();
    match find_parent_id(json) {
        None => {},
        Some(parent) => {
            let (is_new, conversation) = match json.get("conversation_id") {
                Some(id) => (false, id.duplicate()),
                None => (true, Json::String(fresh_conversation)),
            };
            let refusal = build_refusal(message_id, parent.duplicate(), conversation.duplicate());
            let title = build_title(is_new, conversation.duplicate());
            let details = build_details(conversation);
            push_frame(&mut body, &refusal);
            push_frame(&mut body, &title);
            push_frame(&mut body, &details);
            body.append("data: [DONE]\n\n");
            assert(body@ =~= sse_body(json@, fresh_conversation@, message_id@));
        },
    }
    body
}

/// Builds the answer to a blocked request from the document of its body, a
/// fresh identifier for the conversation, used where the request names none,
/// and the identifier of the refusal.
pub fn blocked_response(json: &Json, fresh_conversation: String, message_id: String) -> (response:
    ResponseMessage)
    ensures
        response@ == blocked_response_value(json@, fresh_conversation@, message_id@),
{
    let body = write_sse_body(json, fresh_conversation, message_id);
    let header = HeaderField {
        name: owned("content-type"),
        value: "text/event-stream".as_bytes_vec(),
    };
    let mut headers: Vec<HeaderField> = Vec::new();
    headers.push(header);
    let response = ResponseMessage {
        parts: ResponseParts { status: 200, headers },
        body: body.as_str().as_bytes_vec(),
    };
    assert(response@.parts.headers =~= blocked_response_value(
        json@,
        fresh_conversation@,
        message_id@,
    ).parts.headers);
    response
}

/// Answers a blocked request with an event stream that tells the user why it
/// was not sent.
///
/// The two identifiers that the answer may carry are drawn at random; but for
/// them the answer is what `blocked_response_value` says.
pub fn create_response(body_bytes: Vec<u8>) -> (response: ResponseMessage)
    ensures
        exists|fresh_conversation: Seq<char>, message_id: Seq<char>|
            response@ == #[trigger] blocked_response_value(
                body_json(body_bytes@),
                fresh_conversation,
                message_id,
            ),
{
    let json = convert_body_to_json(body_bytes);
    let fresh_conversation = fresh_uuid();
    let message_id = fresh_uuid();
    blocked_response(&json, fresh_conversation, message_id)
}

/// The entry of the archive for a blocked request: when it was blocked, no
/// time spent in any phase, the request, the answer that was given in place
/// of the origin's, and the address of the client; nothing of pages, cache
/// or connection.
pub open spec fn blocked_entry(
    request: RequestValue,
    body: Seq<u8>,
    client: Seq<char>,
    started: Seq<char>,
    response: ResponseMessageValue,
) -> EntryRecord {
    EntryRecord {
        pageref: None,
        started_date_time: started,
        time: 0,
        request: request_record(request, body),
        response: response_record(response.parts, response.body),
        cache: Cache::unknown(),
        timings: Timings::zero(),
        server_ip_address: Some(client),
        connection: None,
        comment: None,
    }
}

/// The headers of the answer to a blocked request can be recorded.
pub proof fn lemma_blocked_response_recordable(
    json: JsonValue,
    fresh_conversation: Seq<char>,
    message_id: Seq<char>,
)
    ensures
        recordable(
            blocked_response_value(json, fresh_conversation, message_id).parts.headers,
            "set-cookie"@,
        ),
{
    let headers = blocked_response_value(json, fresh_conversation, message_id).parts.headers;
    let name = "content-type"@;
    let value = "text/event-stream"@;
    reveal_strlit("content-type");
    reveal_strlit("text/event-stream");
    reveal_strlit("set-cookie");
    assert(is_ascii_chars(name));
    assert(is_ascii_chars(value));
    is_ascii_chars_encode_utf8(name);
    is_ascii_chars_encode_utf8(value);
    assert(is_text_value(encode_utf8(value))) by {
        assert forall|i: int| 0 <= i < encode_utf8(value).len() implies is_visible_ascii(
            #[trigger] encode_utf8(value)[i],
        ) by {
            assert(value[i] as u8 == encode_utf8(value)[i]);
        }
    }
    assert(headers.len() == 1);
    assert(!same_name(headers[0].name, "set-cookie"@)) by {
        assert(name.len() == 12);
        assert("set-cookie"@.len() == 10);
    }
    assert(headers.drop_last() =~= Seq::empty());
    assert(header_bytes(headers) == header_bytes(headers.drop_last()) + byte_len(name)
        + encode_utf8(value).len());
    assert(header_bytes(headers.drop_last()) == 0);
}

/// Writes the entry of the archive for a blocked request.
///
/// The headers of the request and of the answer must be such as can be
/// recorded: see `recordable`.
pub fn record_blocked(
    req_parts: &RequestParts,
    body_bytes: Vec<u8>,
    ip_client: String,
    started_date_time: String,
    response: &ResponseMessage,
) -> (entry: Entries)
    requires
        recordable(req_parts@.headers, "cookie"@),
        recordable(response@.parts.headers, "set-cookie"@),
    ensures
        entry@ == blocked_entry(
            req_parts@,
            body_bytes@,
            ip_client@,
            started_date_time@,
            response@,
        ),
{
    let request = copy_from_http_request_to_har(req_parts, body_bytes);
    let answer_body = response.body.clone();
    assert(answer_body@ =~= response.body@);
    let answer = copy_from_http_response_to_har(&response.parts, answer_body);
    Entries {
        pageref: None,
        started_date_time,
        time: 0,
        request,
        response: answer,
        cache: Cache::none(),
        timings: Timings::none(),
        server_ip_address: Some(ip_client),
        connection: None,
        comment: None,
    }
}

/// Answers a blocked request and writes its entry for the archive.
///
/// The headers of the request must be such as can be recorded: see
/// `recordable`. The answer carries identifiers drawn at random and the entry
/// the time of the clock; but for them the two are what
/// `blocked_response_value` and `blocked_entry` say.
pub fn log_blocked_request(req_parts: &RequestParts, body_bytes: Vec<u8>, ip_client: String) -> (r: (
    Entries,
    ResponseMessage,
))
    requires
        recordable(req_parts@.headers, "cookie"@),
    ensures
        exists|fresh_conversation: Seq<char>, message_id: Seq<char>|
            r.1@ == #[trigger] blocked_response_value(
                body_json(body_bytes@),
                fresh_conversation,
                message_id,
            ),
        exists|started: Seq<char>|
            r.0@ == #[trigger] blocked_entry(req_parts@, body_bytes@, ip_client@, started, r.1@),
{
    let copy = body_bytes.clone();
    assert(copy@ =~= body_bytes@);
    let response = create_response(body_bytes);
    proof {
        let (fresh_conversation, message_id) = choose|
            fresh_conversation: Seq<char>,
            message_id: Seq<char>,
        |
            response@ == #[trigger] blocked_response_value(
                body_json(body_bytes@),
                fresh_conversation,
                message_id,
            );
        lemma_blocked_response_recordable(body_json(body_bytes@), fresh_conversation, message_id);
    }
    let started = local_time("%Y-%m-%dT%H:%M:%S%.3f%:z");
    let ghost started_text = started@;
    let entry = record_blocked(req_parts, copy, ip_client, started, &response);
    assert(entry@ == blocked_entry(
        req_parts@,
        body_bytes@,
        ip_client@,
        started_text,
        response@,
    ));
    let r = (entry, response);
    assert(r.0@ == blocked_entry(req_parts@, body_bytes@, ip_client@, started_text, r.1@));
    assert(exists|started: Seq<char>|
        r.0@ == #[trigger] blocked_entry(req_parts@, body_bytes@, ip_client@, started, r.1@));
    r
}

/// Answers a blocked request and writes its entry for the archive; nothing
/// where the headers of the request cannot be recorded.
pub fn try_log_blocked_request(req_parts: &RequestParts, body_bytes: Vec<u8>, ip_client: String) -> (r:
    Option<(Entries, ResponseMessage)>)
    ensures
        r is Some <==> recordable(req_parts@.headers, "cookie"@),
        r matches Some(pair) ==> {
            &&& exists|fresh_conversation: Seq<char>, message_id: Seq<char>|
                pair.1@ == #[trigger] blocked_response_value(
                    body_json(body_bytes@),
                    fresh_conversation,
                    message_id,
                )
            &&& exists|started: Seq<char>|
                pair.0@ == #[trigger] blocked_entry(
                    req_parts@,
                    body_bytes@,
                    ip_client@,
                    started,
                    pair.1@,
                )
        },
{
    proof {
        lemma_known_names();
    }
    if can_record(&req_parts.headers, "cookie") {
        let pair = log_blocked_request(req_parts, body_bytes, ip_client);
        assert(exists|fresh_conversation: Seq<char>, message_id: Seq<char>|
            pair.1@ == #[trigger] blocked_response_value(
                body_json(body_bytes@),
                fresh_conversation,
                message_id,
            ));
        assert(exists|started: Seq<char>|
            pair.0@ == #[trigger] blocked_entry(
                req_parts@,
                body_bytes@,
                ip_client@,
                started,
                pair.1@,
            ));
        let r = Some(pair);
        assert(r matches Some(p) && p == pair);
        r
    } else {
        None
    }
}

/// The header that a recorded header stands for: its name, and its value in
/// UTF-8.
pub open spec fn header_of_record(header: HeadersValue) -> HeaderFieldValue {
    HeaderFieldValue { name: header.name, value: encode_utf8(header.value) }
}

/// The request that a record stands for, with its body: the method, the URL
/// as target, the headers, and the posted text in UTF-8.
pub open spec fn request_of_record(record: RequestRecord) -> (RequestValue, Seq<u8>) {
    (
        RequestValue {
            method: record.method,
            uri: record.url,
            headers: record.headers.map_values(|h: HeadersValue| header_of_record(h)),
        },
        match record.post_data {
            Some(PostDataValue { text: Some(text), .. }) => encode_utf8(text),
            _ => Seq::empty(),
        },
    )
}

/// The response that a record stands for, with its body: the status, the
/// headers, and the text of the content in UTF-8.
pub open spec fn response_of_record(record: ResponseRecord) -> (ResponseValue, Seq<u8>) {
    (
        ResponseValue {
            status: record.status as u16,
            headers: record.headers.map_values(|h: HeadersValue| header_of_record(h)),
        },
        match record.content.text {
            Some(text) => encode_utf8(text),
            None => Seq::empty(),
        },
    )
}

/// Turns recorded headers back into headers.
pub fn headers_from_har(records: &Vec<Headers>) -> (headers: Vec<HeaderField>)
    ensures
        header_values(headers@) == headers_values(records@).map_values(
            |h: HeadersValue| header_of_record(h),
        ),
{
    let mut headers: Vec<HeaderField> = Vec::new();
    let mut i: usize = 0;
    while i < records.len()
        invariant
            i <= records.len(),
            headers@.len() == i,
            forall|k: int| 0 <= k < i ==> (#[trigger] headers@[k])@ == header_of_record(records@[k]@),
        decreases records.len() - i,
    {
        headers.push(
            HeaderField {
                name: records[i].name.clone(),
                value: records[i].value.as_str().as_bytes_vec(),
            },
        );
        i = i + 1;
    }
    assert(header_values(headers@) =~= headers_values(records@).map_values(
        |h: HeadersValue| header_of_record(h),
    ));
    headers
}

/// Turns the record of a request back into the request and its body.
pub fn request_from_har(record: &Request) -> (r: (RequestParts, Vec<u8>))
    ensures
        (r.0@, r.1@) == request_of_record(record@),
{
    let body = match &record.post_data {
        Some(PostData { text: Some(text), .. }) => text.as_str().as_bytes_vec(),
        _ => Vec::new(),
    };
    (
        RequestParts {
            method: record.method.clone(),
            uri: record.url.clone(),
            headers: headers_from_har(&record.headers),
        },
        body,
    )
}

/// Turns the record of a response back into the response and its body.
pub fn response_from_har(record: &Response) -> (r: (ResponseParts, Vec<u8>))
    ensures
        (r.0@, r.1@) == response_of_record(record@),
{
    let body = match &record.content.text {
        Some(text) => text.as_str().as_bytes_vec(),
        None => Vec::new(),
    };
    (
        ResponseParts {
            status: #[verifier::truncate] (record.status as u16),
            headers: headers_from_har(&record.headers),
        },
        body,
    )
}

/// Recorded headers stand for the headers they were recorded from.
pub proof fn lemma_headers_round_trip(headers: Seq<HeaderFieldValue>)
    requires
        all_text_values(headers),
    ensures
        recorded_headers(headers).map_values(|h: HeadersValue| header_of_record(h)) == headers,
{
    let back = recorded_headers(headers).map_values(|h: HeadersValue| header_of_record(h));
    assert forall|i: int| 0 <= i < headers.len() implies back[i] == headers[i] by {
        assert(is_text_value(headers[i].value));
        lemma_ascii_text(headers[i].value);
        decode_utf8_encode_utf8(headers[i].value);
    }
    assert(back =~= headers);
}

/// The record of a request stands for that request: for a request whose
/// header values are text and whose body is UTF-8, the record gives back the
/// method, the target, the headers and the body, byte for byte.
pub proof fn lemma_request_round_trip(parts: RequestValue, body: Seq<u8>)
    requires
        all_text_values(parts.headers),
        valid_utf8(body),
        body.len() <= i64::MAX,
    ensures
        request_of_record(request_record(parts, body)) == (parts, body),
{
    lemma_headers_round_trip(parts.headers);
    decode_utf8_encode_utf8(body);
    let back = request_of_record(request_record(parts, body));
    assert(back.1 =~= body);
}

/// The record of a response stands for that response: for a response whose
/// header values are text and whose body is UTF-8, the record gives back the
/// status, the headers and the body, byte for byte.
pub proof fn lemma_response_round_trip(parts: ResponseValue, body: Seq<u8>)
    requires
        all_text_values(parts.headers),
        valid_utf8(body),
    ensures
        response_of_record(response_record(parts, body)) == (parts, body),
{
    lemma_headers_round_trip(parts.headers);
    decode_utf8_encode_utf8(body);
}

} // verus!

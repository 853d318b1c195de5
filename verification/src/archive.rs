use vstd::prelude::*;

verus! {

// The records of the HTTP Archive format, version 1.2. Durations are held in
// whole milliseconds.

/// The text of an optional string.
pub open spec fn optional_text(s: Option<String>) -> Option<Seq<char>> {
    match s {
        Some(t) => Some(t@),
        None => None,
    }
}

/// The mathematical value of `Headers`.
pub struct HeadersValue {
    pub name: Seq<char>,
    pub value: Seq<char>,
    pub comment: Option<Seq<char>>,
}

/// A header as the archive records it: name and value as text.
#[derive(Debug, Clone, PartialEq, Eq)]
pub struct Headers {
    pub name: String,
    pub value: String,
    pub comment: Option<String>,
}

impl View for Headers {
    type V = HeadersValue;

    open spec fn view(&self) -> HeadersValue {
        HeadersValue {
            name: self.name@,
            value: self.value@,
            comment: optional_text(self.comment),
        }
    }
}

/// The values of a run of recorded headers, in their order.
pub open spec fn headers_values(items: Seq<Headers>) -> Seq<HeadersValue> {
    items.map_values(|x: Headers| x@)
}

/// The mathematical value of `Cookies`.
pub struct CookiesValue {
    pub name: Seq<char>,
    pub value: Seq<char>,
    pub path: Option<Seq<char>>,
    pub domain: Option<Seq<char>>,
    pub expires: Option<Seq<char>>,
    pub http_only: Option<bool>,
    pub secure: Option<bool>,
    pub comment: Option<Seq<char>>,
}

/// A cookie as the archive records it.
#[derive(Debug, Clone, PartialEq, Eq)]
pub struct Cookies {
    pub name: String,
    pub value: String,
    pub path: Option<String>,
    pub domain: Option<String>,
    pub expires: Option<String>,
    pub http_only: Option<bool>,
    pub secure: Option<bool>,
    pub comment: Option<String>,
}

impl View for Cookies {
    type V = CookiesValue;

    open spec fn view(&self) -> CookiesValue {
        CookiesValue {
            name: self.name@,
            value: self.value@,
            path: optional_text(self.path),
            domain: optional_text(self.domain),
            expires: optional_text(self.expires),
            http_only: self.http_only,
            secure: self.secure,
            comment: optional_text(self.comment),
        }
    }
}

/// The values of a run of recorded cookies, in their order.
pub open spec fn cookies_values(items: Seq<Cookies>) -> Seq<CookiesValue> {
    items.map_values(|x: Cookies| x@)
}

/// The mathematical value of `QueryString`.
pub struct QueryStringValue {
    pub name: Seq<char>,
    pub value: Seq<char>,
    pub comment: Option<Seq<char>>,
}

/// A parameter of the query of a recorded request.
#[derive(Debug, Clone, PartialEq, Eq)]
pub struct QueryString {
    pub name: String,
    pub value: String,
    pub comment: Option<String>,
}

impl View for QueryString {
    type V = QueryStringValue;

    open spec fn view(&self) -> QueryStringValue {
        QueryStringValue {
            name: self.name@,
            value: self.value@,
            comment: optional_text(self.comment),
        }
    }
}

/// The values of a run of recorded parameters of a query, in their order.
pub open spec fn query_values(items: Seq<QueryString>) -> Seq<QueryStringValue> {
    items.map_values(|x: QueryString| x@)
}

/// The mathematical value of `Params`.
pub struct ParamsValue {
    pub name: Seq<char>,
    pub value: Option<Seq<char>>,
    pub file_name: Option<Seq<char>>,
    pub content_type: Option<Seq<char>>,
    pub comment: Option<Seq<char>>,
}

/// A parameter of the posted data of a recorded request.
#[derive(Debug, Clone, PartialEq, Eq)]
pub struct Params {
    pub name: String,
    pub value: Option<String>,
    pub file_name: Option<String>,
    pub content_type: Option<String>,
    pub comment: Option<String>,
}

impl View for Params {
    type V = ParamsValue;

    open spec fn view(&self) -> ParamsValue {
        ParamsValue {
            name: self.name@,
            value: optional_text(self.value),
            file_name: optional_text(self.file_name),
            content_type: optional_text(self.content_type),
            comment: optional_text(self.comment),
        }
    }
}

/// The values of a run of recorded parameters of posted data, in their order.
pub open spec fn params_values(items: Seq<Params>) -> Seq<ParamsValue> {
    items.map_values(|x: Params| x@)
}

/// The mathematical value of `PostData`.
pub struct PostDataValue {
    pub mime_type: Seq<char>,
    pub text: Option<Seq<char>>,
    pub params: Option<Seq<ParamsValue>>,
    pub comment: Option<Seq<char>>,
}

/// The body that a request posted.
#[derive(Debug, Clone, PartialEq, Eq)]
pub struct PostData {
    pub mime_type: String,
    pub text: Option<String>,
    pub params: Option<Vec<Params>>,
    pub comment: Option<String>,
}

impl View for PostData {
    type V = PostDataValue;

    open spec fn view(&self) -> PostDataValue {
        PostDataValue {
            mime_type: self.mime_type@,
            text: optional_text(self.text),
            params: match self.params {
                Some(x) => Some(params_values(x@)),
                None => None,
            },
            comment: optional_text(self.comment),
        }
    }
}

/// The mathematical value of `Request`.
pub struct RequestRecord {
    pub method: Seq<char>,
    pub url: Seq<char>,
    pub http_version: Seq<char>,
    pub cookies: Seq<CookiesValue>,
    pub headers: Seq<HeadersValue>,
    pub query_string: Seq<QueryStringValue>,
    pub post_data: Option<PostDataValue>,
    pub headers_size: i64,
    pub body_size: i64,
    pub comment: Option<Seq<char>>,
}

/// A request as the archive records it. Sizes are counted in bytes.
#[derive(Debug, Clone, PartialEq, Eq)]
pub struct Request {
    pub method: String,
    pub url: String,
    pub http_version: String,
    pub cookies: Vec<Cookies>,
    pub headers: Vec<Headers>,
    pub query_string: Vec<QueryString>,
    pub post_data: Option<PostData>,
    pub headers_size: i64,
    pub body_size: i64,
    pub comment: Option<String>,
}

impl View for Request {
    type V = RequestRecord;

    open spec fn view(&self) -> RequestRecord {
        RequestRecord {
            method: self.method@,
            url: self.url@,
            http_version: self.http_version@,
            cookies: cookies_values(self.cookies@),
            headers: headers_values(self.headers@),
            query_string: query_values(self.query_string@),
            post_data: match self.post_data {
                Some(x) => Some(x@),
                None => None,
            },
            headers_size: self.headers_size,
            body_size: self.body_size,
            comment: optional_text(self.comment),
        }
    }
}

/// The mathematical value of `Content`.
pub struct ContentValue {
    pub size: i64,
    pub compression: Option<i64>,
    pub mime_type: Option<Seq<char>>,
    pub text: Option<Seq<char>>,
    pub encoding: Option<Seq<char>>,
    pub comment: Option<Seq<char>>,
}

/// The body of a response as the archive records it.
#[derive(Debug, Clone, PartialEq, Eq)]
pub struct Content {
    pub size: i64,
    pub compression: Option<i64>,
    pub mime_type: Option<String>,
    pub text: Option<String>,
    pub encoding: Option<String>,
    pub comment: Option<String>,
}

impl View for Content {
    type V = ContentValue;

    open spec fn view(&self) -> ContentValue {
        ContentValue {
            size: self.size,
            compression: self.compression,
            mime_type: optional_text(self.mime_type),
            text: optional_text(self.text),
            encoding: optional_text(self.encoding),
            comment: optional_text(self.comment),
        }
    }
}

/// The mathematical value of `Response`.
pub struct ResponseRecord {
    pub status: i64,
    pub status_text: Seq<char>,
    pub http_version: Seq<char>,
    pub cookies: Seq<CookiesValue>,
    pub headers: Seq<HeadersValue>,
    pub content: ContentValue,
    pub redirect_url: Option<Seq<char>>,
    pub headers_size: i64,
    pub body_size: i64,
    pub comment: Option<Seq<char>>,
}

/// A response as the archive records it. Sizes are counted in bytes.
#[derive(Debug, Clone, PartialEq, Eq)]
pub struct Response {
    pub status: i64,
    pub status_text: String,
    pub http_version: String,
    pub cookies: Vec<Cookies>,
    pub headers: Vec<Headers>,
    pub content: Content,
    pub redirect_url: Option<String>,
    pub headers_size: i64,
    pub body_size: i64,
    pub comment: Option<String>,
}

impl View for Response {
    type V = ResponseRecord;

    open spec fn view(&self) -> ResponseRecord {
        ResponseRecord {
            status: self.status,
            status_text: self.status_text@,
            http_version: self.http_version@,
            cookies: cookies_values(self.cookies@),
            headers: headers_values(self.headers@),
            content: self.content@,
            redirect_url: optional_text(self.redirect_url),
            headers_size: self.headers_size,
            body_size: self.body_size,
            comment: optional_text(self.comment),
        }
    }
}

/// The mathematical value of `CacheEntity`.
pub struct CacheEntityValue {
    pub expires: Option<Seq<char>>,
    pub last_access: Seq<char>,
    pub e_tag: Seq<char>,
    pub hit_count: i64,
    pub comment: Option<Seq<char>>,
}

/// The state of an entry in the cache of the client.
#[derive(Debug, Clone, PartialEq, Eq)]
pub struct CacheEntity {
    pub expires: Option<String>,
    pub last_access: String,
    pub e_tag: String,
    pub hit_count: i64,
    pub comment: Option<String>,
}

impl View for CacheEntity {
    type V = CacheEntityValue;

    open spec fn view(&self) -> CacheEntityValue {
        CacheEntityValue {
            expires: optional_text(self.expires),
            last_access: self.last_access@,
            e_tag: self.e_tag@,
            hit_count: self.hit_count,
            comment: optional_text(self.comment),
        }
    }
}

/// The mathematical value of `Cache`.
pub struct CacheValue {
    pub before_request: Option<CacheEntityValue>,
    pub after_request: Option<CacheEntityValue>,
}

/// What the cache of the client held before and after the request.
#[derive(Debug, Clone, PartialEq, Eq)]
pub struct Cache {
    pub before_request: Option<CacheEntity>,
    pub after_request: Option<CacheEntity>,
}

impl View for Cache {
    type V = CacheValue;

    open spec fn view(&self) -> CacheValue {
        CacheValue {
            before_request: match self.before_request {
                Some(x) => Some(x@),
                None => None,
            },
            after_request: match self.after_request {
                Some(x) => Some(x@),
                None => None,
            },
        }
    }
}

/// The mathematical value of `Timings`.
pub struct TimingsValue {
    pub blocked: Option<i64>,
    pub dns: Option<i64>,
    pub connect: Option<i64>,
    pub send: i64,
    pub wait: i64,
    pub receive: i64,
    pub ssl: Option<i64>,
    pub comment: Option<Seq<char>>,
}

/// The phases of an exchange, each in whole milliseconds.
#[derive(Debug, Clone, PartialEq, Eq)]
pub struct Timings {
    pub blocked: Option<i64>,
    pub dns: Option<i64>,
    pub connect: Option<i64>,
    pub send: i64,
    pub wait: i64,
    pub receive: i64,
    pub ssl: Option<i64>,
    pub comment: Option<String>,
}

impl View for Timings {
    type V = TimingsValue;

    open spec fn view(&self) -> TimingsValue {
        TimingsValue {
            blocked: self.blocked,
            dns: self.dns,
            connect: self.connect,
            send: self.send,
            wait: self.wait,
            receive: self.receive,
            ssl: self.ssl,
            comment: optional_text(self.comment),
        }
    }
}

/// The mathematical value of `Entries`.
pub struct EntryRecord {
    pub pageref: Option<Seq<char>>,
    pub started_date_time: Seq<char>,
    pub time: i64,
    pub request: RequestRecord,
    pub response: ResponseRecord,
    pub cache: CacheValue,
    pub timings: TimingsValue,
    pub server_ip_address: Option<Seq<char>>,
    pub connection: Option<Seq<char>>,
    pub comment: Option<Seq<char>>,
}

/// One exchange as the archive records it: when it started, how many
/// milliseconds it took, the request, the response, and the address that is
/// recorded for it.
#[derive(Debug, Clone, PartialEq, Eq)]
pub struct Entries {
    pub pageref: Option<String>,
    pub started_date_time: String,
    pub time: i64,
    pub request: Request,
    pub response: Response,
    pub cache: Cache,
    pub timings: Timings,
    pub server_ip_address: Option<String>,
    pub connection: Option<String>,
    pub comment: Option<String>,
}

impl View for Entries {
    type V = EntryRecord;

    open spec fn view(&self) -> EntryRecord {
        EntryRecord {
            pageref: optional_text(self.pageref),
            started_date_time: self.started_date_time@,
            time: self.time,
            request: self.request@,
            response: self.response@,
            cache: self.cache@,
            timings: self.timings@,
            server_ip_address: optional_text(self.server_ip_address),
            connection: optional_text(self.connection),
            comment: optional_text(self.comment),
        }
    }
}

/// The values of a run of entries, in their order.
pub open spec fn entries_values(items: Seq<Entries>) -> Seq<EntryRecord> {
    items.map_values(|x: Entries| x@)
}

/// The mathematical value of `Creator`.
pub struct CreatorValue {
    pub name: Seq<char>,
    pub version: Seq<char>,
    pub comment: Option<Seq<char>>,
}

/// The program that wrote an archive.
#[derive(Debug, Clone, PartialEq, Eq)]
pub struct Creator {
    pub name: String,
    pub version: String,
    pub comment: Option<String>,
}

impl View for Creator {
    type V = CreatorValue;

    open spec fn view(&self) -> CreatorValue {
        CreatorValue {
            name: self.name@,
            version: self.version@,
            comment: optional_text(self.comment),
        }
    }
}

/// The mathematical value of `PageTimings`.
pub struct PageTimingsValue {
    pub on_content_load: Option<i64>,
    pub on_load: Option<i64>,
    pub comment: Option<Seq<char>>,
}

/// When a page had loaded, in whole milliseconds from its start.
#[derive(Debug, Clone, PartialEq, Eq)]
pub struct PageTimings {
    pub on_content_load: Option<i64>,
    pub on_load: Option<i64>,
    pub comment: Option<String>,
}

impl View for PageTimings {
    type V = PageTimingsValue;

    open spec fn view(&self) -> PageTimingsValue {
        PageTimingsValue {
            on_content_load: self.on_content_load,
            on_load: self.on_load,
            comment: optional_text(self.comment),
        }
    }
}

/// The mathematical value of `Pages`.
pub struct PagesValue {
    pub started_date_time: Seq<char>,
    pub id: Seq<char>,
    pub title: Seq<char>,
    pub page_timings: PageTimingsValue,
    pub comment: Option<Seq<char>>,
}

/// A page that entries belong to.
#[derive(Debug, Clone, PartialEq, Eq)]
pub struct Pages {
    pub started_date_time: String,
    pub id: String,
    pub title: String,
    pub page_timings: PageTimings,
    pub comment: Option<String>,
}

impl View for Pages {
    type V = PagesValue;

    open spec fn view(&self) -> PagesValue {
        PagesValue {
            started_date_time: self.started_date_time@,
            id: self.id@,
            title: self.title@,
            page_timings: self.page_timings@,
            comment: optional_text(self.comment),
        }
    }
}

/// The values of a run of pages, in their order.
pub open spec fn pages_values(items: Seq<Pages>) -> Seq<PagesValue> {
    items.map_values(|x: Pages| x@)
}

/// The mathematical value of `Log`.
pub struct LogRecord {
    pub creator: CreatorValue,
    pub browser: Option<CreatorValue>,
    pub pages: Option<Seq<PagesValue>>,
    pub entries: Seq<EntryRecord>,
    pub comment: Option<Seq<char>>,
}

/// An archive: who wrote it, the browser and the pages where they are known,
/// the entries, and a remark.
#[derive(Debug, Clone, PartialEq, Eq)]
pub struct Log {
    pub creator: Creator,
    pub browser: Option<Creator>,
    pub pages: Option<Vec<Pages>>,
    pub entries: Vec<Entries>,
    pub comment: Option<String>,
}

impl View for Log {
    type V = LogRecord;

    open spec fn view(&self) -> LogRecord {
        LogRecord {
            creator: self.creator@,
            browser: match self.browser {
                Some(x) => Some(x@),
                None => None,
            },
            pages: match self.pages {
                Some(x) => Some(pages_values(x@)),
                None => None,
            },
            entries: entries_values(self.entries@),
            comment: optional_text(self.comment),
        }
    }
}

impl Cache {
    /// Nothing is known of the cache.
    pub open spec fn unknown() -> CacheValue {
        CacheValue { before_request: None, after_request: None }
    }

    /// A record that tells nothing of the cache.
    pub fn none() -> (cache: Cache)
        ensures
            cache@ == Cache::unknown(),
    {
        Cache { before_request: None, after_request: None }
    }
}

impl Timings {
    /// No time was spent in any phase, and the phases that need not be told
    /// are not told.
    pub open spec fn zero() -> TimingsValue {
        TimingsValue {
            blocked: None,
            dns: None,
            connect: None,
            send: 0,
            wait: 0,
            receive: 0,
            ssl: None,
            comment: None,
        }
    }

    /// The timings of an exchange that spent no time.
    pub fn none() -> (timings: Timings)
        ensures
            timings@ == Timings::zero(),
    {
        Timings {
            blocked: None,
            dns: None,
            connect: None,
            send: 0,
            wait: 0,
            receive: 0,
            ssl: None,
            comment: None,
        }
    }
}

} // verus!

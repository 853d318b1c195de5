use crate::archive::{
    entries_values, optional_text, Creator, CreatorValue, Entries, Log, LogRecord,
};
use crate::http::{
    header_values, is_text_value, uri_path, uri_path_of, HeaderFieldValue, RequestParts,
    RequestValue,
};
use crate::text::{occurs_in, owned, same_text, str_contains};
use crate::utilities::{
    ascii_text, body_json, first_header, first_value, is_text, prompt_defined, prompt_text,
    try_parse_request, value_text,
};
use vstd::prelude::*;

verus! {

/// The number of entries that may wait to be written to the archive; who
/// offers one more waits until one is written.
pub const ARCHIVE_QUEUE_CAPACITY: usize = 100;

/// What the policy does with a request.
#[derive(Debug, Clone, Copy, PartialEq, Eq, Structural)]
pub enum Verdict {
    /// Send it on to the origin.
    Forward,
    /// Keep it from the origin and answer in the origin's place.
    Block,
}

/// The host that a request is addressed to: the text of its first `host`
/// header, empty where the value is no text; none where it has no such
/// header.
pub open spec fn host_text(headers: Seq<HeaderFieldValue>) -> Option<Seq<char>> {
    match first_value(headers, "host"@) {
        None => None,
        Some(value) => Some(
            if is_text_value(value) {
                ascii_text(value)
            } else {
                Seq::empty()
            },
        ),
    }
}

/// The verdict from what was found in a request: its host, the path of its
/// target, its method, and its prompt where it can be told. A post to the
/// conversation endpoint whose prompt holds the word `confidential` is
/// blocked, and every other request is forwarded. There is no verdict
/// without a host, nor on a post to the endpoint without a prompt.
pub open spec fn verdict_of(
    host: Option<Seq<char>>,
    path: Option<Seq<char>>,
    method: Seq<char>,
    prompt: Option<Seq<char>>,
) -> Option<Verdict> {
    if host is None {
        None
    } else if !(host == Some("chatgpt.com"@) && path == Some("/backend-api/conversation"@)
        && method == "POST"@) {
        Some(Verdict::Forward)
    } else {
        match prompt {
            None => None,
            Some(text) => if occurs_in("confidential"@, text) {
                Some(Verdict::Block)
            } else {
                Some(Verdict::Forward)
            },
        }
    }
}

/// The prompt of a body where it can be told.
pub open spec fn told_prompt(body: Seq<u8>) -> Option<Seq<char>> {
    if prompt_defined(body_json(body)) {
        Some(prompt_text(body_json(body)))
    } else {
        None
    }
}

/// The verdict on a request with its body.
pub open spec fn verdict(request: RequestValue, body: Seq<u8>) -> Option<Verdict> {
    verdict_of(
        host_text(request.headers),
        uri_path_of(request.uri),
        request.method,
        told_prompt(body),
    )
}

/// Tells the host that a request is addressed to.
pub fn request_host(parts: &RequestParts) -> (host: Option<String>)
    ensures
        crate::http::holds(host, host_text(parts@.headers)),
{
    proof {
        crate::http::lemma_known_names();
    }
    match first_header(&parts.headers, "host") {
        None => None,
        Some(value) => if is_text(value) {
            Some(value_text(value))
        } else {
            Some(String::new())
        },
    }
}

/// Whether a request with this host, path and method posts to the
/// conversation endpoint of the chat service.
pub fn on_conversation_endpoint(host: &str, path: &Option<String>, method: &str) -> (r: bool)
    ensures
        r == (host@ == "chatgpt.com"@ && optional_text(*path) == Some(
            "/backend-api/conversation"@,
        ) && method@ == "POST"@),
{
    let on_path = match path {
        Some(path) => same_text(path.as_str(), "/backend-api/conversation"),
        None => false,
    };
    same_text(host, "chatgpt.com") && on_path && same_text(method, "POST")
}

/// Passes a verdict from what was found in a request.
pub fn decide(host: Option<String>, path: Option<String>, method: &str, prompt: Option<String>) -> (r:
    Option<Verdict>)
    ensures
        r == verdict_of(
            optional_text(host),
            optional_text(path),
            method@,
            optional_text(prompt),
        ),
{
    match host {
        None => None,
        Some(host) => if !on_conversation_endpoint(host.as_str(), &path, method) {
            Some(Verdict::Forward)
        } else {
            match prompt {
                None => None,
                Some(text) => if str_contains(text.as_str(), "confidential") {
                    Some(Verdict::Block)
                } else {
                    Some(Verdict::Forward)
                },
            }
        },
    }
}

/// Passes a verdict on a request with its body.
pub fn screen(parts: &RequestParts, body: &Vec<u8>) -> (r: Option<Verdict>)
    ensures
        r == verdict(parts@, body@),
{
    let host = request_host(parts);
    let path = uri_path(parts.uri.as_str());
    let asked = match &host {
        Some(host) => on_conversation_endpoint(host.as_str(), &path, parts.method.as_str()),
        None => false,
    };
    let prompt = if asked {
        let copy = body.clone();
        assert(copy@ =~= body@);
        try_parse_request(copy)
    } else {
        None
    };
    decide(host, path, parts.method.as_str(), prompt)
}

/// The archive that is written for a run of entries: the entries under the
/// name and version of this proxy, without browser or pages.
pub open spec fn archive_record(entries: Seq<Entries>) -> LogRecord {
    LogRecord {
        creator: CreatorValue {
            name: "SentineLLM"@,
            version: "0.5"@,
            comment: Some("The IA at the service of confidentiality"@),
        },
        browser: None,
        pages: None,
        entries: entries_values(entries),
        comment: Some("Confidential disclosure blocked"@),
    }
}

/// Puts entries into an archive.
pub fn archive(entries: Vec<Entries>) -> (log: Log)
    ensures
        log@ == archive_record(entries@),
{
    Log {
        creator: Creator {
            name: owned("SentineLLM"),
            version: owned("0.5"),
            comment: Some(owned("The IA at the service of confidentiality")),
        },
        browser: None,
        pages: None,
        entries,
        comment: Some(owned("Confidential disclosure blocked")),
    }
}

} // verus!

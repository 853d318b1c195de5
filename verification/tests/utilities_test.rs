use tls_interceptor_proxy::archive::{Cache, Cookies, Headers, PostData, Timings};
use tls_interceptor_proxy::http::{HeaderField, RequestParts, ResponseParts};
use tls_interceptor_proxy::json::Json;
use tls_interceptor_proxy::utilities::{
    blocked_response, can_record, convert_body_to_json, cookie_to_har,
    copy_from_http_request_to_har, copy_from_http_response_to_har, create_response,
    declared_mime_type, headers_size, is_text, log_blocked_request, parse_cookie, parse_request,
    prompt_of, record_blocked, try_copy_from_http_request_to_har,
    try_copy_from_http_response_to_har, try_log_blocked_request, try_parse_cookie,
    try_parse_request, write_sse_body, CookieExpiry, CookieParts,
};

fn post_request() -> RequestParts {
    RequestParts {
        method: "POST".to_string(),
        uri: "https://example.com/test".to_string(),
        headers: vec![
            HeaderField::new("content-type", b"application/json"),
            HeaderField::new("cookie", b"name=value"),
        ],
    }
}

#[test]
fn test_copy_from_http_request_to_har() {
    let parts = post_request();
    let body_bytes = br#"{"key":"value"}"#.to_vec();

    let har_request = copy_from_http_request_to_har(&parts, body_bytes);

    assert_eq!(har_request.method, "POST");
    assert_eq!(har_request.url, "https://example.com/test");
    assert_eq!(har_request.headers[0].name, "content-type");
    assert_eq!(har_request.headers[0].value, "application/json");
    assert_eq!(har_request.cookies[0].name, "name");
    assert_eq!(har_request.cookies[0].value, "value");
}

#[test]
fn test_copy_from_http_response_to_har() {
    let parts = ResponseParts {
        status: 200,
        headers: vec![
            HeaderField::new("content-type", b"application/json"),
            HeaderField::new("set-cookie", b"name=value"),
        ],
    };
    let body_bytes = br#"{"key":"value"}"#.to_vec();

    let har_response = copy_from_http_response_to_har(&parts, body_bytes);

    assert_eq!(har_response.status, 200);
    assert_eq!(har_response.content.mime_type.unwrap(), "application/json");
    assert_eq!(har_response.cookies[0].name, "name");
    assert_eq!(har_response.cookies[0].value, "value");
}

#[test]
fn test_parse_cookie() {
    let cookie_str = "sessionId=abc123; Path=/; HttpOnly; Secure";

    let parsed_cookie = parse_cookie(cookie_str);

    assert_eq!(parsed_cookie.name, "sessionId");
    assert_eq!(parsed_cookie.value, "abc123");
    assert_eq!(parsed_cookie.path.unwrap(), "/");
    assert_eq!(parsed_cookie.http_only, Some(true));
    assert_eq!(parsed_cookie.secure, Some(true));
}

#[test]
fn test_convert_body_to_json() {
    let body_bytes = br#"{"message":"Hello"}"#.to_vec();

    let json_value = convert_body_to_json(body_bytes);

    assert_eq!(json_value.get("message"), Some(&Json::String("Hello".to_string())));
}

#[test]
fn test_parse_request() {
    let body_bytes =
        br#"{ "messages": [{ "content": { "parts": ["Hello, world!"] }}] }"#.to_vec();

    let parsed_message = parse_request(body_bytes);

    assert_eq!(parsed_message, "\"Hello, world!\"");
}

#[test]
fn test_create_response() {
    let body_bytes =
        br#"{"messages":[{"id":"aaa211a5-24d7-4868-8d8c-b657402be43b"}]}"#.to_vec();

    let response = create_response(body_bytes);

    assert_eq!(response.parts.status, 200);
    assert_eq!(response.parts.headers.len(), 1);
    assert_eq!(response.parts.headers[0].name, "content-type");
    assert_eq!(response.parts.headers[0].value, b"text/event-stream".to_vec());
    assert!(response.body.starts_with(b"data: "));
}

#[test]
fn request_record_holds_every_field() {
    let parts = post_request();
    let record = copy_from_http_request_to_har(&parts, br#"{"key":"value"}"#.to_vec());
    assert_eq!(record.http_version, "HTTP/1.1");
    assert_eq!(
        record.headers,
        vec![
            Headers {
                name: "content-type".to_string(),
                value: "application/json".to_string(),
                comment: None,
            },
            Headers { name: "cookie".to_string(), value: "name=value".to_string(), comment: None },
        ]
    );
    assert_eq!(
        record.cookies,
        vec![Cookies {
            name: "name".to_string(),
            value: "value".to_string(),
            path: None,
            domain: None,
            expires: None,
            http_only: None,
            secure: None,
            comment: None,
        }]
    );
    assert!(record.query_string.is_empty());
    assert_eq!(record.comment, None);
    // 12 + 16 bytes for the first header, 6 + 10 for the second
    assert_eq!(record.headers_size, 44);
    assert_eq!(record.body_size, 15);
    assert_eq!(
        record.post_data,
        Some(PostData {
            mime_type: "application/json".to_string(),
            text: Some(r#"{"key":"value"}"#.to_string()),
            params: None,
            comment: None,
        })
    );
}

#[test]
fn request_without_body_posts_nothing() {
    let parts = RequestParts {
        method: "GET".to_string(),
        uri: "/".to_string(),
        headers: Vec::new(),
    };
    let record = copy_from_http_request_to_har(&parts, Vec::new());
    assert_eq!(record.post_data, None);
    assert_eq!(record.body_size, 0);
    assert_eq!(record.headers_size, 0);
    assert!(record.cookies.is_empty());
    assert!(record.headers.is_empty());
}

#[test]
fn body_that_is_not_utf8_is_recorded_as_empty() {
    let parts = post_request();
    let record = copy_from_http_request_to_har(&parts, vec![0xff, 0xfe, 0x00]);
    assert_eq!(record.body_size, 0);
    assert_eq!(record.post_data, None);
    let response = ResponseParts { status: 200, headers: Vec::new() };
    let answer = copy_from_http_response_to_har(&response, vec![0xc3]);
    assert_eq!(answer.body_size, 0);
    assert_eq!(answer.content.size, 0);
    assert_eq!(answer.content.text, Some(String::new()));
}

#[test]
fn mime_type_is_that_of_the_first_content_type() {
    let headers = vec![
        HeaderField::new("accept", b"*/*"),
        HeaderField::new("Content-Type", b"text/plain"),
        HeaderField::new("content-type", b"text/html"),
    ];
    assert_eq!(declared_mime_type(&headers), "text/plain");
    assert_eq!(declared_mime_type(&Vec::new()), "");
}

#[test]
fn response_record_holds_every_field() {
    let parts = ResponseParts {
        status: 302,
        headers: vec![
            HeaderField::new("location", b"https://example.com/next"),
            HeaderField::new("set-cookie", b"a=b; Path=/x; Domain=.example.com"),
            HeaderField::new("set-cookie", b"c=d; Secure"),
        ],
    };
    let record = copy_from_http_response_to_har(&parts, b"moved".to_vec());
    assert_eq!(record.status, 302);
    assert_eq!(record.status_text, "Found");
    assert_eq!(record.http_version, "HTTP/1.1");
    assert_eq!(record.redirect_url, Some("https://example.com/next".to_string()));
    assert_eq!(record.cookies.len(), 2);
    assert_eq!(record.cookies[0].name, "a");
    assert_eq!(record.cookies[0].path, Some("/x".to_string()));
    assert_eq!(record.cookies[0].domain, Some("example.com".to_string()));
    assert_eq!(record.cookies[1].name, "c");
    assert_eq!(record.cookies[1].secure, Some(true));
    assert_eq!(record.content.size, 5);
    assert_eq!(record.content.text, Some("moved".to_string()));
    assert_eq!(record.content.mime_type, Some(String::new()));
    assert_eq!(record.content.compression, None);
    assert_eq!(record.content.encoding, None);
    assert_eq!(record.content.comment, None);
    assert_eq!(record.comment, None);
    assert_eq!(record.body_size, 5);
    assert_eq!(record.headers_size, (8 + 24) + (10 + 33) + (10 + 11));
}

#[test]
fn location_is_recorded_for_redirections_only() {
    let headers = vec![HeaderField::new("location", b"/elsewhere")];
    let ok = ResponseParts { status: 200, headers: headers.clone() };
    assert_eq!(copy_from_http_response_to_har(&ok, Vec::new()).redirect_url, Some(String::new()));
    let moved = ResponseParts { status: 301, headers };
    assert_eq!(
        copy_from_http_response_to_har(&moved, Vec::new()).redirect_url,
        Some("/elsewhere".to_string())
    );
    let bare = ResponseParts { status: 399, headers: Vec::new() };
    assert_eq!(copy_from_http_response_to_har(&bare, Vec::new()).redirect_url, Some(String::new()));
    let client_error = ResponseParts { status: 400, headers: vec![HeaderField::new("location", b"/x")] };
    assert_eq!(
        copy_from_http_response_to_har(&client_error, Vec::new()).redirect_url,
        Some(String::new())
    );
}

#[test]
fn status_without_registered_reason_has_empty_text() {
    let odd = ResponseParts { status: 299, headers: Vec::new() };
    assert_eq!(copy_from_http_response_to_har(&odd, Vec::new()).status_text, "");
    let outside = ResponseParts { status: 42, headers: Vec::new() };
    let record = copy_from_http_response_to_har(&outside, Vec::new());
    assert_eq!(record.status_text, "");
    assert_eq!(record.status, 42);
    let missing = ResponseParts { status: 404, headers: Vec::new() };
    assert_eq!(copy_from_http_response_to_har(&missing, Vec::new()).status_text, "Not Found");
}

#[test]
fn headers_that_cannot_be_recorded_give_nothing() {
    let unreadable = RequestParts {
        method: "GET".to_string(),
        uri: "/".to_string(),
        headers: vec![HeaderField::new("cookie", b"no pair here")],
    };
    assert!(!can_record(&unreadable.headers, "cookie"));
    assert!(can_record(&unreadable.headers, "set-cookie"));
    assert_eq!(try_copy_from_http_request_to_har(&unreadable, Vec::new()), None);

    let binary = ResponseParts {
        status: 200,
        headers: vec![HeaderField::new("x-raw", &[0x80, 0x81])],
    };
    assert!(!can_record(&binary.headers, "set-cookie"));
    assert_eq!(try_copy_from_http_response_to_har(&binary, Vec::new()), None);

    let fine = post_request();
    assert_eq!(
        try_copy_from_http_request_to_har(&fine, b"x".to_vec()),
        Some(copy_from_http_request_to_har(&fine, b"x".to_vec()))
    );
    let plain = ResponseParts { status: 204, headers: Vec::new() };
    assert_eq!(
        try_copy_from_http_response_to_har(&plain, Vec::new()),
        Some(copy_from_http_response_to_har(&plain, Vec::new()))
    );
}

#[test]
fn visible_ascii_is_text() {
    assert!(is_text(&b"plain text\twith a tab".to_vec()));
    assert!(is_text(&Vec::new()));
    assert!(is_text(&vec![32, 126]));
    assert!(!is_text(&vec![31]));
    assert!(!is_text(&vec![127]));
    assert!(!is_text(&vec![b'a', 0xe9]));
    assert!(!is_text(&vec![b'\n']));
}

#[test]
fn headers_size_counts_names_and_values() {
    let headers = vec![HeaderField::new("a", b"bc"), HeaderField::new("host", b"example.com")];
    assert_eq!(headers_size(&headers), 3 + 15);
    assert_eq!(headers_size(&Vec::new()), 0);
}

#[test]
fn cookie_without_pair_is_not_read() {
    assert_eq!(try_parse_cookie("no pair here"), None);
    assert_eq!(try_parse_cookie("=value"), None);
    let read = try_parse_cookie("k=v; HttpOnly").unwrap();
    assert_eq!(read.name, "k");
    assert_eq!(read.value, "v");
    assert_eq!(read.http_only, Some(true));
    assert_eq!(read.secure, None);
    assert_eq!(read.expires, None);
}

#[test]
fn cookie_expiry_is_written_under_the_description() {
    let read = parse_cookie("k=v; Expires=Wed, 21 Oct 2015 07:28:00 GMT");
    assert_eq!(read.expires, Some("%F %r %z".to_string()));
    let session = cookie_to_har(CookieParts {
        name: "k".to_string(),
        value: "v".to_string(),
        path: None,
        domain: None,
        expires: Some(CookieExpiry::Session),
        http_only: None,
        secure: None,
    });
    assert_eq!(session.expires, Some("session".to_string()));
    assert_eq!(session.name, "k");
    assert_eq!(session.value, "v");
}

#[test]
fn body_that_is_not_json_reads_as_null() {
    assert_eq!(convert_body_to_json(b"not json".to_vec()), Json::Null);
    assert_eq!(convert_body_to_json(Vec::new()), Json::Null);
    assert_eq!(convert_body_to_json(vec![0xff]), Json::Null);
    assert_eq!(convert_body_to_json(b"[1, true]".to_vec()),
        Json::Array(vec![Json::Number("1".to_string()), Json::Bool(true)]));
}

#[test]
fn prompt_of_a_body_without_messages_is_empty() {
    assert_eq!(parse_request(br#"{"other": 1}"#.to_vec()), "");
    assert_eq!(parse_request(b"not json".to_vec()), "");
    assert_eq!(try_parse_request(br#"{"other": 1}"#.to_vec()), Some(String::new()));
}

#[test]
fn prompt_without_first_part_is_null() {
    let body = br#"{"messages":[{"content":{"parts":[]}}]}"#.to_vec();
    assert_eq!(parse_request(body.clone()), "null");
    assert_eq!(try_parse_request(body), Some("null".to_string()));
    let object = br#"{"messages":[{"content":{"parts":{"a":1}}}]}"#.to_vec();
    assert_eq!(parse_request(object), "null");
}

#[test]
fn prompt_is_written_as_json() {
    let body = br#"{"messages":[{"content":{"parts":[{"b":[1,2.5,-3],"a":"x\"y"}]}}]}"#.to_vec();
    assert_eq!(parse_request(body), r#"{"a":"x\"y","b":[1,2.5,-3]}"#);
}

#[test]
fn prompt_with_broken_place_cannot_be_told() {
    assert_eq!(try_parse_request(br#"{"messages":[]}"#.to_vec()), None);
    assert_eq!(try_parse_request(br#"{"messages":"text"}"#.to_vec()), None);
    assert_eq!(try_parse_request(br#"{"messages":[{"id":1}]}"#.to_vec()), None);
    assert_eq!(try_parse_request(br#"{"messages":[{"content":{}}]}"#.to_vec()), None);
    assert_eq!(try_parse_request(br#"{"messages":[{"content":"text"}]}"#.to_vec()), None);
    let json = convert_body_to_json(br#"{"messages":[]}"#.to_vec());
    assert_eq!(prompt_of(&json), None);
}

const REFUSAL: &str = "Impossible d'executer votre requ\u{ea}te car elle contient des informations compromettantes pour votre entreprise !";

fn expected_refusal(message_id: &str, parent: &str, conversation: &str) -> String {
    format!(
        "data: {{\"conversation_id\":{conversation},\"error\":null,\"message\":{{\"author\":{{\"metadata\":{{}},\"name\":null,\"role\":\"assistant\"}},\"channel\":null,\"content\":{{\"content_type\":\"text\",\"parts\":[\"{REFUSAL}\"]}},\"create_time\":null,\"end_turn\":true,\"id\":\"{message_id}\",\"metadata\":{{\"citations\":[],\"content_references\":[],\"default_model_slug\":\"auto\",\"finish_details\":{{\"stop_tokens\":[200002],\"type\":\"stop\"}},\"gizmo_id\":null,\"is_complete\":true,\"message_type\":\"next\",\"model_slug\":\"gpt-4o\",\"model_switcher_deny\":[],\"pad\":\"AAAAAAAAAAAAAAAAAAAAAA\",\"parent_id\":{parent}}},\"recipient\":\"all\",\"status\":\"finished_successfully\",\"update_time\":null,\"weight\":1.0}}}}\n\n"
    )
}

#[test]
fn blocked_answer_for_a_new_conversation() {
    let json = convert_body_to_json(br#"{"messages":[{"id":"parent-1"}]}"#.to_vec());
    let body = write_sse_body(&json, "conv-1".to_string(), "msg-1".to_string());
    let expected = format!(
        "{}{}{}{}",
        expected_refusal("msg-1", "\"parent-1\"", "\"conv-1\""),
        "data: {\"conversation_id\":\"conv-1\",\"title\":\"New chat\",\"type\":\"title_generation\"}\n\n",
        "data: {\"banner_info\":null,\"blocked_features\":[],\"conversation_id\":\"conv-1\",\"default_model_slug\":\"auto\",\"model_limits\":[],\"type\":\"conversation_detail_metadata\"}\n\n",
        "data: [DONE]\n\n",
    );
    assert_eq!(body, expected);
}

#[test]
fn blocked_answer_for_a_known_conversation() {
    let json = convert_body_to_json(
        br#"{"conversation_id":"known","messages":[{"id":7}]}"#.to_vec(),
    );
    let body = write_sse_body(&json, "unused".to_string(), "msg-2".to_string());
    let expected = format!(
        "{}{}{}{}",
        expected_refusal("msg-2", "7", "\"known\""),
        "data: \"\"\n\n",
        "data: {\"banner_info\":null,\"blocked_features\":[],\"conversation_id\":\"known\",\"default_model_slug\":\"auto\",\"model_limits\":[],\"type\":\"conversation_detail_metadata\"}\n\n",
        "data: [DONE]\n\n",
    );
    assert_eq!(body, expected);
}

#[test]
fn blocked_answer_has_three_frames_and_the_closing_one() {
    let response = create_response(br#"{"messages":[{"id":"p"}]}"#.to_vec());
    let text = String::from_utf8(response.body).unwrap();
    let frames: Vec<&str> = text.split("\n\n").collect();
    assert_eq!(frames.len(), 5);
    assert!(frames[0].starts_with("data: {"));
    assert!(frames[1].starts_with("data: {"));
    assert!(frames[2].starts_with("data: {"));
    assert_eq!(frames[3], "data: [DONE]");
    assert_eq!(frames[4], "");
}

#[test]
fn blocked_answer_is_empty_without_a_message_to_answer() {
    for body in [
        &br#"{"other":1}"#[..],
        &br#"{"messages":[]}"#[..],
        &br#"{"messages":[{"content":1}]}"#[..],
        &b"not json"[..],
    ] {
        let json = convert_body_to_json(body.to_vec());
        assert_eq!(write_sse_body(&json, "c".to_string(), "m".to_string()), "");
        let response = blocked_response(&json, "c".to_string(), "m".to_string());
        assert_eq!(response.parts.status, 200);
        assert!(response.body.is_empty());
    }
}

#[test]
fn blocked_request_is_logged_with_the_client_address() {
    let parts = RequestParts {
        method: "POST".to_string(),
        uri: "https://chatgpt.com/backend-api/conversation".to_string(),
        headers: vec![HeaderField::new("host", b"chatgpt.com")],
    };
    let body = br#"{"messages":[{"id":"p","content":{"parts":["confidential"]}}]}"#.to_vec();
    let (entry, response) = log_blocked_request(&parts, body.clone(), "127.0.0.1:5000".to_string());
    assert_eq!(entry.server_ip_address, Some("127.0.0.1:5000".to_string()));
    assert_eq!(entry.time, 0);
    assert_eq!(entry.pageref, None);
    assert_eq!(entry.connection, None);
    assert_eq!(entry.comment, None);
    assert_eq!(entry.cache, Cache { before_request: None, after_request: None });
    assert_eq!(
        entry.timings,
        Timings {
            blocked: None,
            dns: None,
            connect: None,
            send: 0,
            wait: 0,
            receive: 0,
            ssl: None,
            comment: None,
        }
    );
    assert_eq!(entry.cache, Cache::none());
    assert_eq!(entry.timings, Timings::none());
    // ISO 8601: date, `T`, time with milliseconds, offset of the zone
    let started = entry.started_date_time.as_bytes();
    assert_eq!(started.len(), 29);
    assert_eq!((started[4], started[7], started[10]), (b'-', b'-', b'T'));
    assert_eq!((started[13], started[16], started[19]), (b':', b':', b'.'));
    assert!(started[23] == b'+' || started[23] == b'-');
    assert_eq!(started[26], b':');
    assert_eq!(entry.request, copy_from_http_request_to_har(&parts, body.clone()));
    assert_eq!(entry.request.url, "https://chatgpt.com/backend-api/conversation");
    assert_eq!(entry.response, copy_from_http_response_to_har(&response.parts, response.body.clone()));
    assert_eq!(entry.response.status, 200);
    assert_eq!(entry.response.status_text, "OK");
    assert_eq!(entry.response.content.mime_type, Some("text/event-stream".to_string()));
    assert_eq!(entry.response.content.text, Some(String::from_utf8(response.body.clone()).unwrap()));
    assert_eq!(entry.response.headers_size, 12 + 17);
    assert!(response.body.ends_with(b"data: [DONE]\n\n"));

    let again = try_log_blocked_request(&parts, body, "127.0.0.1:5000".to_string());
    assert!(again.is_some());
    let unreadable = RequestParts {
        method: "POST".to_string(),
        uri: "/".to_string(),
        headers: vec![HeaderField::new("cookie", b"broken")],
    };
    assert!(try_log_blocked_request(&unreadable, Vec::new(), "c".to_string()).is_none());
}

#[test]
fn entry_of_a_blocked_request_is_written_from_its_parts() {
    let parts = post_request();
    let json = convert_body_to_json(br#"{"messages":[{"id":1}]}"#.to_vec());
    let response = blocked_response(&json, "c".to_string(), "m".to_string());
    let entry = record_blocked(
        &parts,
        b"body".to_vec(),
        "10.0.0.1:1234".to_string(),
        "01/02/2024 03:04:05".to_string(),
        &response,
    );
    assert_eq!(entry.started_date_time, "01/02/2024 03:04:05");
    assert_eq!(entry.server_ip_address, Some("10.0.0.1:1234".to_string()));
    assert_eq!(entry.request, copy_from_http_request_to_har(&parts, b"body".to_vec()));
    assert_eq!(entry.response, copy_from_http_response_to_har(&response.parts, response.body.clone()));
}

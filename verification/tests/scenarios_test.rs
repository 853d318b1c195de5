use tls_interceptor_proxy::http::{HeaderField, RequestParts, ResponseParts};
use tls_interceptor_proxy::policy::{screen, Verdict};
use tls_interceptor_proxy::third_wheel::certificates::{CertificateAuthority, CertificateFields};
use tls_interceptor_proxy::third_wheel::error::Error;
use tls_interceptor_proxy::third_wheel::proxy::mitm::{RequestSendingSynchronizer, Step};
use tls_interceptor_proxy::third_wheel::proxy::{
    ClientTunnel, MitmProxy, TunnelAction, TunnelEvent, TunnelState, Tunnels,
};
use tls_interceptor_proxy::utilities::{
    copy_from_http_request_to_har, copy_from_http_response_to_har, headers_from_har,
    log_blocked_request, request_from_har, response_from_har,
};

fn proxy() -> MitmProxy<()> {
    let root = CertificateFields {
        subject: b"CN=root".to_vec(),
        subject_alt_names: Vec::new(),
        not_before: 0,
        not_after: 10,
    };
    MitmProxy::builder((), CertificateAuthority::new(root, b"key".to_vec())).build()
}

fn request(method: &str, uri: &str, host: &[u8]) -> RequestParts {
    RequestParts {
        method: method.to_string(),
        uri: uri.to_string(),
        headers: vec![HeaderField::new("host", host)],
    }
}

fn bridged(client: &str) -> ClientTunnel {
    let mut t = ClientTunnel::new("example.com".to_string(), "443".to_string(), client.to_string());
    assert!(t.advance(TunnelEvent::UpstreamConnected { presented: Some(vec![1]) }).is_some());
    assert!(t.advance(TunnelEvent::ClientAccepted).is_some());
    assert!(t.advance(TunnelEvent::SynchronizerSpawned).is_some());
    t
}

#[test]
fn forwarded_request_reaches_the_origin_and_is_recorded() {
    let (status, tunnel) = proxy().accept(
        &request("CONNECT", "example.com:443", b"example.com:443"),
        "192.0.2.1:1000".to_string(),
    );
    assert_eq!(status, 200);
    assert!(tunnel.is_some());

    let get = request("GET", "https://example.com/", b"example.com");
    assert_eq!(screen(&get, &Vec::new()), Some(Verdict::Forward));

    let mut s = RequestSendingSynchronizer::new();
    assert_eq!(s.enqueue(get.clone()), Ok(0));
    match s.next() {
        Step::Dispatch { ticket, request } => {
            assert_eq!(ticket, 0);
            assert_eq!(request.method, "GET");
            assert_eq!(request.uri, "/");
        }
        _ => panic!("the request can be sent"),
    }
    let answer = ResponseParts { status: 200, headers: Vec::new() };
    let (ticket, outcome) = s.complete(Ok((answer.clone(), b"hello".to_vec()))).unwrap();
    assert_eq!(ticket, 0);
    assert_eq!(outcome, Ok((answer.clone(), b"hello".to_vec())));

    let recorded = copy_from_http_request_to_har(&get, Vec::new());
    assert_eq!(recorded.url, "https://example.com/");
    let recorded = copy_from_http_response_to_har(&answer, b"hello".to_vec());
    assert_eq!(recorded.status, 200);
    assert_eq!(recorded.status_text, "OK");
    assert_eq!(recorded.content.text, Some("hello".to_string()));
}

#[test]
fn blocked_request_is_answered_in_the_origins_place() {
    let post = request("POST", "https://chatgpt.com/backend-api/conversation", b"chatgpt.com");
    let body = br#"{"messages":[{"id":"m1","content":{"parts":["our confidential plan"]}}]}"#.to_vec();
    assert_eq!(screen(&post, &body), Some(Verdict::Block));

    // nothing is enqueued for a blocked request: the origin receives nothing
    let mut s = RequestSendingSynchronizer::new();
    assert!(matches!(s.next(), Step::Wait));

    let (entry, response) = log_blocked_request(&post, body, "192.0.2.1:1000".to_string());
    assert_eq!(response.parts.status, 200);
    assert_eq!(
        response.parts.headers,
        vec![HeaderField::new("content-type", b"text/event-stream")]
    );
    let text = String::from_utf8(response.body).unwrap();
    let frames: Vec<&str> = text.split_inclusive("\n\n").collect();
    assert_eq!(frames.len(), 4);
    for frame in &frames[..3] {
        assert!(frame.starts_with("data: {"));
        assert!(frame.ends_with("}\n\n"));
    }
    assert_eq!(frames[3], "data: [DONE]\n\n");
    assert_eq!(entry.server_ip_address, Some("192.0.2.1:1000".to_string()));
}

#[test]
fn connect_without_port_gets_400_and_no_tunnel() {
    let (status, tunnel) =
        proxy().accept(&request("CONNECT", "example.com", b"example.com"), "c:1".to_string());
    assert_eq!(status, 400);
    assert!(tunnel.is_none());
}

#[test]
fn upstream_failure_closes_the_acknowledged_tunnel() {
    let (status, tunnel) = proxy().accept(
        &request("CONNECT", "no-such-host.invalid:443", b"no-such-host.invalid:443"),
        "c:1".to_string(),
    );
    assert_eq!(status, 200);
    let mut tunnel = tunnel.unwrap();
    assert_eq!(tunnel.upstream_address(&Vec::new()), "no-such-host.invalid:443");
    let failure = Error::IOError("failed to lookup address information".to_string());
    assert_eq!(
        tunnel.advance(TunnelEvent::Failed { error: failure.clone() }),
        Some(TunnelAction::Close { error: Some(failure) })
    );
    assert_eq!(tunnel.current(), TunnelState::Closed);
}

#[test]
fn keepalive_requests_keep_their_order() {
    let mut s = RequestSendingSynchronizer::new();
    for path in ["/a", "/b", "/c"] {
        assert!(s.enqueue(request("GET", path, b"example.com")).is_ok());
    }
    let mut upstream = Vec::new();
    let mut replies = Vec::new();
    loop {
        match s.next() {
            Step::Dispatch { request, .. } => {
                upstream.push(request.uri.clone());
                let (ticket, outcome) = s.complete(Ok::<String, Error>(request.uri)).unwrap();
                replies.push((ticket, outcome.unwrap()));
            }
            Step::Wait => break,
            _ => panic!("every request can be sent"),
        }
    }
    assert_eq!(upstream, vec!["/a", "/b", "/c"]);
    assert_eq!(
        replies,
        vec![(0, "/a".to_string()), (1, "/b".to_string()), (2, "/c".to_string())]
    );
}

#[test]
fn error_on_one_tunnel_leaves_the_others_alone() {
    let mut tunnels = Tunnels::new();
    assert_eq!(tunnels.open(bridged("a:1")), 0);
    assert_eq!(tunnels.open(bridged("b:2")), 1);
    assert_eq!(tunnels.open(bridged("c:3")), 2);
    assert_eq!(tunnels.count(), 3);
    for index in 0..3 {
        assert_eq!(tunnels.enqueue(index, request("GET", "/x", b"h")), Some(Ok(0)));
        assert_eq!(tunnels.enqueue(index, request("GET", "/y", b"h")), Some(Ok(1)));
        assert!(matches!(tunnels.next(index), Some(Step::Dispatch { ticket: 0, .. })));
    }

    let failure = Error::HyperError("connection reset".to_string());
    assert_eq!(
        tunnels.complete::<u16>(1, Err(failure.clone())),
        Some((0, Err(failure.clone())))
    );
    assert_eq!(
        tunnels.advance(1, TunnelEvent::Failed { error: failure.clone() }),
        Some(TunnelAction::Close { error: Some(failure) })
    );
    assert_eq!(tunnels.state_of(1), Some(TunnelState::Closed));

    for index in [0, 2] {
        assert_eq!(tunnels.state_of(index), Some(TunnelState::Bridged));
        assert!(matches!(tunnels.next(index), Some(Step::Wait)));
        assert_eq!(tunnels.complete(index, Ok::<u16, Error>(200)), Some((0, Ok(200))));
        match tunnels.next(index) {
            Some(Step::Dispatch { ticket, request }) => {
                assert_eq!(ticket, 1);
                assert_eq!(request.uri, "/y");
            }
            _ => panic!("the second request of the tunnel is due"),
        }
    }

    assert_eq!(tunnels.state_of(3), None);
    assert_eq!(tunnels.advance(3, TunnelEvent::ClientAccepted), None);
    assert_eq!(tunnels.enqueue(3, request("GET", "/", b"h")), None);
    assert!(tunnels.next(3).is_none());
    assert_eq!(tunnels.complete(3, Ok::<u16, Error>(200)), None);
}

#[test]
fn record_gives_back_what_was_recorded() {
    let parts = RequestParts {
        method: "POST".to_string(),
        uri: "https://example.com/p?q=1".to_string(),
        headers: vec![
            HeaderField::new("content-type", b"text/plain; charset=utf-8"),
            HeaderField::new("x-tab", b"a\tb"),
            HeaderField::new("cookie", b"k=v"),
        ],
    };
    let body = "requ\u{ea}te".as_bytes().to_vec();
    let record = copy_from_http_request_to_har(&parts, body.clone());
    assert_eq!(request_from_har(&record), (parts.clone(), body));
    let empty = copy_from_http_request_to_har(&parts, Vec::new());
    assert_eq!(request_from_har(&empty), (parts, Vec::new()));

    let answer = ResponseParts {
        status: 404,
        headers: vec![HeaderField::new("content-length", b"9")],
    };
    let record = copy_from_http_response_to_har(&answer, b"not found".to_vec());
    assert_eq!(response_from_har(&record), (answer.clone(), b"not found".to_vec()));
    let empty = copy_from_http_response_to_har(&answer, Vec::new());
    assert_eq!(response_from_har(&empty), (answer, Vec::new()));
    assert!(headers_from_har(&Vec::new()).is_empty());
}

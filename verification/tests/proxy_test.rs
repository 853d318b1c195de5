use tls_interceptor_proxy::http::{HeaderField, RequestParts};
use tls_interceptor_proxy::third_wheel::certificates::{CertificateAuthority, CertificateFields};
use tls_interceptor_proxy::third_wheel::error::Error;
use tls_interceptor_proxy::third_wheel::proxy::{
    admission, connect_address, lookup_host, pair_host_port, peer_certificate,
    target_host_port_from_connect,
    Admission, ClientTunnel, HostMapping, MitmProxy, TunnelAction, TunnelEvent, TunnelState,
};

fn request(method: &str, uri: &str) -> RequestParts {
    RequestParts { method: method.to_string(), uri: uri.to_string(), headers: Vec::new() }
}

fn authority() -> CertificateAuthority {
    CertificateAuthority::new(
        CertificateFields {
            subject: b"CN=root".to_vec(),
            subject_alt_names: Vec::new(),
            not_before: 0,
            not_after: 1_000,
        },
        b"key".to_vec(),
    )
}

#[test]
fn connect_target_gives_host_and_port() {
    assert_eq!(
        target_host_port_from_connect(&request("CONNECT", "example.com:443")),
        Ok(("example.com".to_string(), "443".to_string()))
    );
    assert_eq!(
        target_host_port_from_connect(&request("CONNECT", "https://user@example.org:8443/x")),
        Ok(("example.org".to_string(), "8443".to_string()))
    );
}

#[test]
fn connect_target_without_port_is_rejected() {
    assert_eq!(
        target_host_port_from_connect(&request("CONNECT", "example.com")),
        Err(Error::RequestError("No port found on CONNECT request".to_string()))
    );
}

#[test]
fn connect_target_without_host_is_rejected() {
    assert_eq!(
        target_host_port_from_connect(&request("CONNECT", "/path/only")),
        Err(Error::RequestError("No host found on CONNECT request".to_string()))
    );
    assert_eq!(
        target_host_port_from_connect(&request("CONNECT", "")),
        Err(Error::RequestError("No host found on CONNECT request".to_string()))
    );
}

#[test]
fn only_a_well_formed_connect_opens_a_tunnel() {
    let opened = admission(&request("CONNECT", "example.com:443"));
    assert_eq!(
        opened,
        Admission::Tunnel { host: "example.com".to_string(), port: "443".to_string() }
    );
    assert_eq!(opened.status(), 200);

    let no_port = admission(&request("CONNECT", "example.com"));
    assert_eq!(no_port, Admission::Refuse);
    assert_eq!(no_port.status(), 400);

    assert_eq!(admission(&request("GET", "example.com:443")), Admission::Refuse);
    assert_eq!(admission(&request("connect", "example.com:443")), Admission::Refuse);
    assert_eq!(admission(&request("GET", "https://example.com/")), Admission::Refuse);
}

#[test]
fn mapped_host_is_dialled_at_its_address() {
    let mappings = vec![
        HostMapping { host: "example.com".to_string(), address: "127.0.0.1".to_string() },
        HostMapping { host: "other.test".to_string(), address: "10.0.0.1".to_string() },
        HostMapping { host: "example.com".to_string(), address: "127.0.0.2".to_string() },
    ];
    assert_eq!(lookup_host(&mappings, "example.com"), Some(&"127.0.0.2".to_string()));
    assert_eq!(lookup_host(&mappings, "other.test"), Some(&"10.0.0.1".to_string()));
    assert_eq!(lookup_host(&mappings, "unmapped.test"), None);
    assert_eq!(connect_address(&mappings, "example.com", "443"), "127.0.0.2:443");
    assert_eq!(connect_address(&mappings, "unmapped.test", "8443"), "unmapped.test:8443");
    assert_eq!(connect_address(&Vec::new(), "example.com", "443"), "example.com:443");
}

#[test]
fn origin_without_certificate_is_an_error() {
    assert_eq!(peer_certificate(Some(vec![1, 2, 3])), Ok(vec![1, 2, 3]));
    assert_eq!(
        peer_certificate(None),
        Err(Error::ServerError(
            "Server did not provide a certificate for TLS connection".to_string()
        ))
    );
}

fn tunnel() -> ClientTunnel {
    ClientTunnel::new("example.com".to_string(), "443".to_string(), "192.0.2.7:50000".to_string())
}

#[test]
fn tunnel_walks_through_its_states() {
    let mut t = tunnel();
    assert_eq!(t.current(), TunnelState::Init);
    assert_eq!(t.upstream_address(&Vec::new()), "example.com:443");
    assert_eq!(t.service().get_client_ip(), "192.0.2.7:50000");

    assert_eq!(
        t.advance(TunnelEvent::UpstreamConnected { presented: Some(vec![0x30, 0x82]) }),
        Some(TunnelAction::AcceptClient { upstream_certificate: vec![0x30, 0x82] })
    );
    assert_eq!(t.current(), TunnelState::UpstreamReady);
    assert_eq!(t.advance(TunnelEvent::ClientAccepted), Some(TunnelAction::SpawnSynchronizer));
    assert_eq!(t.current(), TunnelState::ClientTlsUp);
    assert_eq!(t.advance(TunnelEvent::SynchronizerSpawned), Some(TunnelAction::Serve));
    assert_eq!(t.current(), TunnelState::Bridged);
    assert_eq!(
        t.advance(TunnelEvent::ConnectionClosed),
        Some(TunnelAction::Close { error: None })
    );
    assert_eq!(t.current(), TunnelState::Closed);
    assert_eq!(t.advance(TunnelEvent::ConnectionClosed), None);
    assert_eq!(
        t.advance(TunnelEvent::Failed { error: Error::IOError("late".to_string()) }),
        None
    );
    assert_eq!(t.current(), TunnelState::Closed);
}

#[test]
fn failure_closes_a_tunnel_from_every_open_state() {
    let steps = [
        TunnelEvent::UpstreamConnected { presented: Some(vec![1]) },
        TunnelEvent::ClientAccepted,
        TunnelEvent::SynchronizerSpawned,
    ];
    for reached in 0..=steps.len() {
        let mut t = tunnel();
        for event in steps.iter().take(reached) {
            assert!(t.advance(event.clone()).is_some());
        }
        let error = Error::NativeTlsError("handshake failed".to_string());
        assert_eq!(
            t.advance(TunnelEvent::Failed { error: error.clone() }),
            Some(TunnelAction::Close { error: Some(error) })
        );
        assert_eq!(t.current(), TunnelState::Closed);
    }
}

#[test]
fn origin_without_certificate_closes_the_tunnel() {
    let mut t = tunnel();
    assert_eq!(
        t.advance(TunnelEvent::UpstreamConnected { presented: None }),
        Some(TunnelAction::Close {
            error: Some(Error::ServerError(
                "Server did not provide a certificate for TLS connection".to_string()
            ))
        })
    );
    assert_eq!(t.current(), TunnelState::Closed);
}

#[test]
fn event_out_of_turn_changes_nothing() {
    let mut t = tunnel();
    assert_eq!(t.advance(TunnelEvent::ClientAccepted), None);
    assert_eq!(t.advance(TunnelEvent::SynchronizerSpawned), None);
    assert_eq!(t.advance(TunnelEvent::ConnectionClosed), None);
    assert_eq!(t.current(), TunnelState::Init);
    assert!(t.advance(TunnelEvent::UpstreamConnected { presented: Some(vec![1]) }).is_some());
    assert_eq!(t.advance(TunnelEvent::UpstreamConnected { presented: Some(vec![1]) }), None);
    assert_eq!(t.current(), TunnelState::UpstreamReady);
}

#[test]
fn builder_collects_the_parts_of_the_proxy() {
    let proxy = MitmProxy::builder("policy", authority()).build();
    assert_eq!(*proxy.layer(), "policy");
    assert_eq!(*proxy.authority(), authority());
    assert!(proxy.roots().is_empty());
    assert!(proxy.mappings().is_empty());

    let mapping = HostMapping { host: "a.test".to_string(), address: "127.0.0.1".to_string() };
    let proxy = MitmProxy::builder(7u8, authority())
        .additional_root_certificates(vec![vec![1, 2], vec![3]])
        .additional_host_mappings(vec![mapping.clone()])
        .build();
    assert_eq!(*proxy.layer(), 7);
    assert_eq!(proxy.roots(), &vec![vec![1, 2], vec![3]]);
    assert_eq!(proxy.mappings(), &vec![mapping]);
}

#[test]
fn front_end_answers_connect_with_200_and_the_rest_with_400() {
    let proxy = MitmProxy::builder((), authority()).build();
    let (status, opened) = proxy.accept(&request("CONNECT", "example.com:443"), "c:1".to_string());
    assert_eq!(status, 200);
    let opened = opened.unwrap();
    assert_eq!(opened.current(), TunnelState::Init);
    assert_eq!(opened.upstream_address(proxy.mappings()), "example.com:443");
    assert_eq!(opened.service().get_client_ip(), "c:1");

    let (status, none) = proxy.accept(&request("CONNECT", "example.com"), "c:1".to_string());
    assert_eq!(status, 400);
    assert!(none.is_none());
    let (status, none) = proxy.accept(&request("GET", "/"), "c:1".to_string());
    assert_eq!(status, 400);
    assert!(none.is_none());
    let with_header = RequestParts {
        method: "POST".to_string(),
        uri: "example.com:443".to_string(),
        headers: vec![HeaderField::new("host", b"example.com")],
    };
    assert_eq!(proxy.accept(&with_header, "c:1".to_string()).0, 400);
}

#[test]
fn host_is_missed_before_port() {
    let host = Some("h".to_string());
    let port = Some("1".to_string());
    assert_eq!(pair_host_port(host.clone(), port.clone()), Ok(("h".to_string(), "1".to_string())));
    assert_eq!(
        pair_host_port(host, None),
        Err(Error::RequestError("No port found on CONNECT request".to_string()))
    );
    assert_eq!(
        pair_host_port(None, port),
        Err(Error::RequestError("No host found on CONNECT request".to_string()))
    );
    assert_eq!(
        pair_host_port(None, None),
        Err(Error::RequestError("No host found on CONNECT request".to_string()))
    );
}

pub mod mitm;

use crate::archive::optional_text;
use crate::http::{uri_host, uri_host_of, uri_port, uri_port_of, RequestParts};
use crate::text::{owned, same_text};
use crate::third_wheel::certificates::CertificateAuthority;
use crate::third_wheel::error::{Error, ErrorValue};
use crate::third_wheel::proxy::mitm::{RequestSendingSynchronizer, Step, ThirdWheel};
use vstd::prelude::*;
use vstd::string::StringExecFns;

verus! {

/// The host and port that a CONNECT target names, or the reason why it names
/// none.
pub open spec fn connect_target(uri: Seq<char>) -> Result<(Seq<char>, Seq<char>), ErrorValue> {
    paired(uri_host_of(uri), uri_port_of(uri))
}

/// The host and port that were found in a CONNECT target, or the reason why
/// the target names none: the host is missed first.
pub open spec fn paired(host: Option<Seq<char>>, port: Option<Seq<char>>) -> Result<
    (Seq<char>, Seq<char>),
    ErrorValue,
> {
    match host {
        None => Err(ErrorValue::RequestError("No host found on CONNECT request"@)),
        Some(host) => match port {
            None => Err(ErrorValue::RequestError("No port found on CONNECT request"@)),
            Some(port) => Ok((host, port)),
        },
    }
}

/// Puts together the host and the port that were found in a CONNECT target.
///
/// Fails with a request error where either was not found.
pub fn pair_host_port(host: Option<String>, port: Option<String>) -> (r: Result<
    (String, String),
    Error,
>)
    ensures
        match r {
            Ok((h, p)) => paired(optional_text(host), optional_text(port)) == Ok::<
                (Seq<char>, Seq<char>),
                ErrorValue,
            >((h@, p@)),
            Err(e) => paired(optional_text(host), optional_text(port)) == Err::<
                (Seq<char>, Seq<char>),
                ErrorValue,
            >(e@),
        },
{
    match host {
        None => Err(Error::request("No host found on CONNECT request")),
        Some(host) => match port {
            None => Err(Error::request("No port found on CONNECT request")),
            Some(port) => Ok((host, port)),
        },
    }
}

/// Reads the host and the port off the target of a CONNECT request.
///
/// Fails with a request error where the target lacks either.
pub fn target_host_port_from_connect(request: &RequestParts) -> (r: Result<
    (String, String),
    Error,
>)
    ensures
        match r {
            Ok((host, port)) => connect_target(request@.uri) == Ok::<
                (Seq<char>, Seq<char>),
                ErrorValue,
            >((host@, port@)),
            Err(e) => connect_target(request@.uri) == Err::<(Seq<char>, Seq<char>), ErrorValue>(
                e@,
            ),
        },
{
    let host = uri_host(request.uri.as_str());
    let port = uri_port(request.uri.as_str());
    pair_host_port(host, port)
}

/// What the front end does with a request that arrives on a fresh connection.
#[derive(Debug, Clone, PartialEq, Eq)]
pub enum Admission {
    /// Answer 200, then upgrade the connection and run a tunnel to this
    /// origin.
    Tunnel { host: String, port: String },
    /// Answer 400; no tunnel is made.
    Refuse,
}

impl Admission {
    /// The status code of the answer.
    pub open spec fn status_code(self) -> u16 {
        match self {
            Admission::Tunnel { .. } => 200,
            Admission::Refuse => 400,
        }
    }

    /// The status code of the answer.
    pub fn status(&self) -> (code: u16)
        ensures
            code == self.status_code(),
    {
        match self {
            Admission::Tunnel { .. } => 200,
            Admission::Refuse => 400,
        }
    }
}

/// Decides on a request that arrives on a fresh connection: a CONNECT whose
/// target names a host and a port opens a tunnel to them, and everything else
/// is refused.
pub fn admission(request: &RequestParts) -> (admission: Admission)
    ensures
        match admission {
            Admission::Tunnel { host, port } => {
                &&& request@.method == "CONNECT"@
                &&& connect_target(request@.uri) == Ok::<(Seq<char>, Seq<char>), ErrorValue>(
                    (host@, port@),
                )
            },
            Admission::Refuse => request@.method != "CONNECT"@ || connect_target(request@.uri)
                is Err,
        },
{
    if !same_text(request.method.as_str(), "CONNECT") {
        return Admission::Refuse;
    }
    match target_host_port_from_connect(request) {
        Ok((host, port)) => Admission::Tunnel { host, port },
        Err(_) => Admission::Refuse,
    }
}

/// One redirection of a host name to the address that is dialled for it.
#[derive(Debug, Clone, PartialEq, Eq)]
pub struct HostMapping {
    pub host: String,
    pub address: String,
}

/// The hosts and addresses of a run of mappings, in their order.
pub open spec fn mapping_values(mappings: Seq<HostMapping>) -> Seq<(Seq<char>, Seq<char>)> {
    mappings.map_values(|m: HostMapping| (m.host@, m.address@))
}

/// The address that the mappings give for a host: that of the last mapping of
/// the host, as a map filled entry by entry would hold it.
pub open spec fn mapped_address(mappings: Seq<(Seq<char>, Seq<char>)>, host: Seq<char>) -> Option<
    Seq<char>,
>
    decreases mappings.len(),
{
    if mappings.len() == 0 {
        None
    } else if mappings.last().0 == host {
        Some(mappings.last().1)
    } else {
        mapped_address(mappings.drop_last(), host)
    }
}

/// The address that is dialled for an origin: the mapped address of the host,
/// or the host itself where none is mapped, then a colon and the port.
pub open spec fn dial_address(
    mappings: Seq<(Seq<char>, Seq<char>)>,
    host: Seq<char>,
    port: Seq<char>,
) -> Seq<char> {
    let address = match mapped_address(mappings, host) {
        Some(address) => address,
        None => host,
    };
    address + ":"@ + port
}

/// Looks a host up in the mappings.
pub fn lookup_host<'a>(mappings: &'a Vec<HostMapping>, host: &str) -> (found: Option<&'a String>)
    ensures
        match found {
            Some(address) => mapped_address(mapping_values(mappings@), host@) == Some(address@),
            None => mapped_address(mapping_values(mappings@), host@) is None,
        },
{
    let mut found: Option<&String> = None;
    let mut i: usize = 0;
    assert(mapping_values(mappings@).take(0) =~= Seq::empty());
    while i < mappings.len()
        invariant
            i <= mappings.len(),
            match found {
                Some(address) => mapped_address(mapping_values(mappings@).take(i as int), host@)
                    == Some(address@),
                None => mapped_address(mapping_values(mappings@).take(i as int), host@) is None,
            },
        decreases mappings.len() - i,
    {
        proof {
            let next = mapping_values(mappings@).take(i + 1);
            assert(next.drop_last() =~= mapping_values(mappings@).take(i as int));
            assert(next.last() == (mappings@[i as int].host@, mappings@[i as int].address@));
        }
        if same_text(mappings[i].host.as_str(), host) {
            found = Some(&mappings[i].address);
        }
        i = i + 1;
    }
    assert(mapping_values(mappings@).take(mappings.len() as int) =~= mapping_values(mappings@));
    found
}

/// The address to dial for an origin.
pub fn connect_address(mappings: &Vec<HostMapping>, host: &str, port: &str) -> (address: String)
    ensures
        address@ == dial_address(mapping_values(mappings@), host@, port@),
{
    let mut address = match lookup_host(mappings, host) {
        Some(mapped) => mapped.clone(),
        None => owned(host),
    };
    address.append(":");
    address.append(port);
    address
}

/// Takes the certificate that the origin presented in the handshake.
///
/// Fails with a server error where the origin presented none.
pub fn peer_certificate(presented: Option<Vec<u8>>) -> (r: Result<Vec<u8>, Error>)
    ensures
        match presented {
            Some(der) => r == Ok::<Vec<u8>, Error>(der),
            None => r matches Err(e) && e@ == ErrorValue::ServerError(
                "Server did not provide a certificate for TLS connection"@,
            ),
        },
{
    match presented {
        Some(der) => Ok(der),
        None => Err(Error::server("Server did not provide a certificate for TLS connection")),
    }
}

/// Where a tunnel stands.
#[derive(Debug, Clone, Copy, PartialEq, Eq, Structural)]
pub enum TunnelState {
    /// The CONNECT is acknowledged; nothing is connected.
    Init,
    /// TLS to the origin stands and its leaf certificate is captured.
    UpstreamReady,
    /// The client has accepted the spoofed leaf.
    ClientTlsUp,
    /// The synchronizer runs over the upstream session; requests are served.
    Bridged,
    /// The tunnel is over.
    Closed,
}

/// What has happened to a tunnel.
#[derive(Debug, Clone, PartialEq, Eq)]
pub enum TunnelEvent {
    /// The TLS handshake with the origin is done; the origin presented this
    /// certificate, in DER, or none.
    UpstreamConnected { presented: Option<Vec<u8>> },
    /// The client has completed its TLS handshake under the spoofed leaf.
    ClientAccepted,
    /// The synchronizer has been started over the upstream session.
    SynchronizerSpawned,
    /// The client's connection has ended.
    ConnectionClosed,
    /// A step has failed.
    Failed { error: Error },
}

/// What the driver of a tunnel does next.
#[derive(Debug, Clone, PartialEq, Eq)]
pub enum TunnelAction {
    /// Mint a leaf after this certificate of the origin and accept TLS from
    /// the client under it.
    AcceptClient { upstream_certificate: Vec<u8> },
    /// Start the synchronizer over the upstream session.
    SpawnSynchronizer,
    /// Serve the client's requests through the policy.
    Serve,
    /// Close the tunnel, and report the error if there is one.
    Close { error: Option<Error> },
}

/// The kind of an event, without what it carries.
pub enum EventKind {
    UpstreamWithCertificate,
    UpstreamWithoutCertificate,
    ClientAccepted,
    SynchronizerSpawned,
    ConnectionClosed,
    Failed,
}

impl TunnelEvent {
    /// The kind of this event.
    pub open spec fn kind(self) -> EventKind {
        match self {
            TunnelEvent::UpstreamConnected { presented: Some(_) } => {
                EventKind::UpstreamWithCertificate
            },
            TunnelEvent::UpstreamConnected { presented: None } => {
                EventKind::UpstreamWithoutCertificate
            },
            TunnelEvent::ClientAccepted => EventKind::ClientAccepted,
            TunnelEvent::SynchronizerSpawned => EventKind::SynchronizerSpawned,
            TunnelEvent::ConnectionClosed => EventKind::ConnectionClosed,
            TunnelEvent::Failed { .. } => EventKind::Failed,
        }
    }
}

/// The state that follows `state` on an event of the given kind; none where
/// the event does not belong to the state.
///
/// A tunnel walks from `Init` through `UpstreamReady` and `ClientTlsUp` to
/// `Bridged`, one step per event, and from `Bridged` to `Closed` when the
/// connection ends. A failure closes it from any state but `Closed`, and so
/// does an origin that presents no certificate.
pub open spec fn successor(state: TunnelState, kind: EventKind) -> Option<TunnelState> {
    match (state, kind) {
        (TunnelState::Closed, _) => None,
        (_, EventKind::Failed) => Some(TunnelState::Closed),
        (TunnelState::Init, EventKind::UpstreamWithCertificate) => Some(TunnelState::UpstreamReady),
        (TunnelState::Init, EventKind::UpstreamWithoutCertificate) => Some(TunnelState::Closed),
        (TunnelState::UpstreamReady, EventKind::ClientAccepted) => Some(TunnelState::ClientTlsUp),
        (TunnelState::ClientTlsUp, EventKind::SynchronizerSpawned) => Some(TunnelState::Bridged),
        (TunnelState::Bridged, EventKind::ConnectionClosed) => Some(TunnelState::Closed),
        _ => None,
    }
}

/// The state of one CONNECT tunnel: the origin it leads to, the client it
/// serves, and how far it has come.
pub struct ClientTunnel {
    host: String,
    port: String,
    client_ip: String,
    state: TunnelState,
}

impl ClientTunnel {
    /// The host of the origin.
    pub closed spec fn host(&self) -> Seq<char> {
        self.host@
    }

    /// The port of the origin.
    pub closed spec fn port(&self) -> Seq<char> {
        self.port@
    }

    /// The address of the client.
    pub closed spec fn client_ip(&self) -> Seq<char> {
        self.client_ip@
    }

    /// Where the tunnel stands.
    pub closed spec fn state(&self) -> TunnelState {
        self.state
    }

    /// A tunnel to the origin `host`:`port` for the client at `client_ip`, on
    /// which nothing has happened yet.
    pub fn new(host: String, port: String, client_ip: String) -> (tunnel: Self)
        ensures
            tunnel.host() == host@,
            tunnel.port() == port@,
            tunnel.client_ip() == client_ip@,
            tunnel.state() == TunnelState::Init,
    {
        ClientTunnel { host, port, client_ip, state: TunnelState::Init }
    }

    /// The host of the origin.
    pub fn host_name(&self) -> (host: &String)
        ensures
            host@ == self.host(),
    {
        &self.host
    }

    /// The port of the origin.
    pub fn port_number(&self) -> (port: &String)
        ensures
            port@ == self.port(),
    {
        &self.port
    }

    /// Where the tunnel stands.
    pub fn current(&self) -> (state: TunnelState)
        ensures
            state == self.state(),
    {
        self.state
    }

    /// The address to dial for the origin of this tunnel.
    pub fn upstream_address(&self, mappings: &Vec<HostMapping>) -> (address: String)
        ensures
            address@ == dial_address(mapping_values(mappings@), self.host(), self.port()),
    {
        connect_address(mappings, self.host.as_str(), self.port.as_str())
    }

    /// The interception service of this tunnel, which carries the client's
    /// address.
    pub fn service(&self) -> (service: ThirdWheel)
        ensures
            service.client_ip() == self.client_ip(),
    {
        ThirdWheel::new(self.client_ip.clone())
    }

    /// Takes an event and says what to do next.
    ///
    /// An event that does not belong to the state changes nothing and asks
    /// for nothing. Otherwise the tunnel moves to the state that `successor`
    /// gives, and the action is the work that leads out of that state; a
    /// tunnel that closes carries the error that closed it, if any.
    pub fn advance(&mut self, event: TunnelEvent) -> (action: Option<TunnelAction>)
        ensures
            final(self).host() == old(self).host(),
            final(self).port() == old(self).port(),
            final(self).client_ip() == old(self).client_ip(),
            match successor(old(self).state(), event.kind()) {
                None => action is None && final(self).state() == old(self).state(),
                Some(next) => {
                    &&& final(self).state() == next
                    &&& action is Some
                    &&& match event {
                        TunnelEvent::UpstreamConnected { presented: Some(der) } => action
                            == Some(TunnelAction::AcceptClient { upstream_certificate: der }),
                        TunnelEvent::UpstreamConnected { presented: None } => {
                            &&& action matches Some(TunnelAction::Close { error: Some(e) })
                            &&& e@ == ErrorValue::ServerError(
                                "Server did not provide a certificate for TLS connection"@,
                            )
                        },
                        TunnelEvent::ClientAccepted => action == Some(
                            TunnelAction::SpawnSynchronizer,
                        ),
                        TunnelEvent::SynchronizerSpawned => action == Some(TunnelAction::Serve),
                        TunnelEvent::ConnectionClosed => action == Some(
                            TunnelAction::Close { error: None },
                        ),
                        TunnelEvent::Failed { error } => action == Some(
                            TunnelAction::Close { error: Some(error) },
                        ),
                    }
                },
            },
    {
        match (self.state, event) {
            (TunnelState::Closed, _) => None,
            (_, TunnelEvent::Failed { error }) => {
                self.state = TunnelState::Closed;
                Some(TunnelAction::Close { error: Some(error) })
            },
            (TunnelState::Init, TunnelEvent::UpstreamConnected { presented }) => {
                match peer_certificate(presented) {
                    Ok(der) => {
                        self.state = TunnelState::UpstreamReady;
                        Some(TunnelAction::AcceptClient { upstream_certificate: der })
                    },
                    Err(error) => {
                        self.state = TunnelState::Closed;
                        Some(TunnelAction::Close { error: Some(error) })
                    },
                }
            },
            (TunnelState::UpstreamReady, TunnelEvent::ClientAccepted) => {
                self.state = TunnelState::ClientTlsUp;
                Some(TunnelAction::SpawnSynchronizer)
            },
            (TunnelState::ClientTlsUp, TunnelEvent::SynchronizerSpawned) => {
                self.state = TunnelState::Bridged;
                Some(TunnelAction::Serve)
            },
            (TunnelState::Bridged, TunnelEvent::ConnectionClosed) => {
                self.state = TunnelState::Closed;
                Some(TunnelAction::Close { error: None })
            },
            _ => None,
        }
    }
}

/// A tunnel that has closed stays closed, and no event asks anything of it.
pub proof fn lemma_closed_is_final(kind: EventKind)
    ensures
        successor(TunnelState::Closed, kind) is None,
{
}

/// A failure closes a tunnel from every state in which it is open.
pub proof fn lemma_failure_closes(state: TunnelState)
    requires
        state != TunnelState::Closed,
    ensures
        successor(state, EventKind::Failed) == Some(TunnelState::Closed),
{
}

/// One tunnel with the synchronizer of its upstream connection.
pub struct Bridge {
    pub tunnel: ClientTunnel,
    pub synchronizer: RequestSendingSynchronizer,
}

/// The tunnels that a proxy runs side by side, each with its own
/// synchronizer. What happens to one of them leaves the others as they are.
pub struct Tunnels {
    bridges: Vec<Bridge>,
}

impl Tunnels {
    /// The tunnels, in the order in which they were opened.
    pub closed spec fn bridges(&self) -> Seq<Bridge> {
        self.bridges@
    }

    /// Every synchronizer keeps its invariant.
    pub open spec fn wf(&self) -> bool {
        forall|i: int| 0 <= i < self.bridges().len() ==> (#[trigger] self.bridges()[i]).synchronizer.wf()
    }

    /// No tunnels.
    pub fn new() -> (tunnels: Self)
        ensures
            tunnels.wf(),
            tunnels.bridges() == Seq::<Bridge>::empty(),
    {
        Tunnels { bridges: Vec::new() }
    }

    /// The number of tunnels opened so far.
    pub fn count(&self) -> (n: usize)
        ensures
            n == self.bridges().len(),
    {
        self.bridges.len()
    }

    /// Takes a tunnel in, with a synchronizer that has seen no request, and
    /// returns its index.
    pub fn open(&mut self, tunnel: ClientTunnel) -> (index: usize)
        requires
            old(self).wf(),
        ensures
            final(self).wf(),
            index == old(self).bridges().len(),
            final(self).bridges().len() == old(self).bridges().len() + 1,
            final(self).bridges()[index as int].tunnel == tunnel,
            final(self).bridges()[index as int].synchronizer.accepted() == Seq::<
                crate::http::RequestValue,
            >::empty(),
            forall|j: int|
                0 <= j < old(self).bridges().len() ==> final(self).bridges()[j] == old(
                    self,
                ).bridges()[j],
    {
        let index = self.bridges.len();
        self.bridges.push(Bridge { tunnel, synchronizer: RequestSendingSynchronizer::new() });
        index
    }

    /// Where the tunnel at an index stands; nothing for an index that names
    /// no tunnel.
    pub fn state_of(&self, index: usize) -> (state: Option<TunnelState>)
        ensures
            state == if index < self.bridges().len() {
                Some(self.bridges()[index as int].tunnel.state())
            } else {
                None
            },
    {
        if index < self.bridges.len() {
            Some(self.bridges[index].tunnel.current())
        } else {
            None
        }
    }

    /// Hands an event to the tunnel at an index, as `ClientTunnel::advance`
    /// does. No other tunnel and no synchronizer is touched: a failure of one
    /// tunnel closes that tunnel only. An index that names no tunnel changes
    /// nothing.
    pub fn advance(&mut self, index: usize, event: TunnelEvent) -> (action: Option<TunnelAction>)
        requires
            old(self).wf(),
        ensures
            final(self).wf(),
            Self::same_but(old(self).bridges(), final(self).bridges(), index as int),
            index >= old(self).bridges().len() ==> action is None,
            index < old(self).bridges().len() ==> {
                let before = old(self).bridges()[index as int];
                let after = final(self).bridges()[index as int];
                &&& after.synchronizer == before.synchronizer
                &&& after.tunnel.host() == before.tunnel.host()
                &&& after.tunnel.port() == before.tunnel.port()
                &&& after.tunnel.client_ip() == before.tunnel.client_ip()
                &&& match successor(before.tunnel.state(), event.kind()) {
                    None => action is None && after.tunnel.state() == before.tunnel.state(),
                    Some(next) => action is Some && after.tunnel.state() == next,
                }
                &&& (event matches TunnelEvent::Failed { error } ==> before.tunnel.state()
                    != TunnelState::Closed ==> action == Some(
                    TunnelAction::Close { error: Some(error) },
                ))
            },
    {
        if index >= self.bridges.len() {
            return None;
        }
        let mut bridge = self.bridges.remove(index);
        let action = bridge.tunnel.advance(event);
        self.bridges.insert(index, bridge);
        action
    }

    /// Whether two runs of tunnels differ at one index at most.
    pub open spec fn same_but(before: Seq<Bridge>, after: Seq<Bridge>, index: int) -> bool {
        &&& after.len() == before.len()
        &&& forall|j: int| 0 <= j < before.len() && j != index ==> after[j] == before[j]
    }

    /// Takes a request into the queue of the tunnel at an index, as
    /// `RequestSendingSynchronizer::enqueue` does. No other tunnel is
    /// touched. Nothing is done for an index that names no tunnel.
    pub fn enqueue(&mut self, index: usize, request: RequestParts) -> (r: Option<Result<u64, Error>>)
        requires
            old(self).wf(),
            index < old(self).bridges().len() ==> old(
                self,
            ).bridges()[index as int].synchronizer.accepted().len() < u64::MAX,
        ensures
            final(self).wf(),
            Self::same_but(old(self).bridges(), final(self).bridges(), index as int),
            r is Some <==> index < old(self).bridges().len(),
            r matches Some(outcome) ==> {
                let before = old(self).bridges()[index as int];
                let after = final(self).bridges()[index as int];
                &&& after.tunnel == before.tunnel
                &&& after.synchronizer.sent() == before.synchronizer.sent()
                &&& after.synchronizer.resolved() == before.synchronizer.resolved()
                &&& after.synchronizer.in_flight() == before.synchronizer.in_flight()
                &&& match outcome {
                    Ok(ticket) => {
                        &&& !before.synchronizer.is_closed()
                        &&& ticket == before.synchronizer.accepted().len()
                        &&& after.synchronizer.accepted() == before.synchronizer.accepted().push(
                            request@,
                        )
                    },
                    Err(e) => {
                        &&& before.synchronizer.is_closed()
                        &&& e@ == ErrorValue::ServerError(
                            "Failed to connect to server correctly"@,
                        )
                        &&& after.synchronizer.accepted() == before.synchronizer.accepted()
                    },
                }
            },
    {
        if index >= self.bridges.len() {
            return None;
        }
        let mut bridge = self.bridges.remove(index);
        let outcome = bridge.synchronizer.enqueue(request);
        self.bridges.insert(index, bridge);
        Some(outcome)
    }

    /// Asks the synchronizer of the tunnel at an index what to do next, as
    /// `RequestSendingSynchronizer::next` does. No other tunnel is touched.
    /// Nothing is done for an index that names no tunnel.
    pub fn next(&mut self, index: usize) -> (r: Option<Step>)
        requires
            old(self).wf(),
        ensures
            final(self).wf(),
            Self::same_but(old(self).bridges(), final(self).bridges(), index as int),
            r is Some <==> index < old(self).bridges().len(),
            r matches Some(step) ==> {
                let before = old(self).bridges()[index as int];
                let after = final(self).bridges()[index as int];
                &&& after.tunnel == before.tunnel
                &&& after.synchronizer.accepted() == before.synchronizer.accepted()
                &&& match step {
                    Step::Dispatch { ticket, request } => {
                        &&& before.synchronizer.in_flight() is None
                        &&& after.synchronizer.in_flight() == Some(ticket)
                        &&& after.synchronizer.sent() == before.synchronizer.sent().push(ticket)
                        &&& after.synchronizer.resolved() == before.synchronizer.resolved()
                    },
                    Step::Reject { ticket, error } => {
                        &&& after.synchronizer.sent() == before.synchronizer.sent()
                        &&& after.synchronizer.resolved() == before.synchronizer.resolved().push(
                            ticket,
                        )
                    },
                    _ => {
                        &&& after.synchronizer.sent() == before.synchronizer.sent()
                        &&& after.synchronizer.resolved() == before.synchronizer.resolved()
                        &&& after.synchronizer.in_flight() == before.synchronizer.in_flight()
                    },
                }
            },
    {
        if index >= self.bridges.len() {
            return None;
        }
        let mut bridge = self.bridges.remove(index);
        let step = bridge.synchronizer.next();
        self.bridges.insert(index, bridge);
        Some(step)
    }

    /// Hands the outcome of the request that is in flight on the tunnel at
    /// an index to its synchronizer, as `RequestSendingSynchronizer::complete`
    /// does. No other tunnel is touched, whatever the outcome: an error on
    /// one tunnel is the reply of one request of that tunnel. Nothing is done
    /// for an index that names no tunnel.
    pub fn complete<R>(&mut self, index: usize, outcome: Result<R, Error>) -> (r: Option<
        (u64, Result<R, Error>),
    >)
        requires
            old(self).wf(),
        ensures
            final(self).wf(),
            Self::same_but(old(self).bridges(), final(self).bridges(), index as int),
            index >= old(self).bridges().len() ==> r is None,
            index < old(self).bridges().len() ==> {
                let before = old(self).bridges()[index as int];
                let after = final(self).bridges()[index as int];
                &&& after.tunnel == before.tunnel
                &&& after.synchronizer.accepted() == before.synchronizer.accepted()
                &&& after.synchronizer.sent() == before.synchronizer.sent()
                &&& after.synchronizer.in_flight() is None
                &&& match before.synchronizer.in_flight() {
                    Some(ticket) => {
                        &&& r == Some((ticket, outcome))
                        &&& after.synchronizer.resolved() == before.synchronizer.resolved().push(
                            ticket,
                        )
                    },
                    None => {
                        &&& r is None
                        &&& after.synchronizer.resolved() == before.synchronizer.resolved()
                    },
                }
            },
    {
        if index >= self.bridges.len() {
            return None;
        }
        let mut bridge = self.bridges.remove(index);
        let reply = bridge.synchronizer.complete(outcome);
        self.bridges.insert(index, bridge);
        reply
    }
}

/// What happens to one tunnel leaves the request streams of the others as
/// they were: after any step on the tunnel at `index`, every other tunnel
/// stands where it stood, and its synchronizer has taken, sent and answered
/// the same requests.
pub proof fn lemma_isolation(before: Seq<Bridge>, after: Seq<Bridge>, index: int, other: int)
    requires
        Tunnels::same_but(before, after, index),
        0 <= other < before.len(),
        other != index,
    ensures
        after[other].tunnel.state() == before[other].tunnel.state(),
        after[other].synchronizer.accepted() == before[other].synchronizer.accepted(),
        after[other].synchronizer.sent() == before[other].synchronizer.sent(),
        after[other].synchronizer.resolved() == before[other].synchronizer.resolved(),
        after[other].synchronizer.in_flight() == before[other].synchronizer.in_flight(),
{
}

/// The proxy: a policy layer, the certificate authority, the roots that are
/// trusted beside those of the system, and the redirections of hosts.
pub struct MitmProxy<T> {
    mitm_layer: T,
    ca: CertificateAuthority,
    additional_root_certificates: Vec<Vec<u8>>,
    additional_host_mappings: Vec<HostMapping>,
}

/// Collects the parts of a [`MitmProxy`].
pub struct MitmProxyBuilder<T> {
    mitm_layer: T,
    ca: CertificateAuthority,
    additional_root_certificates: Vec<Vec<u8>>,
    additional_host_mappings: Vec<HostMapping>,
}

impl<T> MitmProxyBuilder<T> {
    /// The policy layer.
    pub closed spec fn mitm_layer(&self) -> T {
        self.mitm_layer
    }

    /// The certificate authority.
    pub closed spec fn ca(&self) -> CertificateAuthority {
        self.ca
    }

    /// The additional roots, each in DER.
    pub closed spec fn root_certificates(&self) -> Seq<Vec<u8>> {
        self.additional_root_certificates@
    }

    /// The redirections of hosts.
    pub closed spec fn host_mappings(&self) -> Seq<HostMapping> {
        self.additional_host_mappings@
    }

    /// The proxy with the parts collected so far.
    pub fn build(self) -> (proxy: MitmProxy<T>)
        ensures
            proxy.mitm_layer() == self.mitm_layer(),
            proxy.ca() == self.ca(),
            proxy.root_certificates() == self.root_certificates(),
            proxy.host_mappings() == self.host_mappings(),
    {
        MitmProxy {
            mitm_layer: self.mitm_layer,
            ca: self.ca,
            additional_root_certificates: self.additional_root_certificates,
            additional_host_mappings: self.additional_host_mappings,
        }
    }

    /// Sets the roots that the proxy trusts on outgoing connections beside
    /// those of the system, each in DER; earlier ones are replaced.
    pub fn additional_root_certificates(self, additional_root_certificates: Vec<Vec<u8>>) -> (b:
        Self)
        ensures
            b.root_certificates() == additional_root_certificates@,
            b.mitm_layer() == self.mitm_layer(),
            b.ca() == self.ca(),
            b.host_mappings() == self.host_mappings(),
    {
        let mut b = self;
        b.additional_root_certificates = additional_root_certificates;
        b
    }

    /// Sets the redirections of hosts; earlier ones are replaced.
    pub fn additional_host_mappings(self, additional_host_mappings: Vec<HostMapping>) -> (b: Self)
        ensures
            b.host_mappings() == additional_host_mappings@,
            b.mitm_layer() == self.mitm_layer(),
            b.ca() == self.ca(),
            b.root_certificates() == self.root_certificates(),
    {
        let mut b = self;
        b.additional_host_mappings = additional_host_mappings;
        b
    }
}

impl<T> MitmProxy<T> {
    /// The policy layer.
    pub closed spec fn mitm_layer(&self) -> T {
        self.mitm_layer
    }

    /// The certificate authority.
    pub closed spec fn ca(&self) -> CertificateAuthority {
        self.ca
    }

    /// The additional roots, each in DER.
    pub closed spec fn root_certificates(&self) -> Seq<Vec<u8>> {
        self.additional_root_certificates@
    }

    /// The redirections of hosts.
    pub closed spec fn host_mappings(&self) -> Seq<HostMapping> {
        self.additional_host_mappings@
    }

    /// Starts a proxy from its policy layer and its certificate authority,
    /// with no additional roots and no redirections.
    pub fn builder(mitm_layer: T, ca: CertificateAuthority) -> (b: MitmProxyBuilder<T>)
        ensures
            b.mitm_layer() == mitm_layer,
            b.ca() == ca,
            b.root_certificates() == Seq::<Vec<u8>>::empty(),
            b.host_mappings() == Seq::<HostMapping>::empty(),
    {
        MitmProxyBuilder {
            mitm_layer,
            ca,
            additional_root_certificates: Vec::new(),
            additional_host_mappings: Vec::new(),
        }
    }

    /// The policy layer.
    pub fn layer(&self) -> (layer: &T)
        ensures
            *layer == self.mitm_layer(),
    {
        &self.mitm_layer
    }

    /// The certificate authority.
    pub fn authority(&self) -> (ca: &CertificateAuthority)
        ensures
            *ca == self.ca(),
    {
        &self.ca
    }

    /// The additional roots, each in DER.
    pub fn roots(&self) -> (roots: &Vec<Vec<u8>>)
        ensures
            roots@ == self.root_certificates(),
    {
        &self.additional_root_certificates
    }

    /// The redirections of hosts.
    pub fn mappings(&self) -> (mappings: &Vec<HostMapping>)
        ensures
            mappings@ == self.host_mappings(),
    {
        &self.additional_host_mappings
    }

    /// Decides on a request that arrives on a fresh connection from the
    /// client at `client_ip`: a tunnel to the origin that a well-formed
    /// CONNECT names, answered with 200, or no tunnel and the answer 400.
    pub fn accept(&self, request: &RequestParts, client_ip: String) -> (r: (
        u16,
        Option<ClientTunnel>,
    ))
        ensures
            match r.1 {
                Some(tunnel) => {
                    &&& r.0 == 200
                    &&& request@.method == "CONNECT"@
                    &&& connect_target(request@.uri) == Ok::<(Seq<char>, Seq<char>), ErrorValue>(
                        (tunnel.host(), tunnel.port()),
                    )
                    &&& tunnel.client_ip() == client_ip@
                    &&& tunnel.state() == TunnelState::Init
                },
                None => {
                    &&& r.0 == 400
                    &&& (request@.method != "CONNECT"@ || connect_target(request@.uri) is Err)
                },
            },
    {
        match admission(request) {
            Admission::Tunnel { host, port } => (200, Some(ClientTunnel::new(host, port, client_ip))),
            Admission::Refuse => (400, None),
        }
    }
}

} // verus!

//! The bookkeeping of a peer endpoint: which peers are being dialled, which
//! are connected, where it listens and which protocols it serves.
//!
//! The endpoint decides; whoever drives it performs the `Action`s it hands
//! out on the transport and reports what came of them.

use crate::bytes::{bytes_eq, copy_bytes};
use crate::vec_set::{item_views, Identity, VecSet};
use std::marker::PhantomData;
use std::time::Duration;
use vstd::prelude::*;

verus! {

/// `NegotiationError` of multistream-select: why a negotiation ended without
/// a protocol. The library hands it on and never looks inside.
#[verifier::external_type_specification]
#[verifier::external_body]
pub struct ExNegotiationError(multistream_select::NegotiationError);

/// `ConnectionError` of yamux: why a connection gave no stream. The library
/// hands it on and never looks inside.
#[verifier::external_type_specification]
#[verifier::external_body]
pub struct ExConnectionError(yamux::ConnectionError);

/// Makes the `Failed` value of multistream-select's `NegotiationError`: no
/// protocol could be agreed upon.
#[verifier::external_body]
fn no_protocol_agreed() -> multistream_select::NegotiationError {
    multistream_select::NegotiationError::Failed
}

/// The identity of a peer, derived from its public key: the bytes of the
/// hash.
#[derive(Clone, Debug, PartialEq, Eq, Hash)]
pub struct PeerId {
    pub bytes: Vec<u8>,
}

impl View for PeerId {
    type V = Seq<u8>;

    open spec fn view(&self) -> Seq<u8> {
        self.bytes@
    }
}

impl Identity for PeerId {
    fn same(&self, other: &PeerId) -> (same: bool) {
        bytes_eq(&self.bytes, &other.bytes)
    }

    fn duplicate(&self) -> (copy: PeerId) {
        PeerId { bytes: copy_bytes(&self.bytes) }
    }
}

/// One layer of an address.
#[derive(Clone, Debug, PartialEq, Eq, Hash)]
pub enum Protocol {
    /// The peer that is reached at the layers before.
    P2p(PeerId),
    /// Any other layer, in its encoded form.
    Other(Vec<u8>),
}

pub ghost enum ProtocolView {
    P2p(Seq<u8>),
    Other(Seq<u8>),
}

impl View for Protocol {
    type V = ProtocolView;

    open spec fn view(&self) -> ProtocolView {
        match self {
            Protocol::P2p(peer) => ProtocolView::P2p(peer@),
            Protocol::Other(bytes) => ProtocolView::Other(bytes@),
        }
    }
}

impl Identity for Protocol {
    fn same(&self, other: &Protocol) -> (same: bool) {
        match (self, other) {
            (Protocol::P2p(a), Protocol::P2p(b)) => a.same(b),
            (Protocol::Other(a), Protocol::Other(b)) => bytes_eq(a, b),
            _ => false,
        }
    }

    fn duplicate(&self) -> (copy: Protocol) {
        match self {
            Protocol::P2p(peer) => Protocol::P2p(peer.duplicate()),
            Protocol::Other(bytes) => Protocol::Other(copy_bytes(bytes)),
        }
    }
}

/// A network address: its layers from the outermost in.
#[derive(Clone, Debug, PartialEq, Eq, Hash)]
pub struct Multiaddr {
    pub protocols: Vec<Protocol>,
}

impl View for Multiaddr {
    type V = Seq<ProtocolView>;

    open spec fn view(&self) -> Seq<ProtocolView> {
        item_views(self.protocols@)
    }
}

/// The peer that an address ends with, if it ends with one.
pub open spec fn peer_id_of(address: Seq<ProtocolView>) -> Option<Seq<u8>> {
    if address.len() == 0 {
        None
    } else {
        match address.last() {
            ProtocolView::P2p(peer) => Some(peer),
            ProtocolView::Other(_) => None,
        }
    }
}

impl Identity for Multiaddr {
    fn same(&self, other: &Multiaddr) -> (same: bool) {
        if self.protocols.len() != other.protocols.len() {
            assert(self@.len() != other@.len());
            return false;
        }
        let mut i: usize = 0;
        while i < self.protocols.len()
            invariant
                i <= self.protocols.len(),
                self.protocols.len() == other.protocols.len(),
                forall|j: int| 0 <= j < i ==> self@[j] == other@[j],
            decreases self.protocols.len() - i,
        {
            if !self.protocols[i].same(&other.protocols[i]) {
                assert(self@[i as int] != other@[i as int]);
                return false;
            }
            i += 1;
        }
        assert(self@ =~= other@);
        true
    }

    fn duplicate(&self) -> (copy: Multiaddr) {
        let mut protocols: Vec<Protocol> = Vec::new();
        let mut i: usize = 0;
        while i < self.protocols.len()
            invariant
                i <= self.protocols.len(),
                item_views(protocols@) == self@.subrange(0, i as int),
            decreases self.protocols.len() - i,
        {
            let ghost before = item_views(protocols@);
            let layer = self.protocols[i].duplicate();
            protocols.push(layer);
            assert(item_views(protocols@) =~= before.push(layer@));
            i += 1;
        }
        assert(self@.subrange(0, i as int) =~= self@);
        Multiaddr { protocols }
    }
}

/// The layers of the address that a text spells, as `Multiaddr::from_str` of
/// libp2p reads it: a peer layer as the bytes of the peer's identity, any
/// other layer in its encoded form. Nothing where the text spells no
/// address.
pub uninterp spec fn multiaddr_layers(text: Seq<char>) -> Option<Seq<ProtocolView>>;

/// Calls `Multiaddr::from_str` of `libp2p_core` and hands out the layers of
/// the address one by one (`Multiaddr::iter`): a `/p2p` layer as the bytes
/// of its `PeerId` (`PeerId::to_bytes`), any other layer as the bytes of the
/// address made of that layer alone (`Multiaddr::to_vec`).
#[verifier::external_body]
fn layers_of_text(text: &str) -> (layers: Option<Vec<Protocol>>)
    ensures
        layers.is_some() == multiaddr_layers(text@).is_some(),
        layers matches Some(found) ==> multiaddr_layers(text@) == Some(item_views(found@)),
{
    let address = match <libp2p_core::Multiaddr as std::str::FromStr>::from_str(text) {
        Ok(address) => address,
        Err(_) => return None,
    };
    let one = |layer| libp2p_core::Multiaddr::empty().with(layer).to_vec();
    let layers = address.iter().map(|layer| match layer {
        libp2p_core::multiaddr::Protocol::P2p(peer) => Protocol::P2p(PeerId { bytes: peer.to_bytes() }),
        other => Protocol::Other(one(other)),
    });
    Some(layers.collect())
}

impl Multiaddr {
    /// Reads an address from its text, such as `/memory/42/p2p/<peer>`.
    pub fn parse(text: &str) -> (address: Option<Multiaddr>)
        ensures
            address.is_some() == multiaddr_layers(text@).is_some(),
            address matches Some(a) ==> multiaddr_layers(text@) == Some(a@),
    {
        match layers_of_text(text) {
            Some(protocols) => Some(Multiaddr { protocols }),
            None => None,
        }
    }

    /// An address without layers.
    pub fn empty() -> (address: Multiaddr)
        ensures
            address@ == Seq::<ProtocolView>::empty(),
    {
        let address = Multiaddr { protocols: Vec::new() };
        address
    }

    /// The address with one more layer inside.
    pub fn with(self, protocol: Protocol) -> (address: Multiaddr)
        ensures
            address@ == self@.push(protocol@),
    {
        let mut protocols = self.protocols;
        protocols.push(protocol);
        let address = Multiaddr { protocols };
        address
    }

    /// The peer that the address ends with.
    pub fn extract_peer_id(&self) -> (peer: Option<PeerId>)
        ensures
            match peer_id_of(self@) {
                Some(p) => peer matches Some(found) && found@ == p,
                None => peer is None,
            },
    {
        let n = self.protocols.len();
        if n == 0 {
            return None;
        }
        match &self.protocols[n - 1] {
            Protocol::P2p(peer) => Some(peer.duplicate()),
            Protocol::Other(_) => None,
        }
    }
}

/// Connect to the given address, which has to end with the peer to reach.
/// Refused where the endpoint is connected to that peer or is dialling it.
#[derive(Debug)]
pub struct Connect(pub Multiaddr);

/// Disconnect from the given peer.
#[derive(Clone, Debug)]
pub struct Disconnect(pub PeerId);

/// Listen on the given address.
#[derive(Debug)]
pub struct ListenOn(pub Multiaddr);

/// Ask the endpoint for its `ConnectionStats`.
#[derive(Clone, Copy, Debug)]
pub struct GetConnectionStats;

/// The peers that an endpoint is connected to and the addresses that it
/// listens on; nothing occurs twice in either list.
#[derive(Debug)]
pub struct ConnectionStats {
    pub connected_peers: Vec<PeerId>,
    pub listen_addresses: Vec<Multiaddr>,
}

/// Tells a handler of a new inbound substream from the given peer.
#[derive(Debug)]
pub struct NewInboundSubstream<S> {
    pub peer: PeerId,
    pub stream: S,
}

/// Marks the opening of a substream with one protocol. Used as a type only.
#[derive(Clone, Copy, Debug)]
pub enum Single {
    One,
}

/// Marks the opening of a substream with several protocols. Used as a type
/// only.
#[derive(Clone, Copy, Debug)]
pub enum Multiple {
    Many,
}

/// Open a substream to the given peer.
#[derive(Debug)]
pub struct OpenSubstream<P> {
    peer: PeerId,
    protocols: Vec<String>,
    marker_num_protocols: PhantomData<P>,
}

/// The texts of a list of protocol identifiers, in order.
pub open spec fn protocol_views(protocols: Seq<String>) -> Seq<Seq<char>> {
    protocols.map_values(|protocol: String| protocol@)
}

impl<P> OpenSubstream<P> {
    /// The peer to open the substream to.
    pub closed spec fn peer(&self) -> Seq<u8> {
        self.peer@
    }

    /// The protocols to offer, in the order of preference.
    pub closed spec fn protocols(&self) -> Seq<Seq<char>> {
        protocol_views(self.protocols@)
    }
}

impl OpenSubstream<Single> {
    /// Opens a substream with one protocol: only this one is negotiated.
    pub fn single_protocol(peer: PeerId, protocol: &'static str) -> (msg: Self)
        ensures
            msg.peer() == peer@,
            msg.protocols() == seq![protocol@],
    {
        let mut protocols: Vec<String> = Vec::new();
        protocols.push(protocol.to_owned());
        let msg = OpenSubstream { peer, protocols, marker_num_protocols: PhantomData };
        msg
    }
}

impl OpenSubstream<Multiple> {
    /// Opens a substream with several protocols, which are tried in order;
    /// the first that the peer accepts is used.
    pub fn multiple_protocols(peer: PeerId, protocols: Vec<&'static str>) -> (msg: Self)
        ensures
            msg.peer() == peer@,
            msg.protocols() == protocols@.map_values(|protocol: &'static str| protocol@),
    {
        let mut owned: Vec<String> = Vec::new();
        let mut i: usize = 0;
        while i < protocols.len()
            invariant
                i <= protocols.len(),
                protocol_views(owned@) == protocols@.map_values(
                    |protocol: &'static str| protocol@,
                ).subrange(0, i as int),
            decreases protocols.len() - i,
        {
            let ghost before = protocol_views(owned@);
            let protocol = protocols[i].to_owned();
            owned.push(protocol);
            assert(protocol_views(owned@) =~= before.push(protocol@));
            i += 1;
        }
        OpenSubstream { peer, protocols: owned, marker_num_protocols: PhantomData }
    }
}

/// Why the endpoint refused, or what went wrong on the way to a substream.
#[derive(Debug)]
pub enum Error {
    /// There is no connection to the peer.
    NoConnection(PeerId),
    /// The protocol negotiation did not end in time.
    NegotiationTimeoutReached,
    /// The peer speaks none of the protocols offered.
    NegotiationFailed(multistream_select::NegotiationError),
    /// The connection could not carry another stream.
    BadConnection(yamux::ConnectionError),
    /// The address does not end with a peer.
    NoPeerIdInAddress(Multiaddr),
    /// The endpoint is connected to the peer, or is dialling it.
    AlreadyConnected(PeerId),
}

/// What the endpoint wants done on the transport.
#[derive(Debug)]
pub enum Action {
    /// Dial the address. Report a connection with `NewConnection`, a failure
    /// with `FailedToConnect`.
    Dial { peer: PeerId, address: Multiaddr },
    /// Listen on the address. Report each connection with `NewConnection`,
    /// the end of the listener with `ListenerFailed`.
    Listen { address: Multiaddr },
    /// Keep the connection to the peer, in place of any earlier one: run its
    /// worker and accept its substreams. Report its end with
    /// `ExistingConnectionFailed`.
    Serve { peer: PeerId },
    /// Close the connection to the peer, then drop what runs for it.
    Close { peer: PeerId },
    /// Open a stream to the peer and negotiate one of the protocols, in the
    /// order given, within the time given.
    OpenStream { peer: PeerId, protocols: Vec<String>, timeout: Duration },
}

/// The peers that a list of actions closes the connections to, in order.
pub open spec fn closed_peers(actions: Seq<Action>) -> Seq<Seq<u8>> {
    actions.map_values(
        |action: Action|
            match action {
                Action::Close { peer } => peer@,
                _ => Seq::empty(),
            },
    )
}

/// A connection to a peer was made, by dialling or by a listener.
#[derive(Debug)]
pub struct NewConnection {
    pub peer: PeerId,
}

/// A listener ended.
#[derive(Debug)]
pub struct ListenerFailed {
    pub address: Multiaddr,
}

/// Dialling a peer failed.
#[derive(Debug)]
pub struct FailedToConnect {
    pub peer: PeerId,
}

/// The connection to a peer ended.
#[derive(Debug)]
pub struct ExistingConnectionFailed {
    pub peer: PeerId,
}

/// What came of opening a stream and negotiating a protocol on it.
#[derive(Debug)]
pub enum Negotiation<S> {
    /// The connection gave no stream.
    BadConnection(yamux::ConnectionError),
    /// The negotiation did not end in time.
    TimedOut,
    /// The negotiation ended without a protocol.
    Failed(multistream_select::NegotiationError),
    /// The peer accepted a protocol.
    Selected { protocol: String, stream: S },
}

/// What the acceptor of a connection got when it asked for the next inbound
/// substream.
#[derive(Debug)]
pub enum Incoming<S> {
    /// A substream on which a protocol was negotiated.
    Substream { stream: S, protocol: String },
    /// A substream whose negotiation did not end in time.
    NegotiationTimeoutReached,
    /// A substream whose negotiation ended without a protocol.
    NegotiationFailed(multistream_select::NegotiationError),
    /// The end of the substreams.
    Closed,
    /// An error of the connection.
    ConnectionFailed(yamux::ConnectionError),
}

/// What the acceptor of a connection does next.
#[derive(Debug)]
pub enum Dispatch<S> {
    /// Hand the substream to the handler at this place of the registry, then
    /// go on.
    Deliver { handler: usize, message: NewInboundSubstream<S> },
    /// Go on with the next substream.
    Continue,
    /// Stop: the connection is over.
    Fail,
}

/// A protocol that was given two handlers.
#[derive(Clone, Debug, PartialEq, Eq)]
pub struct DuplicateHandler {
    pub protocol: String,
}

/// Where a peer stands with an endpoint.
pub ghost enum PeerState {
    Absent,
    Inflight,
    Connected,
}

/// How the endpoint answers a `Connect`.
pub ghost enum ConnectReply {
    /// It accepts, and wants the peer dialled.
    Dial(Seq<u8>),
    NoPeerIdInAddress,
    AlreadyConnected(Seq<u8>),
}

pub ghost struct EndpointView {
    /// The peers with a connection.
    pub connected: Set<Seq<u8>>,
    /// The peers that are being dialled.
    pub inflight: Set<Seq<u8>>,
    pub listen_addresses: Set<Seq<ProtocolView>>,
    /// The protocols with a handler, in the order of the registry.
    pub protocols: Seq<Seq<char>>,
    pub connection_timeout: Duration,
}

impl EndpointView {
    /// No peer is both connected and being dialled, and no protocol has two
    /// handlers.
    pub open spec fn wf(self) -> bool {
        &&& self.connected.disjoint(self.inflight)
        &&& self.protocols.no_duplicates()
    }

    pub open spec fn peer_state(self, peer: Seq<u8>) -> PeerState {
        if self.connected.contains(peer) {
            PeerState::Connected
        } else if self.inflight.contains(peer) {
            PeerState::Inflight
        } else {
            PeerState::Absent
        }
    }

    /// The answer to a `Connect`.
    pub open spec fn connect_reply(self, address: Seq<ProtocolView>) -> ConnectReply {
        match peer_id_of(address) {
            None => ConnectReply::NoPeerIdInAddress,
            Some(peer) => if self.inflight.contains(peer) || self.connected.contains(peer) {
                ConnectReply::AlreadyConnected(peer)
            } else {
                ConnectReply::Dial(peer)
            },
        }
    }

    /// The endpoint after a `Connect`: an accepted peer is being dialled.
    pub open spec fn connect(self, address: Seq<ProtocolView>) -> EndpointView {
        match self.connect_reply(address) {
            ConnectReply::Dial(peer) => EndpointView {
                inflight: self.inflight.insert(peer),
                ..self
            },
            _ => self,
        }
    }

    /// The endpoint without the connection to a peer.
    pub open spec fn drop_connection(self, peer: Seq<u8>) -> EndpointView {
        EndpointView { connected: self.connected.remove(peer), ..self }
    }

    /// The endpoint after a `NewConnection`.
    pub open spec fn new_connection(self, peer: Seq<u8>) -> EndpointView {
        EndpointView {
            inflight: self.inflight.remove(peer),
            connected: self.connected.insert(peer),
            ..self
        }
    }

    /// The endpoint after a `FailedToConnect`.
    pub open spec fn failed_to_connect(self, peer: Seq<u8>) -> EndpointView {
        EndpointView {
            inflight: self.inflight.remove(peer),
            connected: self.connected.remove(peer),
            ..self
        }
    }

    /// The endpoint after a `ListenOn`.
    pub open spec fn listen_on(self, address: Seq<ProtocolView>) -> EndpointView {
        EndpointView { listen_addresses: self.listen_addresses.insert(address), ..self }
    }

    /// The endpoint after a `ListenerFailed`.
    pub open spec fn listener_failed(self, address: Seq<ProtocolView>) -> EndpointView {
        EndpointView { listen_addresses: self.listen_addresses.remove(address), ..self }
    }

    /// The place of a protocol's handler in the registry.
    pub open spec fn handler_of(self, protocol: Seq<char>) -> Option<int> {
        handler_of(self.protocols, protocol)
    }
}

/// The place of a protocol in a registry, if it is in it.
pub open spec fn handler_of(protocols: Seq<Seq<char>>, protocol: Seq<char>) -> Option<int> {
    if protocols.contains(protocol) {
        Some(protocols.index_of(protocol))
    } else {
        None
    }
}

/// Of two `Connect`s to one peer with nothing between them, the second is
/// refused with `AlreadyConnected`; the first is accepted exactly where the
/// peer was neither connected nor being dialled.
pub proof fn lemma_second_connect_is_refused(
    endpoint: EndpointView,
    first: Seq<ProtocolView>,
    second: Seq<ProtocolView>,
)
    requires
        peer_id_of(first).is_some(),
        peer_id_of(first) == peer_id_of(second),
    ensures
        endpoint.connect(first).connect_reply(second) == ConnectReply::AlreadyConnected(
            peer_id_of(first).unwrap(),
        ),
        endpoint.connect_reply(first) is Dial <==> endpoint.peer_state(peer_id_of(first).unwrap())
            is Absent,
        endpoint.connect_reply(first) is Dial || endpoint.connect_reply(first)
            == ConnectReply::AlreadyConnected(peer_id_of(first).unwrap()),
{}

/// A `Connect` to a peer after a `Disconnect` from it is accepted, unless
/// the peer was being dialled when it was disconnected.
pub proof fn lemma_connect_after_disconnect(
    endpoint: EndpointView,
    peer: Seq<u8>,
    address: Seq<ProtocolView>,
)
    requires
        peer_id_of(address) == Some(peer),
        !endpoint.inflight.contains(peer),
    ensures
        endpoint.drop_connection(peer).connect_reply(address) == ConnectReply::Dial(peer),
        endpoint.drop_connection(peer).peer_state(peer) is Absent,
{}

/// Where a peer stands after each step: absent, then being dialled on a
/// `Connect`, then connected on a `NewConnection`, then absent again when
/// the connection is dropped or the dial fails. What happens to one peer
/// leaves every other peer where it stands.
pub proof fn lemma_peer_states(
    endpoint: EndpointView,
    peer: Seq<u8>,
    other: Seq<u8>,
    address: Seq<ProtocolView>,
)
    requires
        endpoint.wf(),
        peer_id_of(address) == Some(peer),
        other != peer,
    ensures
        endpoint.peer_state(peer) is Absent ==> endpoint.connect(address).peer_state(peer)
            is Inflight,
        !(endpoint.peer_state(peer) is Absent) ==> endpoint.connect(address) == endpoint,
        endpoint.new_connection(peer).peer_state(peer) is Connected,
        endpoint.peer_state(peer) is Connected ==> endpoint.drop_connection(peer).peer_state(peer)
            is Absent,
        endpoint.peer_state(peer) is Inflight ==> endpoint.drop_connection(peer).peer_state(peer)
            is Inflight,
        endpoint.failed_to_connect(peer).peer_state(peer) is Absent,
        endpoint.connect(address).peer_state(other) == endpoint.peer_state(other),
        endpoint.new_connection(peer).peer_state(other) == endpoint.peer_state(other),
        endpoint.drop_connection(peer).peer_state(other) == endpoint.peer_state(other),
        endpoint.failed_to_connect(peer).peer_state(other) == endpoint.peer_state(other),
{}

/// Every step keeps a peer from being both connected and being dialled.
pub proof fn lemma_steps_keep_wf(
    endpoint: EndpointView,
    peer: Seq<u8>,
    address: Seq<ProtocolView>,
)
    requires
        endpoint.wf(),
    ensures
        endpoint.connect(address).wf(),
        endpoint.drop_connection(peer).wf(),
        endpoint.new_connection(peer).wf(),
        endpoint.failed_to_connect(peer).wf(),
        endpoint.listen_on(address).wf(),
        endpoint.listener_failed(address).wf(),
{}

/// Holds a registry to naming each protocol once.
pub fn verify_unique_handlers(inbound_substream_handlers: Vec<String>) -> (verified: Result<
    Vec<String>,
    DuplicateHandler,
>)
    ensures
        match verified {
            Ok(registry) => registry == inbound_substream_handlers && protocol_views(
                inbound_substream_handlers@,
            ).no_duplicates(),
            Err(duplicate) => exists|i: int, j: int|
                0 <= i < j < inbound_substream_handlers@.len() && inbound_substream_handlers@[i]@
                    == duplicate.protocol@ && inbound_substream_handlers@[j]@
                    == duplicate.protocol@,
        },
{
    let mut j: usize = 0;
    while j < inbound_substream_handlers.len()
        invariant
            j <= inbound_substream_handlers.len(),
            forall|a: int, b: int|
                0 <= a < b < j ==> inbound_substream_handlers@[a]@ != inbound_substream_handlers@[b]@,
        decreases inbound_substream_handlers.len() - j,
    {
        let mut i: usize = 0;
        while i < j
            invariant
                i <= j,
                j < inbound_substream_handlers.len(),
                forall|a: int| 0 <= a < i ==> inbound_substream_handlers@[a]@
                    != inbound_substream_handlers@[j as int]@,
            decreases j - i,
        {
            if inbound_substream_handlers[i] == inbound_substream_handlers[j] {
                return Err(DuplicateHandler { protocol: inbound_substream_handlers[j].clone() });
            }
            i += 1;
        }
        j += 1;
    }
    Ok(inbound_substream_handlers)
}

/// The protocols that an endpoint serves, each with its handler: a
/// protocol's place in the registry is the place of its handler.
#[derive(Clone, Debug, PartialEq, Eq)]
pub struct Registry {
    protocols: Vec<String>,
}

impl View for Registry {
    type V = Seq<Seq<char>>;

    closed spec fn view(&self) -> Seq<Seq<char>> {
        protocol_views(self.protocols@)
    }
}

impl Registry {
    /// No protocol is named twice.
    pub open spec fn wf(&self) -> bool {
        self@.no_duplicates()
    }

    /// The registry of the given protocols; refused where one is named
    /// twice.
    pub fn new(protocols: Vec<String>) -> (made: Result<Registry, DuplicateHandler>)
        ensures
            made is Ok <==> protocol_views(protocols@).no_duplicates(),
            made matches Ok(registry) ==> registry.wf() && registry@ == protocol_views(protocols@),
            made matches Err(duplicate) ==> protocol_views(protocols@).contains(
                duplicate.protocol@,
            ),
    {
        let ghost views = protocol_views(protocols@);
        match verify_unique_handlers(protocols) {
            Ok(protocols) => Ok(Registry { protocols }),
            Err(duplicate) => {
                proof {
                    let (i, j) = choose|i: int, j: int|
                        0 <= i < j < protocols@.len() && protocols@[i]@ == duplicate.protocol@
                            && protocols@[j]@ == duplicate.protocol@;
                    assert(views[i] == duplicate.protocol@);
                    assert(views[j] == duplicate.protocol@);
                }
                Err(duplicate)
            },
        }
    }

    /// The protocols, in the order of the registry.
    pub fn protocols(&self) -> (protocols: Vec<String>)
        ensures
            protocol_views(protocols@) == self@,
    {
        let mut protocols: Vec<String> = Vec::new();
        let mut i: usize = 0;
        while i < self.protocols.len()
            invariant
                i <= self.protocols.len(),
                protocol_views(protocols@) == self@.subrange(0, i as int),
            decreases self.protocols.len() - i,
        {
            let ghost before = protocol_views(protocols@);
            let protocol = self.protocols[i].clone();
            protocols.push(protocol);
            assert(protocol_views(protocols@) =~= before.push(protocol@));
            i += 1;
        }
        protocols
    }

    /// A copy of the registry, for the acceptor of a connection.
    pub fn duplicate(&self) -> (copy: Registry)
        ensures
            copy@ == self@,
    {
        Registry { protocols: self.protocols() }
    }

    /// The place of a protocol's handler in the registry.
    pub fn handler_for(&self, protocol: &String) -> (handler: Option<usize>)
        requires
            self.wf(),
        ensures
            match handler {
                Some(i) => handler_of(self@, protocol@) == Some(i as int) && i < self@.len()
                    && self@[i as int] == protocol@,
                None => handler_of(self@, protocol@).is_none(),
            },
    {
        let mut i: usize = 0;
        while i < self.protocols.len()
            invariant
                i <= self.protocols.len(),
                self@.no_duplicates(),
                forall|j: int| 0 <= j < i ==> self@[j] != protocol@,
            decreases self.protocols.len() - i,
        {
            if self.protocols[i] == *protocol {
                proof {
                    assert(self@[i as int] == protocol@);
                }
                return Some(i);
            }
            i += 1;
        }
        None
    }

    /// What the acceptor of a peer's connection does with what it got: a
    /// substream goes to the handler of its protocol, a negotiation that
    /// failed is passed over, and the end of the connection ends the
    /// acceptor.
    ///
    /// Only protocols of the registry are negotiated, so a substream comes
    /// with one of them.
    pub fn dispatch<S>(&self, peer: &PeerId, incoming: Incoming<S>) -> (next: Dispatch<S>)
        requires
            self.wf(),
            incoming matches Incoming::Substream { protocol, .. } ==> self@.contains(protocol@),
        ensures
            match incoming {
                Incoming::Substream { stream, protocol } => next matches Dispatch::Deliver {
                    handler,
                    message,
                } && Some(handler as int) == handler_of(self@, protocol@) && message.peer@ == peer@
                    && message.stream == stream,
                Incoming::NegotiationTimeoutReached => next is Continue,
                Incoming::NegotiationFailed(_) => next is Continue,
                Incoming::Closed => next is Fail,
                Incoming::ConnectionFailed(_) => next is Fail,
            },
    {
        match incoming {
            Incoming::Substream { stream, protocol } => {
                match self.handler_for(&protocol) {
                    Some(handler) => Dispatch::Deliver {
                        handler,
                        message: NewInboundSubstream { peer: peer.duplicate(), stream },
                    },
                    None => Dispatch::Fail,
                }
            },
            Incoming::NegotiationTimeoutReached => Dispatch::Continue,
            Incoming::NegotiationFailed(_) => Dispatch::Continue,
            Incoming::Closed => Dispatch::Fail,
            Incoming::ConnectionFailed(_) => Dispatch::Fail,
        }
    }
}

/// The state of a peer endpoint.
#[derive(Debug)]
pub struct Endpoint {
    controls: VecSet<PeerId>,
    inbound_substream_channels: Registry,
    listen_addresses: VecSet<Multiaddr>,
    inflight_connections: VecSet<PeerId>,
    connection_timeout: Duration,
}

impl View for Endpoint {
    type V = EndpointView;

    closed spec fn view(&self) -> EndpointView {
        EndpointView {
            connected: self.controls@,
            inflight: self.inflight_connections@,
            listen_addresses: self.listen_addresses@,
            protocols: self.inbound_substream_channels@,
            connection_timeout: self.connection_timeout,
        }
    }
}

impl Endpoint {
    /// The endpoint is in order: nothing occurs twice in its books, and what
    /// `EndpointView::wf` says.
    pub closed spec fn wf(&self) -> bool {
        &&& self.controls.wf()
        &&& self.listen_addresses.wf()
        &&& self.inflight_connections.wf()
        &&& self@.wf()
    }

    /// An endpoint in order has a view in order.
    pub proof fn lemma_wf(&self)
        requires
            self.wf(),
        ensures
            self@.wf(),
    {}

    /// Makes an endpoint that serves the given protocols, one handler each,
    /// and bounds each negotiation by `connection_timeout`. Refused where a
    /// protocol is named twice.
    pub fn new(connection_timeout: Duration, inbound_substream_handlers: Vec<String>) -> (made:
        Result<Endpoint, DuplicateHandler>)
        ensures
            made is Ok <==> protocol_views(inbound_substream_handlers@).no_duplicates(),
            made matches Ok(endpoint) ==> endpoint.wf() && endpoint@ == (EndpointView {
                connected: Set::empty(),
                inflight: Set::empty(),
                listen_addresses: Set::empty(),
                protocols: protocol_views(inbound_substream_handlers@),
                connection_timeout,
            }),
            made matches Err(duplicate) ==> protocol_views(inbound_substream_handlers@).contains(
                duplicate.protocol@,
            ),
    {
        match Registry::new(inbound_substream_handlers) {
            Ok(registry) => Ok(
                Endpoint {
                    controls: VecSet::new(),
                    inbound_substream_channels: registry,
                    listen_addresses: VecSet::new(),
                    inflight_connections: VecSet::new(),
                    connection_timeout,
                },
            ),
            Err(duplicate) => Err(duplicate),
        }
    }

    /// The end of the endpoint: every connection it has is to be closed.
    pub fn stopped(self) -> (actions: Vec<Action>)
        requires
            self.wf(),
        ensures
            closed_peers(actions@).no_duplicates(),
            closed_peers(actions@).to_set() == self@.connected,
            forall|i: int| 0 <= i < actions@.len() ==> (#[trigger] actions@[i]) is Close,
    {
        let peers = self.controls.to_vec();
        let mut actions: Vec<Action> = Vec::new();
        let mut i: usize = 0;
        while i < peers.len()
            invariant
                i <= peers.len(),
                closed_peers(actions@) == item_views(peers@).subrange(0, i as int),
                forall|j: int| 0 <= j < actions@.len() ==> (#[trigger] actions@[j]) is Close,
            decreases peers.len() - i,
        {
            let ghost before = closed_peers(actions@);
            let action = Action::Close { peer: peers[i].duplicate() };
            actions.push(action);
            assert(closed_peers(actions@) =~= before.push(peers@[i as int]@));
            i += 1;
        }
        assert(item_views(peers@).subrange(0, i as int) =~= item_views(peers@));
        actions
    }

    /// A copy of the registry of the protocols that the endpoint serves.
    pub fn registry(&self) -> (registry: Registry)
        requires
            self.wf(),
        ensures
            registry@ == self@.protocols,
            registry.wf(),
    {
        self.inbound_substream_channels.duplicate()
    }

    /// Takes the connection to a peer off the books. Where there was one, it
    /// is to be closed.
    pub fn drop_connection(&mut self, peer: &PeerId) -> (action: Option<Action>)
        requires
            old(self).wf(),
        ensures
            final(self).wf(),
            final(self)@ == old(self)@.drop_connection(peer@),
            old(self)@.connected.contains(peer@) ==> (action matches Some(Action::Close { peer: p })
                && p@ == peer@),
            !old(self)@.connected.contains(peer@) ==> action is None,
    {
        if self.controls.remove(peer) {
            Some(Action::Close { peer: peer.duplicate() })
        } else {
            None
        }
    }

    /// A connection was made: the peer is connected and no longer being
    /// dialled.
    pub fn handle_new_connection(&mut self, msg: NewConnection) -> (action: Action)
        requires
            old(self).wf(),
        ensures
            final(self).wf(),
            final(self)@ == old(self)@.new_connection(msg.peer@),
            action matches Action::Serve { peer } && peer@ == msg.peer@,
    {
        self.inflight_connections.remove(&msg.peer);
        self.controls.insert(msg.peer.duplicate());
        Action::Serve { peer: msg.peer }
    }

    /// A listener ended: its address is no longer listened on.
    pub fn handle_listener_failed(&mut self, msg: ListenerFailed)
        requires
            old(self).wf(),
        ensures
            final(self).wf(),
            final(self)@ == old(self)@.listener_failed(msg.address@),
    {
        self.listen_addresses.remove(&msg.address);
    }

    /// Dialling failed: the peer is no longer being dialled, and a
    /// connection to it is dropped.
    pub fn handle_failed_to_connect(&mut self, msg: FailedToConnect) -> (action: Option<Action>)
        requires
            old(self).wf(),
        ensures
            final(self).wf(),
            final(self)@ == old(self)@.failed_to_connect(msg.peer@),
            old(self)@.connected.contains(msg.peer@) ==> (action matches Some(
                Action::Close { peer },
            ) && peer@ == msg.peer@),
            !old(self)@.connected.contains(msg.peer@) ==> action is None,
    {
        self.inflight_connections.remove(&msg.peer);
        self.drop_connection(&msg.peer)
    }

    /// A connection ended: it is dropped.
    pub fn handle_existing_connection_failed(&mut self, msg: ExistingConnectionFailed) -> (action:
        Option<Action>)
        requires
            old(self).wf(),
        ensures
            final(self).wf(),
            final(self)@ == old(self)@.drop_connection(msg.peer@),
            old(self)@.connected.contains(msg.peer@) ==> (action matches Some(
                Action::Close { peer },
            ) && peer@ == msg.peer@),
            !old(self)@.connected.contains(msg.peer@) ==> action is None,
    {
        self.drop_connection(&msg.peer)
    }

    /// The peers with a connection and the addresses listened on.
    pub fn handle_get_connection_stats(&self, _msg: GetConnectionStats) -> (stats: ConnectionStats)
        requires
            self.wf(),
        ensures
            item_views(stats.connected_peers@).to_set() == self@.connected,
            item_views(stats.connected_peers@).no_duplicates(),
            item_views(stats.listen_addresses@).to_set() == self@.listen_addresses,
            item_views(stats.listen_addresses@).no_duplicates(),
    {
        let stats = ConnectionStats {
            connected_peers: self.controls.to_vec(),
            listen_addresses: self.listen_addresses.to_vec(),
        };
        stats
    }

    /// Connects to the peer that an address ends with, unless the endpoint
    /// is connected to it or is dialling it.
    pub fn handle_connect(&mut self, msg: Connect) -> (reply: Result<Action, Error>)
        requires
            old(self).wf(),
        ensures
            final(self).wf(),
            final(self)@ == old(self)@.connect(msg.0@),
            match old(self)@.connect_reply(msg.0@) {
                ConnectReply::Dial(p) => reply matches Ok(Action::Dial { peer, address }) && peer@
                    == p && address@ == msg.0@,
                ConnectReply::NoPeerIdInAddress => reply matches Err(Error::NoPeerIdInAddress(a))
                    && a@ == msg.0@,
                ConnectReply::AlreadyConnected(p) => reply matches Err(Error::AlreadyConnected(peer))
                    && peer@ == p,
            },
    {
        let peer = match msg.0.extract_peer_id() {
            Some(peer) => peer,
            None => {
                return Err(Error::NoPeerIdInAddress(msg.0));
            },
        };
        if self.inflight_connections.contains(&peer) || self.controls.contains(&peer) {
            return Err(Error::AlreadyConnected(peer));
        }
        self.inflight_connections.insert(peer.duplicate());
        Ok(Action::Dial { peer, address: msg.0 })
    }

    /// Disconnects from a peer. Without a connection to it nothing happens.
    pub fn handle_disconnect(&mut self, msg: Disconnect) -> (action: Option<Action>)
        requires
            old(self).wf(),
        ensures
            final(self).wf(),
            final(self)@ == old(self)@.drop_connection(msg.0@),
            old(self)@.connected.contains(msg.0@) ==> (action matches Some(Action::Close { peer })
                && peer@ == msg.0@),
            !old(self)@.connected.contains(msg.0@) ==> action is None,
    {
        self.drop_connection(&msg.0)
    }

    /// Listens on an address.
    pub fn handle_listen_on(&mut self, msg: ListenOn) -> (action: Action)
        requires
            old(self).wf(),
        ensures
            final(self).wf(),
            final(self)@ == old(self)@.listen_on(msg.0@),
            action matches Action::Listen { address } && address@ == msg.0@,
    {
        self.listen_addresses.insert(msg.0.duplicate());
        Action::Listen { address: msg.0 }
    }

    /// The first step of opening a substream: a stream is to be opened on
    /// the connection to the peer, if there is one.
    pub fn handle_open_substream<P>(&self, msg: &OpenSubstream<P>) -> (reply: Result<Action, Error>)
        requires
            self.wf(),
        ensures
            self@.connected.contains(msg.peer()) ==> (reply matches Ok(
                Action::OpenStream { peer, protocols, timeout },
            ) && peer@ == msg.peer() && protocol_views(protocols@) == msg.protocols() && timeout
                == self@.connection_timeout),
            !self@.connected.contains(msg.peer()) ==> (reply matches Err(Error::NoConnection(peer))
                && peer@ == msg.peer()),
    {
        if !self.controls.contains(&msg.peer) {
            return Err(Error::NoConnection(msg.peer.duplicate()));
        }
        let mut protocols: Vec<String> = Vec::new();
        let mut i: usize = 0;
        while i < msg.protocols.len()
            invariant
                i <= msg.protocols.len(),
                protocol_views(protocols@) == msg.protocols().subrange(0, i as int),
            decreases msg.protocols.len() - i,
        {
            let ghost before = protocol_views(protocols@);
            let protocol = msg.protocols[i].clone();
            protocols.push(protocol);
            assert(protocol_views(protocols@) =~= before.push(protocol@));
            i += 1;
        }
        Ok(
            Action::OpenStream {
                peer: msg.peer.duplicate(),
                protocols,
                timeout: self.connection_timeout,
            },
        )
    }
}

/// Whether a protocol is among those offered.
pub fn offered(protocols: &Vec<String>, protocol: &String) -> (found: bool)
    ensures
        found == protocol_views(protocols@).contains(protocol@),
{
    let mut i: usize = 0;
    while i < protocols.len()
        invariant
            i <= protocols.len(),
            forall|j: int| 0 <= j < i ==> protocol_views(protocols@)[j] != protocol@,
        decreases protocols.len() - i,
    {
        if protocols[i] == *protocol {
            assert(protocol_views(protocols@)[i as int] == protocol@);
            return true;
        }
        i += 1;
    }
    false
}

/// The second step of opening a substream: what the caller gets for what
/// came of the negotiation. A protocol that was not among those offered
/// counts as none agreed.
pub fn open_substream<S>(protocols: &Vec<String>, negotiation: Negotiation<S>) -> (opened: Result<
    (String, S),
    Error,
>)
    ensures
        match negotiation {
            Negotiation::BadConnection(e) => opened matches Err(Error::BadConnection(error))
                && error == e,
            Negotiation::TimedOut => opened matches Err(Error::NegotiationTimeoutReached),
            Negotiation::Failed(e) => opened matches Err(Error::NegotiationFailed(error)) && error
                == e,
            Negotiation::Selected { protocol, stream } => if protocol_views(protocols@).contains(
                protocol@,
            ) {
                opened matches Ok(found) && found.0 == protocol && found.1 == stream
            } else {
                opened matches Err(Error::NegotiationFailed(_))
            },
        },
{
    match negotiation {
        Negotiation::BadConnection(e) => Err(Error::BadConnection(e)),
        Negotiation::TimedOut => Err(Error::NegotiationTimeoutReached),
        Negotiation::Failed(e) => Err(Error::NegotiationFailed(e)),
        Negotiation::Selected { protocol, stream } => {
            if offered(protocols, &protocol) {
                Ok((protocol, stream))
            } else {
                Err(Error::NegotiationFailed(no_protocol_agreed()))
            }
        },
    }
}

impl OpenSubstream<Single> {
    /// What the caller of a one-protocol opening gets for what came of the
    /// negotiation: the stream exactly where the peer accepted that
    /// protocol.
    pub fn opened<S>(&self, negotiation: Negotiation<S>) -> (opened: Result<S, Error>)
        requires
            self.protocols().len() == 1,
        ensures
            match negotiation {
                Negotiation::BadConnection(e) => opened matches Err(Error::BadConnection(error))
                    && error == e,
                Negotiation::TimedOut => opened matches Err(Error::NegotiationTimeoutReached),
                Negotiation::Failed(e) => opened matches Err(Error::NegotiationFailed(error))
                    && error == e,
                Negotiation::Selected { protocol, stream } => if protocol@ == self.protocols()[0] {
                    opened matches Ok(s) && s == stream
                } else {
                    opened matches Err(Error::NegotiationFailed(_))
                },
            },
    {
        match open_substream(&self.protocols, negotiation) {
            Ok((_protocol, stream)) => Ok(stream),
            Err(e) => Err(e),
        }
    }
}

impl OpenSubstream<Multiple> {
    /// What the caller of an opening with several protocols gets for what
    /// came of the negotiation: the protocol that the peer accepted, and the
    /// stream.
    pub fn opened<S>(&self, negotiation: Negotiation<S>) -> (opened: Result<(String, S), Error>)
        ensures
            match negotiation {
                Negotiation::BadConnection(e) => opened matches Err(Error::BadConnection(error))
                    && error == e,
                Negotiation::TimedOut => opened matches Err(Error::NegotiationTimeoutReached),
                Negotiation::Failed(e) => opened matches Err(Error::NegotiationFailed(error))
                    && error == e,
                Negotiation::Selected { protocol, stream } => if self.protocols().contains(
                    protocol@,
                ) {
                    opened matches Ok(found) && found.0 == protocol && found.1 == stream
                } else {
                    opened matches Err(Error::NegotiationFailed(_))
                },
            },
    {
        open_substream(&self.protocols, negotiation)
    }
}

} // verus!

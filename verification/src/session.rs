//! One connection of a client, from its handshake to its end.
//!
//! The session decides and somebody else acts: each event that happened gives
//! the next state of the session and the action that is now due.

use vstd::prelude::*;

use crate::bytes::be_bytes;
use crate::config::{
    route_of, status_key, status_usable, Config, ConfigView, Destination, DestinationView,
    StatusConfig, StatusView,
};
use crate::error::{
    is_eof, proxy_error_is_eof, proxy_error_text, IoError, PacketError, PacketName, ProxyError,
};
use crate::json::{json_text, with_protocol};
use crate::notice::{json_component, make_json_text, make_nbt_string, nbt_string};
use crate::packet::{
    decode_packet_as, decoded_as, make_raw, raw, unframed, PacketView, UncompressedPacket,
};
use crate::packets::{
    C2SPluginMessage, ClientInformation, Handshake, HandshakeView, LoginDisconnect,
    LoginDisconnectView, LoginStart, LoginSuccess, LoginSuccessView, PacketId, PingPong,
    S2CStatusResponse, S2CStatusResponseView, Transfer, TransferView, PACKET_ID_DISCONNECT,
    PACKET_ID_LOGIN_ACK, PACKET_ID_STATUS_REQUEST,
};
use crate::text::{owned, push_signed, signed_decimal};
use crate::varint::VarInt;

verus! {

/// For how many seconds a connection to a status server is tried.
pub const CONNECT_TIMEOUT_SECONDS: u64 = 3;

/// For how many milliseconds a connection stays open behind a last word.
pub const FAREWELL_MILLISECONDS: u64 = 500;

/// The state of the protocol, by which the form of a last word goes.
#[derive(Debug, Clone, Copy, PartialEq, Eq, Structural)]
pub enum ConnectionState {
    Handshake,
    Login,
    Configuration,
}

/// What a session waits for.
#[derive(Debug)]
pub enum Phase {
    /// The handshake of the client.
    Handshake,
    /// The request for a status.
    StatusRequest { handshake: Handshake, route: usize },
    /// What the cache holds of a status.
    CacheLookup { handshake: Handshake, route: usize, request: UncompressedPacket },
    /// The connection to the status server.
    Connecting { handshake: Handshake, route: usize, request: UncompressedPacket },
    /// The answer of the status server.
    Upstream { route: usize },
    /// The ping behind the status.
    Ping,
    /// The name of the player.
    LoginStart { protocol_version: i32, route: usize },
    /// The acknowledgement of the login.
    LoginAck { route: usize },
    /// The end of the connection of a client that was transferred.
    Transferred,
    /// Nothing more.
    Closed,
}

/// `Phase` as contracts see it.
pub enum PhaseView {
    Handshake,
    StatusRequest { handshake: HandshakeView, route: nat },
    CacheLookup { handshake: HandshakeView, route: nat, request: PacketView },
    Connecting { handshake: HandshakeView, route: nat, request: PacketView },
    Upstream { route: nat },
    Ping,
    LoginStart { protocol_version: i32, route: nat },
    LoginAck { route: nat },
    Transferred,
    Closed,
}

impl View for Phase {
    type V = PhaseView;

    open spec fn view(&self) -> PhaseView {
        match self {
            Phase::Handshake => PhaseView::Handshake,
            Phase::StatusRequest { handshake, route } => PhaseView::StatusRequest {
                handshake: handshake.deep_view(),
                route: *route as nat,
            },
            Phase::CacheLookup { handshake, route, request } => PhaseView::CacheLookup {
                handshake: handshake.deep_view(),
                route: *route as nat,
                request: request@,
            },
            Phase::Connecting { handshake, route, request } => PhaseView::Connecting {
                handshake: handshake.deep_view(),
                route: *route as nat,
                request: request@,
            },
            Phase::Upstream { route } => PhaseView::Upstream { route: *route as nat },
            Phase::Ping => PhaseView::Ping,
            Phase::LoginStart { protocol_version, route } => PhaseView::LoginStart {
                protocol_version: *protocol_version,
                route: *route as nat,
            },
            Phase::LoginAck { route } => PhaseView::LoginAck { route: *route as nat },
            Phase::Transferred => PhaseView::Transferred,
            Phase::Closed => PhaseView::Closed,
        }
    }
}

/// A session.
#[derive(Debug)]
pub struct Session {
    /// The state of the protocol.
    pub state: ConnectionState,
    /// What the session waits for.
    pub phase: Phase,
}

/// `Session` as contracts see it.
pub struct SessionView {
    pub state: ConnectionState,
    pub phase: PhaseView,
}

impl View for Session {
    type V = SessionView;

    open spec fn view(&self) -> SessionView {
        SessionView { state: self.state, phase: self.phase@ }
    }
}

/// Why a status server gave no answer.
#[derive(Debug)]
pub enum UpstreamError<T> {
    /// It was not reached in time.
    TimedOut,
    /// It could not be reached.
    Unreachable(IoError<T>),
    /// It was reached, but not understood.
    Broken(PacketError<T>),
}

impl View for UpstreamError<String> {
    type V = UpstreamError<Seq<char>>;

    open spec fn view(&self) -> UpstreamError<Seq<char>> {
        match self {
            UpstreamError::TimedOut => UpstreamError::TimedOut,
            UpstreamError::Unreachable(error) => UpstreamError::Unreachable(error@),
            UpstreamError::Broken(error) => UpstreamError::Broken(error@),
        }
    }
}

/// Something that happened on a connection.
#[derive(Debug)]
pub enum Event {
    /// The client sent a frame with this body.
    Frame(Vec<u8>),
    /// No frame could be had from the client.
    ReadFailed(PacketError<String>),
    /// A packet could not be sent to the client.
    WriteFailed(PacketError<String>),
    /// What the cache was found to hold.
    CacheAnswer(Option<UncompressedPacket>),
    /// The status server is reached.
    Connected,
    /// The status server sent a frame with this body.
    UpstreamFrame(Vec<u8>),
    /// The status server gave no answer.
    UpstreamFailed(UpstreamError<String>),
}

/// `Event` as contracts see it.
pub enum EventView {
    Frame(Seq<u8>),
    ReadFailed(PacketError<Seq<char>>),
    WriteFailed(PacketError<Seq<char>>),
    CacheAnswer(Option<PacketView>),
    Connected,
    UpstreamFrame(Seq<u8>),
    UpstreamFailed(UpstreamError<Seq<char>>),
}

impl View for Event {
    type V = EventView;

    open spec fn view(&self) -> EventView {
        match self {
            Event::Frame(body) => EventView::Frame(body@),
            Event::ReadFailed(error) => EventView::ReadFailed(error@),
            Event::WriteFailed(error) => EventView::WriteFailed(error@),
            Event::CacheAnswer(Some(packet)) => EventView::CacheAnswer(Some(packet@)),
            Event::CacheAnswer(None) => EventView::CacheAnswer(None),
            Event::Connected => EventView::Connected,
            Event::UpstreamFrame(body) => EventView::UpstreamFrame(body@),
            Event::UpstreamFailed(error) => EventView::UpstreamFailed(error@),
        }
    }
}

/// What is to be done now.
#[derive(Debug)]
pub enum Action {
    /// Wait for the next frame of the client.
    Read,
    /// Wait for the next frame of the client; the last held a packet of this
    /// number, which means nothing here.
    Skip(i32),
    /// Send a packet to the client, and wait for its next frame.
    Send(UncompressedPacket),
    /// Send a packet to the client, and be done.
    SendLast(UncompressedPacket),
    /// Look up a status that came in the last `ttl` seconds.
    LookUp { key: String, ttl: u64 },
    /// Connect to the status server, for so many seconds at most.
    Connect { host: String, port: u16, timeout: u64 },
    /// Send two packets to the status server, and wait for a frame of it.
    Exchange { handshake: UncompressedPacket, request: UncompressedPacket },
    /// Keep the status under this name, send it to the client and wait for the
    /// next frame of the client. Meanwhile the status server gets a ping, and
    /// the connection to it ends with its answer.
    Relay { key: String, response: UncompressedPacket, ping: UncompressedPacket },
    /// Be done.
    Finish,
    /// Give up.
    Fail(ProxyError<String>),
}

/// `Action` as contracts see it.
pub enum ActionView {
    Read,
    Skip(i32),
    Send(PacketView),
    SendLast(PacketView),
    LookUp { key: Seq<char>, ttl: u64 },
    Connect { host: Seq<char>, port: u16, timeout: u64 },
    Exchange { handshake: PacketView, request: PacketView },
    Relay { key: Seq<char>, response: PacketView, ping: PacketView },
    Finish,
    Fail(ProxyError<Seq<char>>),
}

impl View for Action {
    type V = ActionView;

    open spec fn view(&self) -> ActionView {
        match self {
            Action::Read => ActionView::Read,
            Action::Skip(packet_id) => ActionView::Skip(*packet_id),
            Action::Send(packet) => ActionView::Send(packet@),
            Action::SendLast(packet) => ActionView::SendLast(packet@),
            Action::LookUp { key, ttl } => ActionView::LookUp { key: key@, ttl: *ttl },
            Action::Connect { host, port, timeout } => ActionView::Connect {
                host: host@,
                port: *port,
                timeout: *timeout,
            },
            Action::Exchange { handshake, request } => ActionView::Exchange {
                handshake: handshake@,
                request: request@,
            },
            Action::Relay { key, response, ping } => ActionView::Relay {
                key: key@,
                response: response@,
                ping: ping@,
            },
            Action::Finish => ActionView::Finish,
            Action::Fail(error) => ActionView::Fail(error@),
        }
    }
}

/// The session and the action that follow an event.
pub type Outcome = (SessionView, ActionView);

/// A session that has begun.
pub open spec fn opened() -> SessionView {
    SessionView { state: ConnectionState::Handshake, phase: PhaseView::Handshake }
}

/// A session that is over.
pub open spec fn closed(state: ConnectionState) -> SessionView {
    SessionView { state, phase: PhaseView::Closed }
}

/// The session goes on to wait for something else.
pub open spec fn waiting(state: ConnectionState, phase: PhaseView, action: ActionView) -> Outcome {
    (SessionView { state, phase }, action)
}

/// The session is given up.
pub open spec fn failed(state: ConnectionState, error: ProxyError<Seq<char>>) -> Outcome {
    (closed(state), ActionView::Fail(error))
}

/// The session ends with a packet, if that can be written.
pub open spec fn last_word(
    state: ConnectionState,
    packet: Result<PacketView, ProxyError<Seq<char>>>,
) -> Outcome {
    match packet {
        Ok(packet) => (closed(state), ActionView::SendLast(packet)),
        Err(error) => failed(state, error),
    }
}

/// The session sends a packet, if that can be written, and goes on.
pub open spec fn said(
    state: ConnectionState,
    phase: PhaseView,
    packet: Result<PacketView, ProxyError<Seq<char>>>,
) -> Outcome {
    match packet {
        Ok(packet) => waiting(state, phase, ActionView::Send(packet)),
        Err(error) => failed(state, error),
    }
}

/// The packet in a frame.
pub open spec fn received(body: Seq<u8>) -> Result<PacketView, ProxyError<Seq<char>>> {
    match unframed(body) {
        Ok(packet) => Ok(packet),
        Err(source) => Err(ProxyError::Protocol { source }),
    }
}

/// The packet in a frame that ought to hold a `T`.
pub open spec fn received_as<T: PacketId>(body: Seq<u8>) -> Result<T::V, ProxyError<Seq<char>>> {
    match received(body) {
        Ok(packet) => decoded_as::<T>(packet),
        Err(error) => Err(error),
    }
}

/// What a client reads that asked for an address without a route.
pub open spec fn no_destination_text() -> Seq<char> {
    "{\"text\": \"Could not find a destination to transfer you to\", \"color\": \"red\"}"@
}

/// What a client reads that was transferred here.
pub open spec fn no_transfers_text() -> Seq<char> {
    "{\"translate\": \"multiplayer.disconnect.transfers_disabled\", \"color\": \"red\"}"@
}

/// A refused login.
pub open spec fn disconnect(reason: Seq<char>) -> Result<PacketView, ProxyError<Seq<char>>> {
    raw::<LoginDisconnect>(LoginDisconnectView { reason })
}

/// What follows a handshake.
pub open spec fn after_handshake(config: ConfigView, handshake: HandshakeView) -> Outcome {
    let state = ConnectionState::Handshake;
    let intent = handshake.intent.0;
    match route_of(config, handshake.server_address) {
        None => if intent == Handshake::INTENT_LOGIN {
            last_word(state, disconnect(no_destination_text()))
        } else {
            (closed(state), ActionView::Finish)
        },
        Some(route) => if intent == Handshake::INTENT_LOGIN {
            waiting(
                ConnectionState::Login,
                PhaseView::LoginStart { protocol_version: handshake.protocol_version.0, route },
                ActionView::Read,
            )
        } else if intent == Handshake::INTENT_STATUS {
            waiting(state, PhaseView::StatusRequest { handshake, route }, ActionView::Read)
        } else if intent == Handshake::INTENT_TRANSFER {
            last_word(state, disconnect(no_transfers_text()))
        } else {
            failed(
                state,
                ProxyError::BadPacket { message: "Unknown intent "@ + signed_decimal(intent as int) },
            )
        },
    }
}

/// What follows a request for a status.
pub open spec fn after_status_request(
    config: ConfigView,
    state: ConnectionState,
    handshake: HandshakeView,
    route: nat,
    request: PacketView,
) -> Outcome {
    if request.packet_id != PACKET_ID_STATUS_REQUEST {
        failed(
            state,
            ProxyError::UnexpectedPacket {
                found: request.packet_id,
                expected: PACKET_ID_STATUS_REQUEST,
                expected_name: Some(PacketName::StatusRequest),
            },
        )
    } else {
        match config.routes[route as int].status {
            StatusView::Static { json, fake_protocol_version } => {
                let document = if fake_protocol_version {
                    with_protocol(json, handshake.protocol_version.0 as int)
                } else {
                    json
                };
                said(
                    state,
                    PhaseView::Ping,
                    raw::<S2CStatusResponse>(
                        S2CStatusResponseView { response: json_text(document) },
                    ),
                )
            },
            StatusView::FetchFrom { host, port, cache_ttl, .. } => waiting(
                state,
                PhaseView::CacheLookup { handshake, route, request },
                ActionView::LookUp { key: status_key(host, port), ttl: cache_ttl->0 },
            ),
        }
    }
}

/// What follows the answer of the cache.
pub open spec fn after_cache(
    config: ConfigView,
    state: ConnectionState,
    handshake: HandshakeView,
    route: nat,
    request: PacketView,
    answer: Option<PacketView>,
) -> Outcome {
    match (answer, config.routes[route as int].status) {
        (Some(response), _) => waiting(state, PhaseView::Ping, ActionView::Send(response)),
        (None, StatusView::FetchFrom { host, port, .. }) => waiting(
            state,
            PhaseView::Connecting { handshake, route, request },
            ActionView::Connect { host, port, timeout: CONNECT_TIMEOUT_SECONDS },
        ),
        (None, _) => (closed(state), ActionView::Finish),
    }
}

/// The handshake that the status server gets.
pub open spec fn forwarded(status: StatusView, handshake: HandshakeView) -> HandshakeView {
    match status {
        StatusView::FetchFrom { host, port, rewrite_address: true, .. } => HandshakeView {
            protocol_version: handshake.protocol_version,
            server_address: host,
            server_port: port,
            intent: handshake.intent,
        },
        _ => handshake,
    }
}

/// What follows the connection to the status server.
pub open spec fn after_connecting(
    config: ConfigView,
    state: ConnectionState,
    handshake: HandshakeView,
    route: nat,
    request: PacketView,
) -> Outcome {
    match raw::<Handshake>(forwarded(config.routes[route as int].status, handshake)) {
        Ok(packet) => waiting(
            state,
            PhaseView::Upstream { route },
            ActionView::Exchange { handshake: packet, request },
        ),
        Err(error) => failed(state, error),
    }
}

/// What follows the answer of the status server.
pub open spec fn after_upstream(
    config: ConfigView,
    state: ConnectionState,
    route: nat,
    body: Seq<u8>,
) -> Outcome {
    match (
        received(body),
        received_as::<S2CStatusResponse>(body),
        config.routes[route as int].status,
    ) {
        (Err(error), _, _) => failed(state, error),
        (_, Err(error), _) => failed(state, error),
        (Ok(response), Ok(_), StatusView::FetchFrom { host, port, .. }) => waiting(
            state,
            PhaseView::Ping,
            ActionView::Relay {
                key: status_key(host, port),
                response,
                ping: PacketView { packet_id: PingPong::PACKET_ID, payload: be_bytes(0, 8) },
            },
        ),
        _ => (closed(state), ActionView::Finish),
    }
}

/// What follows a failure of the status server.
pub open spec fn upstream_failure(error: UpstreamError<Seq<char>>) -> ProxyError<Seq<char>> {
    match error {
        UpstreamError::TimedOut => ProxyError::Timeout,
        UpstreamError::Unreachable(source) => ProxyError::FetchingStatus { source },
        UpstreamError::Broken(source) => ProxyError::Protocol { source },
    }
}

/// What follows a ping: the same packet.
pub open spec fn after_ping(state: ConnectionState, body: Seq<u8>) -> Outcome {
    match received_as::<PingPong>(body) {
        Ok(ping) => last_word(state, raw::<PingPong>(ping)),
        Err(error) => failed(state, error),
    }
}

/// The accepted login of a player, in the form that the protocol of the client
/// has for it: versions 766 and 767 end with a flag, versions from 776 on with
/// the id of the session.
pub open spec fn login_success(
    username: Seq<char>,
    protocol_version: i32,
    uuid: u128,
    session_id: u128,
) -> Result<PacketView, ProxyError<Seq<char>>> {
    match raw::<LoginSuccess>(LoginSuccessView { uuid, username, properties: Seq::empty() }) {
        Ok(packet) => Ok(
            PacketView {
                packet_id: packet.packet_id,
                payload: packet.payload + login_success_tail(protocol_version, session_id),
            },
        ),
        Err(error) => Err(error),
    }
}

/// What stands behind the fields of an accepted login.
pub open spec fn login_success_tail(protocol_version: i32, session_id: u128) -> Seq<u8> {
    if 766 <= protocol_version <= 767 {
        seq![1u8]
    } else if protocol_version >= 776 {
        be_bytes(session_id as nat, 16)
    } else {
        Seq::empty()
    }
}

/// What follows the name of the player. The player gets the id `uuid` and,
/// where the protocol has it, the session the id `session_id`.
pub open spec fn after_login_start(
    config: ConfigView,
    state: ConnectionState,
    protocol_version: i32,
    route: nat,
    body: Seq<u8>,
    uuid: u128,
    session_id: u128,
) -> Outcome {
    match (received_as::<LoginStart>(body), config.routes[route as int].destination) {
        (Err(error), _) => failed(state, error),
        (Ok(_), DestinationView::Kick { message }) => last_word(
            state,
            disconnect(json_text(message)),
        ),
        (Ok(login), DestinationView::Transfer { .. }) => said(
            state,
            PhaseView::LoginAck { route },
            login_success(login.username, protocol_version, uuid, session_id),
        ),
    }
}

/// What follows the acknowledgement of the login.
pub open spec fn after_login_ack(
    config: ConfigView,
    state: ConnectionState,
    route: nat,
    body: Seq<u8>,
) -> Outcome {
    match (received(body), config.routes[route as int].destination) {
        (Err(error), _) => failed(state, error),
        (Ok(packet), destination) => if packet.packet_id != PACKET_ID_LOGIN_ACK {
            failed(
                state,
                ProxyError::UnexpectedPacket {
                    found: packet.packet_id,
                    expected: PACKET_ID_LOGIN_ACK,
                    expected_name: Some(PacketName::LoginAcknowledged),
                },
            )
        } else {
            match destination {
                DestinationView::Transfer { host, port, .. } => said(
                    ConnectionState::Configuration,
                    PhaseView::Transferred,
                    raw::<Transfer>(TransferView { host, port: VarInt(port as i32) }),
                ),
                _ => (closed(ConnectionState::Configuration), ActionView::Finish),
            }
        },
    }
}

/// Whether a packet of this number is expected of a client that was transferred.
pub open spec fn is_known(packet_id: i32) -> bool {
    packet_id == ClientInformation::PACKET_ID || packet_id == C2SPluginMessage::PACKET_ID
}

/// What follows a packet, or none, of a client that was transferred. It may
/// close the connection at any time.
pub open spec fn after_transfer(
    state: ConnectionState,
    packet: Result<PacketView, ProxyError<Seq<char>>>,
) -> Outcome {
    match packet {
        Ok(packet) => waiting(
            state,
            PhaseView::Transferred,
            if is_known(packet.packet_id) {
                ActionView::Read
            } else {
                ActionView::Skip(packet.packet_id)
            },
        ),
        Err(error) => if is_eof(error) {
            (closed(state), ActionView::Finish)
        } else {
            failed(state, error)
        },
    }
}

/// What follows an event. `uuid` and `session_id` are the ids that are given
/// out if this is the moment for it.
pub open spec fn transition(
    config: ConfigView,
    session: SessionView,
    event: EventView,
    uuid: u128,
    session_id: u128,
) -> Outcome {
    let state = session.state;
    match (session.phase, event) {
        (_, EventView::WriteFailed(source)) => failed(state, ProxyError::Protocol { source }),
        (PhaseView::Transferred, EventView::ReadFailed(source)) => after_transfer(
            state,
            Err(ProxyError::Protocol { source }),
        ),
        (_, EventView::ReadFailed(source)) => failed(state, ProxyError::Protocol { source }),
        (_, EventView::UpstreamFailed(error)) => failed(state, upstream_failure(error)),
        (PhaseView::Handshake, EventView::Frame(body)) => match received_as::<Handshake>(body) {
            Ok(handshake) => after_handshake(config, handshake),
            Err(error) => failed(state, error),
        },
        (PhaseView::StatusRequest { handshake, route }, EventView::Frame(body)) => match received(
            body,
        ) {
            Ok(request) => after_status_request(config, state, handshake, route, request),
            Err(error) => failed(state, error),
        },
        (
            PhaseView::CacheLookup { handshake, route, request },
            EventView::CacheAnswer(answer),
        ) => after_cache(config, state, handshake, route, request, answer),
        (
            PhaseView::Connecting { handshake, route, request },
            EventView::Connected,
        ) => after_connecting(config, state, handshake, route, request),
        (PhaseView::Upstream { route }, EventView::UpstreamFrame(body)) => after_upstream(
            config,
            state,
            route,
            body,
        ),
        (PhaseView::Ping, EventView::Frame(body)) => after_ping(state, body),
        (
            PhaseView::LoginStart { protocol_version, route },
            EventView::Frame(body),
        ) => after_login_start(config, state, protocol_version, route, body, uuid, session_id),
        (PhaseView::LoginAck { route }, EventView::Frame(body)) => after_login_ack(
            config,
            state,
            route,
            body,
        ),
        (PhaseView::Transferred, EventView::Frame(body)) => after_transfer(state, received(body)),
        _ => (closed(state), ActionView::Finish),
    }
}

/// Whether the session is one that `config` can have led to.
pub open spec fn well_formed(config: ConfigView, session: SessionView) -> bool {
    let routes = config.routes;
    match session.phase {
        PhaseView::Handshake | PhaseView::Ping => session.state == ConnectionState::Handshake,
        PhaseView::StatusRequest { route, .. } => {
            &&& session.state == ConnectionState::Handshake
            &&& route < routes.len()
        },
        PhaseView::CacheLookup { route, .. } => {
            &&& session.state == ConnectionState::Handshake
            &&& route < routes.len()
            &&& routes[route as int].status is FetchFrom
        },
        PhaseView::Connecting { route, .. } => {
            &&& session.state == ConnectionState::Handshake
            &&& route < routes.len()
            &&& routes[route as int].status is FetchFrom
        },
        PhaseView::Upstream { route } => {
            &&& session.state == ConnectionState::Handshake
            &&& route < routes.len()
            &&& routes[route as int].status is FetchFrom
        },
        PhaseView::LoginStart { route, .. } => {
            &&& session.state == ConnectionState::Login
            &&& route < routes.len()
        },
        PhaseView::LoginAck { route } => {
            &&& session.state == ConnectionState::Login
            &&& route < routes.len()
            &&& routes[route as int].destination is Transfer
        },
        PhaseView::Transferred => session.state == ConnectionState::Configuration,
        PhaseView::Closed => true,
    }
}

/// Whether the event can happen to the session and finds an answer: it is of a
/// kind that the session waits for and, where it asks for the status of a
/// route, that status can be shown.
pub open spec fn acceptable(config: ConfigView, session: SessionView, event: EventView) -> bool {
    match (session.phase, event) {
        (_, EventView::WriteFailed(_)) => true,
        (PhaseView::CacheLookup { .. }, EventView::CacheAnswer(_)) => true,
        (PhaseView::CacheLookup { .. }, _) => false,
        (PhaseView::Connecting { .. }, EventView::Connected) => true,
        (PhaseView::Connecting { .. }, EventView::UpstreamFailed(_)) => true,
        (PhaseView::Connecting { .. }, _) => false,
        (PhaseView::Upstream { .. }, EventView::UpstreamFrame(_)) => true,
        (PhaseView::Upstream { .. }, EventView::UpstreamFailed(_)) => true,
        (PhaseView::Upstream { .. }, _) => false,
        (PhaseView::Closed, _) => false,
        (_, EventView::ReadFailed(_)) => true,
        (PhaseView::StatusRequest { route, .. }, EventView::Frame(body)) => {
            (received(body) matches Ok(request) && request.packet_id == PACKET_ID_STATUS_REQUEST)
                ==> status_usable(config.routes[route as int].status)
        },
        (_, EventView::Frame(_)) => true,
        _ => false,
    }
}

/// What a client is told whose session was given up, if anything: nothing while
/// its intent is not known or only a status was wanted, a JSON component while
/// it logs in, and NBT from then on.
pub open spec fn last_notice(
    state: ConnectionState,
    error: ProxyError<Seq<char>>,
) -> Result<Option<PacketView>, ProxyError<Seq<char>>> {
    let text = proxy_error_text(error);
    match state {
        ConnectionState::Handshake => Ok(None),
        ConnectionState::Login => match disconnect(json_component(text)) {
            Ok(packet) => Ok(Some(packet)),
            Err(error) => Err(error),
        },
        ConnectionState::Configuration => Ok(
            Some(PacketView { packet_id: PACKET_ID_DISCONNECT, payload: nbt_string(text) }),
        ),
    }
}

/// Whether `uuid` is one of version 4: its version and variant bits say so.
pub open spec fn is_random_uuid(uuid: u128) -> bool {
    &&& (uuid / 0x1000_0000_0000_0000_0000) % 16 == 4
    &&& (uuid / 0x4000_0000_0000_0000) % 4 == 2
}

/// `uuid::Uuid::new_v4` draws an id at random and sets its version and variant
/// bits; `as_u128` gives its bits. Nothing else is known of the id.
#[verifier::external_body]
fn random_uuid() -> (uuid: u128)
    ensures
        is_random_uuid(uuid),
{
    uuid::Uuid::new_v4().as_u128()
}

proof fn lemma_random_uuid_exists()
    ensures
        is_random_uuid(0x4000_8000_0000_0000_0000),
{
}

/// Whatever happens, a session stays one that the configuration can have led
/// to: it never waits for a status server that its route does not have, nor for
/// a login that ends elsewhere than in a transfer.
pub proof fn theorem_sessions_stay_well_formed(
    config: ConfigView,
    session: SessionView,
    event: EventView,
    uuid: u128,
    session_id: u128,
)
    requires
        well_formed(config, session),
    ensures
        well_formed(config, transition(config, session, event, uuid, session_id).0),
{
    if let (PhaseView::Handshake, EventView::Frame(body)) = (session.phase, event) {
        if let Ok(handshake) = received_as::<Handshake>(body) {
            crate::config::theorem_first_route_decides(config, handshake.server_address);
        }
    }
}

fn take_packet(body: &Vec<u8>) -> (result: Result<UncompressedPacket, ProxyError<String>>)
    ensures
        match received(body@) {
            Ok(packet) => result matches Ok(p) && p@ == packet,
            Err(error) => result matches Err(e) && e@ == error,
        },
{
    match UncompressedPacket::from_frame(body.as_slice()) {
        Ok(packet) => Ok(packet),
        Err(source) => Err(ProxyError::Protocol { source }),
    }
}

fn take_packet_as<T: PacketId>(body: &Vec<u8>) -> (result: Result<T, ProxyError<String>>)
    ensures
        match received_as::<T>(body@) {
            Ok(packet) => result matches Ok(p) && p.deep_view() == packet,
            Err(error) => result matches Err(e) && e@ == error,
        },
{
    match take_packet(body) {
        Ok(packet) => decode_packet_as(packet),
        Err(error) => Err(error),
    }
}

fn fail(state: ConnectionState, error: ProxyError<String>) -> (outcome: (Session, Action))
    ensures
        (outcome.0@, outcome.1@) == failed(state, error@),
{
    (Session { state, phase: Phase::Closed }, Action::Fail(error))
}

fn finish(state: ConnectionState) -> (outcome: (Session, Action))
    ensures
        (outcome.0@, outcome.1@) == (closed(state), ActionView::Finish),
{
    (Session { state, phase: Phase::Closed }, Action::Finish)
}

fn send<P: PacketId>(state: ConnectionState, phase: Phase, packet: &P) -> (outcome: (
    Session,
    Action,
))
    ensures
        (outcome.0@, outcome.1@) == said(state, phase@, raw::<P>(packet.deep_view())),
{
    match make_raw(packet) {
        Ok(packet) => (Session { state, phase }, Action::Send(packet)),
        Err(error) => fail(state, error),
    }
}

fn send_last<P: PacketId>(state: ConnectionState, packet: &P) -> (outcome: (Session, Action))
    ensures
        (outcome.0@, outcome.1@) == last_word(state, raw::<P>(packet.deep_view())),
{
    match make_raw(packet) {
        Ok(packet) => (Session { state, phase: Phase::Closed }, Action::SendLast(packet)),
        Err(error) => fail(state, error),
    }
}

/// Answers a handshake.
pub fn answer_handshake(config: &Config, handshake: Handshake) -> (outcome: (Session, Action))
    ensures
        (outcome.0@, outcome.1@) == after_handshake(config@, handshake.deep_view()),
{
    let state = ConnectionState::Handshake;
    let intent: i32 = handshake.intent.0;
    match config.match_index(handshake.server_address.as_str()) {
        None => if intent == Handshake::INTENT_LOGIN {
            let reason = owned(
                "{\"text\": \"Could not find a destination to transfer you to\", \"color\": \"red\"}",
            );
            send_last(state, &LoginDisconnect { reason })
        } else {
            finish(state)
        },
        Some(route) => if intent == Handshake::INTENT_LOGIN {
            let protocol_version: i32 = handshake.protocol_version.0;
            let phase = Phase::LoginStart { protocol_version, route };
            (Session { state: ConnectionState::Login, phase }, Action::Read)
        } else if intent == Handshake::INTENT_STATUS {
            let phase = Phase::StatusRequest { handshake, route };
            (Session { state, phase }, Action::Read)
        } else if intent == Handshake::INTENT_TRANSFER {
            let reason = owned(
                "{\"translate\": \"multiplayer.disconnect.transfers_disabled\", \"color\": \"red\"}",
            );
            send_last(state, &LoginDisconnect { reason })
        } else {
            let mut message = owned("Unknown intent ");
            push_signed(&mut message, intent as i64);
            fail(state, ProxyError::BadPacket { message })
        },
    }
}

/// Answers a request for the status of a route.
pub fn answer_status_request(
    config: &Config,
    state: ConnectionState,
    handshake: Handshake,
    route: usize,
    request: UncompressedPacket,
) -> (outcome: (Session, Action))
    requires
        route < config.routes@.len(),
        request.packet_id == PACKET_ID_STATUS_REQUEST ==> status_usable(
            config.routes@[route as int].status@,
        ),
    ensures
        (outcome.0@, outcome.1@) == after_status_request(
            config@,
            state,
            handshake.deep_view(),
            route as nat,
            request@,
        ),
{
    if request.packet_id != PACKET_ID_STATUS_REQUEST {
        return fail(
            state,
            ProxyError::UnexpectedPacket {
                found: request.packet_id,
                expected: PACKET_ID_STATUS_REQUEST,
                expected_name: Some(PacketName::StatusRequest),
            },
        );
    }
    let status = &config.routes[route].status;
    match status {
        StatusConfig::Static { json, fake_protocol_version } => {
            let response = if *fake_protocol_version {
                json.with_protocol(handshake.protocol_version.0).text()
            } else {
                json.text()
            };
            send(state, Phase::Ping, &S2CStatusResponse { response })
        },
        StatusConfig::FetchFrom { host, .. } => {
            match (status.cache_key(host.as_str()), status.cache_ttl()) {
                (Some(key), Some(ttl)) => {
                    let phase = Phase::CacheLookup { handshake, route, request };
                    (Session { state, phase }, Action::LookUp { key, ttl })
                },
                _ => finish(state),
            }
        },
    }
}

/// Goes on with what the cache holds of the status of a route.
pub fn answer_cache(
    config: &Config,
    state: ConnectionState,
    handshake: Handshake,
    route: usize,
    request: UncompressedPacket,
    answer: Option<UncompressedPacket>,
) -> (outcome: (Session, Action))
    requires
        route < config.routes@.len(),
    ensures
        (outcome.0@, outcome.1@) == after_cache(
            config@,
            state,
            handshake.deep_view(),
            route as nat,
            request@,
            (match answer {
                Some(packet) => Some(packet@),
                None => None,
            }),
        ),
{
    match (answer, &config.routes[route].status) {
        (Some(response), _) => (Session { state, phase: Phase::Ping }, Action::Send(response)),
        (None, StatusConfig::FetchFrom { host, port, .. }) => (
            Session { state, phase: Phase::Connecting { handshake, route, request } },
            Action::Connect { host: host.clone(), port: *port, timeout: CONNECT_TIMEOUT_SECONDS },
        ),
        (None, _) => finish(state),
    }
}

/// Goes on when the status server of a route is reached.
pub fn answer_connected(
    config: &Config,
    state: ConnectionState,
    handshake: Handshake,
    route: usize,
    request: UncompressedPacket,
) -> (outcome: (Session, Action))
    requires
        route < config.routes@.len(),
    ensures
        (outcome.0@, outcome.1@) == after_connecting(
            config@,
            state,
            handshake.deep_view(),
            route as nat,
            request@,
        ),
{
    let mut forwarded = handshake;
    match &config.routes[route].status {
        StatusConfig::FetchFrom { host, port, rewrite_address, .. } => {
            if *rewrite_address {
                forwarded.server_address = host.clone();
                forwarded.server_port = *port;
            }
        },
        _ => {},
    }
    match make_raw(&forwarded) {
        Ok(handshake) => (
            Session { state, phase: Phase::Upstream { route } },
            Action::Exchange { handshake, request },
        ),
        Err(error) => fail(state, error),
    }
}

/// Goes on with the answer of the status server of a route.
pub fn answer_upstream(
    config: &Config,
    state: ConnectionState,
    route: usize,
    body: &Vec<u8>,
) -> (outcome: (Session, Action))
    requires
        route < config.routes@.len(),
    ensures
        (outcome.0@, outcome.1@) == after_upstream(config@, state, route as nat, body@),
{
    let response = match take_packet(body) {
        Ok(response) => response,
        Err(error) => return fail(state, error),
    };
    let read: Result<S2CStatusResponse, ProxyError<String>> = decode_packet_as(response.clone());
    match read {
        Ok(_) => {},
        Err(error) => return fail(state, error),
    }
    let status = &config.routes[route].status;
    match status {
        StatusConfig::FetchFrom { host, .. } => {
            match (status.cache_key(host.as_str()), make_raw(&PingPong { timestamp: 0 })) {
                (Some(key), Ok(ping)) => (
                    Session { state, phase: Phase::Ping },
                    Action::Relay { key, response, ping },
                ),
                _ => finish(state),
            }
        },
        _ => finish(state),
    }
}

/// Answers a ping.
pub fn answer_ping(state: ConnectionState, body: &Vec<u8>) -> (outcome: (Session, Action))
    ensures
        (outcome.0@, outcome.1@) == after_ping(state, body@),
{
    let read: Result<PingPong, ProxyError<String>> = take_packet_as(body);
    match read {
        Ok(ping) => send_last(state, &ping),
        Err(error) => fail(state, error),
    }
}

/// The accepted login of a player, with the ids that are given out.
pub fn make_login_success(
    username: &String,
    protocol_version: i32,
    uuid: u128,
    session_id: u128,
) -> (result: Result<UncompressedPacket, ProxyError<String>>)
    ensures
        match login_success(username@, protocol_version, uuid, session_id) {
            Ok(packet) => result matches Ok(p) && p@ == packet,
            Err(error) => result matches Err(e) && e@ == error,
        },
{
    let properties = Vec::new();
    let accepted = LoginSuccess { uuid, username: username.clone(), properties };
    assert(accepted.deep_view().properties =~= Seq::empty());
    let mut packet = match make_raw(&accepted) {
        Ok(packet) => packet,
        Err(error) => return Err(error),
    };
    let ghost fields = packet.payload@;
    if 766 <= protocol_version && protocol_version <= 767 {
        packet.payload.push(1u8);
    }
    if protocol_version >= 776 {
        crate::bytes::push_be(&mut packet.payload, session_id, 16);
    }
    assert(packet.payload@ =~= fields + login_success_tail(protocol_version, session_id));
    Ok(packet)
}

/// Answers the name of the player. An accepted player gets a random id, and the
/// session another one where the protocol has it.
pub fn answer_login_start(
    config: &Config,
    state: ConnectionState,
    protocol_version: i32,
    route: usize,
    body: &Vec<u8>,
) -> (outcome: (Session, Action))
    requires
        route < config.routes@.len(),
    ensures
        exists|uuid: u128, session_id: u128| #[trigger]
            is_random_uuid(uuid) && #[trigger] is_random_uuid(session_id) && (
            outcome.0@,
            outcome.1@,
        ) == after_login_start(
            config@,
            state,
            protocol_version,
            route as nat,
            body@,
            uuid,
            session_id,
        ),
{
    proof {
        lemma_random_uuid_exists();
    }
    let login: LoginStart = match take_packet_as(body) {
        Ok(login) => login,
        Err(error) => return fail(state, error),
    };
    match &config.routes[route].destination {
        Destination::Kick { message } => send_last(
            state,
            &LoginDisconnect { reason: message.text() },
        ),
        Destination::Transfer { .. } => {
            let uuid = random_uuid();
            let session_id = if protocol_version >= 776 {
                random_uuid()
            } else {
                uuid
            };
            match make_login_success(&login.username, protocol_version, uuid, session_id) {
                Ok(packet) => (
                    Session { state, phase: Phase::LoginAck { route } },
                    Action::Send(packet),
                ),
                Err(error) => fail(state, error),
            }
        },
    }
}

/// Answers the acknowledgement of a login.
pub fn answer_login_ack(
    config: &Config,
    state: ConnectionState,
    route: usize,
    body: &Vec<u8>,
) -> (outcome: (Session, Action))
    requires
        route < config.routes@.len(),
    ensures
        (outcome.0@, outcome.1@) == after_login_ack(config@, state, route as nat, body@),
{
    let packet = match take_packet(body) {
        Ok(packet) => packet,
        Err(error) => return fail(state, error),
    };
    if packet.packet_id != PACKET_ID_LOGIN_ACK {
        return fail(
            state,
            ProxyError::UnexpectedPacket {
                found: packet.packet_id,
                expected: PACKET_ID_LOGIN_ACK,
                expected_name: Some(PacketName::LoginAcknowledged),
            },
        );
    }
    let state = ConnectionState::Configuration;
    match &config.routes[route].destination {
        Destination::Transfer { host, port, .. } => send(
            state,
            Phase::Transferred,
            &Transfer { host: host.clone(), port: VarInt(*port as i32) },
        ),
        _ => finish(state),
    }
}

/// Goes on with a packet, or none, of a client that was transferred.
pub fn answer_transferred(
    state: ConnectionState,
    packet: Result<UncompressedPacket, ProxyError<String>>,
) -> (outcome: (Session, Action))
    ensures
        (outcome.0@, outcome.1@) == after_transfer(
            state,
            (match packet {
                Ok(packet) => Ok(packet@),
                Err(error) => Err(error@),
            }),
        ),
{
    match packet {
        Ok(packet) => {
            let id: i32 = packet.packet_id;
            let session = Session { state, phase: Phase::Transferred };
            if id == ClientInformation::PACKET_ID || id == C2SPluginMessage::PACKET_ID {
                (session, Action::Read)
            } else {
                (session, Action::Skip(id))
            }
        },
        Err(error) => if proxy_error_is_eof(&error) {
            finish(state)
        } else {
            fail(state, error)
        },
    }
}

impl Session {
    /// The session of a client that has just connected.
    pub fn new() -> (session: Self)
        ensures
            session@ == opened(),
    {
        Session { state: ConnectionState::Handshake, phase: Phase::Handshake }
    }

    /// Whether the session can take the event.
    pub fn accepts(&self, config: &Config, event: &Event) -> (yes: bool)
        requires
            well_formed(config@, self@),
        ensures
            yes == acceptable(config@, self@, event@),
    {
        match (&self.phase, event) {
            (_, Event::WriteFailed(_)) => true,
            (Phase::CacheLookup { .. }, Event::CacheAnswer(answer)) => {
                assert(event@ is CacheAnswer);
                true
            },
            (Phase::CacheLookup { .. }, _) => false,
            (Phase::Connecting { .. }, Event::Connected) => true,
            (Phase::Connecting { .. }, Event::UpstreamFailed(_)) => true,
            (Phase::Connecting { .. }, _) => false,
            (Phase::Upstream { .. }, Event::UpstreamFrame(_)) => true,
            (Phase::Upstream { .. }, Event::UpstreamFailed(_)) => true,
            (Phase::Upstream { .. }, _) => false,
            (Phase::Closed, _) => false,
            (_, Event::ReadFailed(_)) => true,
            (Phase::StatusRequest { route, .. }, Event::Frame(body)) => match take_packet(body) {
                Ok(request) => request.packet_id != PACKET_ID_STATUS_REQUEST
                    || config.routes[*route].status.is_usable(),
                Err(_) => true,
            },
            (_, Event::Frame(_)) => true,
            _ => false,
        }
    }

    /// Takes an event: the session that follows, and what is to be done now.
    pub fn step(self, config: &Config, event: Event) -> (outcome: (Session, Action))
        requires
            well_formed(config@, self@),
            acceptable(config@, self@, event@),
        ensures
            exists|uuid: u128, session_id: u128| #[trigger]
                is_random_uuid(uuid) && #[trigger] is_random_uuid(session_id) && (
                outcome.0@,
                outcome.1@,
            ) == transition(config@, self@, event@, uuid, session_id),
            well_formed(config@, outcome.0@),
    {
        let state = self.state;
        let ghost before = self@;
        let ghost happened = event@;
        proof {
            lemma_random_uuid_exists();
        }
        let outcome = match (self.phase, event) {
            (_, Event::WriteFailed(source)) => fail(state, ProxyError::Protocol { source }),
            (Phase::Transferred, Event::ReadFailed(source)) => answer_transferred(
                state,
                Err(ProxyError::Protocol { source }),
            ),
            (_, Event::ReadFailed(source)) => fail(state, ProxyError::Protocol { source }),
            (_, Event::UpstreamFailed(error)) => match error {
                UpstreamError::TimedOut => fail(state, ProxyError::Timeout),
                UpstreamError::Unreachable(source) => fail(
                    state,
                    ProxyError::FetchingStatus { source },
                ),
                UpstreamError::Broken(source) => fail(state, ProxyError::Protocol { source }),
            },
            (Phase::Handshake, Event::Frame(body)) => match take_packet_as(&body) {
                Ok(handshake) => answer_handshake(config, handshake),
                Err(error) => fail(state, error),
            },
            (Phase::StatusRequest { handshake, route }, Event::Frame(body)) => match take_packet(
                &body,
            ) {
                Ok(request) => answer_status_request(config, state, handshake, route, request),
                Err(error) => fail(state, error),
            },
            (
                Phase::CacheLookup { handshake, route, request },
                Event::CacheAnswer(answer),
            ) => answer_cache(config, state, handshake, route, request, answer),
            (
                Phase::Connecting { handshake, route, request },
                Event::Connected,
            ) => answer_connected(config, state, handshake, route, request),
            (Phase::Upstream { route }, Event::UpstreamFrame(body)) => answer_upstream(
                config,
                state,
                route,
                &body,
            ),
            (Phase::Ping, Event::Frame(body)) => answer_ping(state, &body),
            (
                Phase::LoginStart { protocol_version, route },
                Event::Frame(body),
            ) => answer_login_start(config, state, protocol_version, route, &body),
            (Phase::LoginAck { route }, Event::Frame(body)) => answer_login_ack(
                config,
                state,
                route,
                &body,
            ),
            (Phase::Transferred, Event::Frame(body)) => answer_transferred(
                state,
                take_packet(&body),
            ),
            _ => finish(state),
        };
        proof {
            let (uuid, session_id) = choose|uuid: u128, session_id: u128| #[trigger]
                is_random_uuid(uuid) && #[trigger] is_random_uuid(session_id) && (
                outcome.0@,
                outcome.1@,
            ) == transition(config@, before, happened, uuid, session_id);
            theorem_sessions_stay_well_formed(config@, before, happened, uuid, session_id);
        }
        outcome
    }
}

/// What a client is told whose session was given up in `state`.
pub fn farewell(state: ConnectionState, error: &ProxyError<String>) -> (result: Result<
    Option<UncompressedPacket>,
    ProxyError<String>,
>)
    ensures
        match last_notice(state, error@) {
            Ok(Some(packet)) => result matches Ok(Some(p)) && p@ == packet,
            Ok(None) => result matches Ok(None),
            Err(error) => result matches Err(e) && e@ == error,
        },
{
    match state {
        ConnectionState::Handshake => Ok(None),
        ConnectionState::Login => {
            let reason = make_json_text(error.text().as_str());
            match make_raw(&LoginDisconnect { reason }) {
                Ok(packet) => Ok(Some(packet)),
                Err(error) => Err(error),
            }
        },
        ConnectionState::Configuration => Ok(
            Some(
                UncompressedPacket::new(
                    PACKET_ID_DISCONNECT,
                    make_nbt_string(error.text().as_str()),
                ),
            ),
        ),
    }
}

/// What contracts see of an action is what it holds, each part under its own
/// name.
pub proof fn theorem_actions_seen(action: Action)
    ensures
        action is Read ==> action@ is Read,
        action matches Action::Skip(number) ==> action@ == ActionView::Skip(number),
        action matches Action::Send(packet) ==> action@ == ActionView::Send(packet@),
        action matches Action::SendLast(packet) ==> action@ == ActionView::SendLast(packet@),
        action matches Action::LookUp { key, ttl } ==> action@ == (ActionView::LookUp {
            key: key@,
            ttl,
        }),
        action matches Action::Connect { host, port, timeout } ==> action@ == (
        ActionView::Connect { host: host@, port, timeout }),
        action matches Action::Exchange { handshake, request } ==> action@ == (
        ActionView::Exchange { handshake: handshake@, request: request@ }),
        action matches Action::Relay { key, response, ping } ==> action@ == (ActionView::Relay {
            key: key@,
            response: response@,
            ping: ping@,
        }),
        action is Finish ==> action@ is Finish,
        action matches Action::Fail(error) ==> action@ == ActionView::Fail(error@),
{
}

/// What contracts see of an event is what it holds.
pub proof fn theorem_events_seen(event: Event)
    ensures
        event matches Event::Frame(body) ==> event@ == EventView::Frame(body@),
        event matches Event::ReadFailed(error) ==> event@ == EventView::ReadFailed(error@),
        event matches Event::WriteFailed(error) ==> event@ == EventView::WriteFailed(error@),
        event matches Event::CacheAnswer(Some(packet)) ==> event@ == EventView::CacheAnswer(
            Some(packet@),
        ),
        event matches Event::CacheAnswer(None) ==> event@ == EventView::CacheAnswer(None),
        event is Connected ==> event@ is Connected,
        event matches Event::UpstreamFrame(body) ==> event@ == EventView::UpstreamFrame(body@),
        event matches Event::UpstreamFailed(error) ==> event@ == EventView::UpstreamFailed(error@),
{
}

} // verus!

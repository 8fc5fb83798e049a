//! What each event leads to, in terms of the bytes that come and go.
//!
//! Here a packet is its bytes and a route is what its configuration says: every
//! law names the bytes of a frame, what the route holds, and what follows.

use vstd::prelude::*;
use vstd::utf8::encode_utf8;

use crate::bytes::be_bytes;
use crate::cache::{lookup, stored, CachedView};
use crate::config::{
    pattern_matches, route_of, ConfigView, DestinationView, StatusView, TransferMode,
};
use crate::error::{
    is_eof, proxy_error_text, IoError, PacketError, PacketName, ProxyError, SerializationError,
    VarIntError,
};
use crate::json::{json_text, member, with_protocol, JsonView};
use crate::layout::too_long;
use crate::notice::escaped;
use crate::packet::{decoded_as, unframed, PacketView};
use crate::packets::{Handshake, HandshakeView, LoginStart, PingPong, S2CStatusResponse};
use crate::session::{
    acceptable, last_notice, opened, received, transition, ActionView, ConnectionState,
    EventView, PhaseView, SessionView, UpstreamError, CONNECT_TIMEOUT_SECONDS,
    FAREWELL_MILLISECONDS,
};
use crate::text::{decimal, signed_decimal};
use crate::varint::{varint_bytes, VarInt};
use crate::wire::utf16_length;

verus! {

/// A session that waits for something.
pub open spec fn at(state: ConnectionState, phase: PhaseView) -> SessionView {
    SessionView { state, phase }
}

/// The route of an address: the first whose pattern covers it.
pub open spec fn decides(config: ConfigView, address: Seq<char>, route: nat) -> bool {
    &&& route < config.routes.len()
    &&& pattern_matches(config.routes[route as int].pattern, address)
    &&& forall|j: int|
        0 <= j < route ==> !pattern_matches(#[trigger] config.routes[j].pattern, address)
}

/// Whether no route covers an address.
pub open spec fn unrouted(config: ConfigView, address: Seq<char>) -> bool {
    forall|j: int|
        0 <= j < config.routes.len() ==> !pattern_matches(
            #[trigger] config.routes[j].pattern,
            address,
        )
}

/// The fields of a handshake as bytes.
pub open spec fn handshake_bytes(version: i32, address: Seq<char>, port: u16, intent: i32) -> Seq<
    u8,
> {
    varint_bytes(version) + (varint_bytes(encode_utf8(address).len() as i32) + encode_utf8(
        address,
    )) + seq![(port / 256) as u8, (port % 256) as u8] + varint_bytes(intent)
}

/// A handshake.
pub open spec fn hello(version: i32, address: Seq<char>, port: u16, intent: i32) -> HandshakeView {
    HandshakeView {
        protocol_version: VarInt(version),
        server_address: address,
        server_port: port,
        intent: VarInt(intent),
    }
}

/// A packet that holds one text.
pub open spec fn text_packet(number: i32, text: Seq<char>) -> PacketView {
    PacketView {
        packet_id: number,
        payload: varint_bytes(encode_utf8(text).len() as i32) + encode_utf8(text),
    }
}

proof fn lemma_number(number: u8, payload: Seq<u8>)
    requires
        number < 128,
    ensures
        received(seq![number] + payload) == Ok::<PacketView, ProxyError<Seq<char>>>(
            PacketView { packet_id: number as i32, payload },
        ),
{
    crate::layout::theorem_frame_layout(number as i32, payload);
}

proof fn lemma_numbers(number: i32, payload: Seq<u8>)
    ensures
        received(varint_bytes(number) + payload) == Ok::<PacketView, ProxyError<Seq<char>>>(
            PacketView { packet_id: number, payload },
        ),
{
    crate::layout::theorem_frame_layout(number, payload);
}

proof fn lemma_route(config: ConfigView, address: Seq<char>, route: nat)
    requires
        decides(config, address, route),
    ensures
        route_of(config, address) == Some(route),
{
    crate::config::theorem_first_route_decides(config, address);
    if let Some(found) = route_of(config, address) {
        if found < route {
            assert(!pattern_matches(config.routes[found as int].pattern, address));
        }
        if route < found {
            assert(!pattern_matches(config.routes[route as int].pattern, address));
        }
    } else {
        assert(!pattern_matches(config.routes[route as int].pattern, address));
    }
}

proof fn lemma_unrouted(config: ConfigView, address: Seq<char>)
    requires
        unrouted(config, address),
    ensures
        route_of(config, address) is None,
{
    crate::config::theorem_first_route_decides(config, address);
    if let Some(found) = route_of(config, address) {
        assert(!pattern_matches(config.routes[found as int].pattern, address));
    }
}

proof fn lemma_hello(version: i32, address: Seq<char>, port: u16, intent: i32, rest: Seq<u8>)
    requires
        utf16_length(address) <= 32767,
    ensures
        crate::session::received_as::<Handshake>(
            seq![0x00u8] + (handshake_bytes(version, address, port, intent) + rest),
        ) == Ok::<HandshakeView, ProxyError<Seq<char>>>(hello(version, address, port, intent)),
{
    crate::layout::theorem_handshake_layout(version, address, port, intent, rest);
    lemma_number(0x00, handshake_bytes(version, address, port, intent) + rest);
}

/// A session begins with nothing known of the client, and waits for its
/// handshake.
pub proof fn theorem_sessions_open()
    ensures
        opened() == at(ConnectionState::Handshake, PhaseView::Handshake),
{
}

/// A handshake for an address with a route: a client that wants to log in is
/// asked for its name, one that wants the status for its request, one that was
/// transferred here is refused, and any other intent is an error.
pub proof fn theorem_handshake_with_route(
    config: ConfigView,
    version: i32,
    address: Seq<char>,
    port: u16,
    intent: i32,
    rest: Seq<u8>,
    route: nat,
    uuid: u128,
    session_id: u128,
)
    requires
        utf16_length(address) <= 32767,
        decides(config, address, route),
    ensures
        ({
            let body = seq![0x00u8] + (handshake_bytes(version, address, port, intent) + rest);
            let outcome = transition(config, opened(), EventView::Frame(body), uuid, session_id);
            &&& intent == 1 ==> outcome == (
                at(
                    ConnectionState::Handshake,
                    PhaseView::StatusRequest {
                        handshake: hello(version, address, port, intent),
                        route,
                    },
                ),
                ActionView::Read,
            )
            &&& intent == 2 ==> outcome == (
                at(
                    ConnectionState::Login,
                    PhaseView::LoginStart { protocol_version: version, route },
                ),
                ActionView::Read,
            )
            &&& intent == 3 ==> outcome == (
                at(ConnectionState::Handshake, PhaseView::Closed),
                ActionView::SendLast(
                    text_packet(
                        0x00,
                        "{\"translate\": \"multiplayer.disconnect.transfers_disabled\", \"color\": \"red\"}"@,
                    ),
                ),
            )
            &&& intent != 1 && intent != 2 && intent != 3 ==> outcome == (
                at(ConnectionState::Handshake, PhaseView::Closed),
                ActionView::Fail(
                    ProxyError::BadPacket {
                        message: "Unknown intent "@ + signed_decimal(intent as int),
                    },
                ),
            )
        }),
{
    lemma_route(config, address, route);
    lemma_hello(version, address, port, intent, rest);
    let text =
        "{\"translate\": \"multiplayer.disconnect.transfers_disabled\", \"color\": \"red\"}"@;
    reveal_strlit(
        "{\"translate\": \"multiplayer.disconnect.transfers_disabled\", \"color\": \"red\"}",
    );
    crate::layout::lemma_utf16_length_bound(text);
    crate::layout::theorem_login_disconnect_layout(text, Seq::empty());
}

/// A handshake for an address without a route: a client that wants to log in is
/// told so, and any other is left without an answer.
pub proof fn theorem_handshake_without_route(
    config: ConfigView,
    version: i32,
    address: Seq<char>,
    port: u16,
    intent: i32,
    rest: Seq<u8>,
    uuid: u128,
    session_id: u128,
)
    requires
        utf16_length(address) <= 32767,
        unrouted(config, address),
    ensures
        ({
            let body = seq![0x00u8] + (handshake_bytes(version, address, port, intent) + rest);
            let text =
                "{\"text\": \"Could not find a destination to transfer you to\", \"color\": \"red\"}"@;
            transition(config, opened(), EventView::Frame(body), uuid, session_id) == (
                at(ConnectionState::Handshake, PhaseView::Closed),
                if intent == 2 {
                    ActionView::SendLast(text_packet(0x00, text))
                } else {
                    ActionView::Finish
                },
            )
        }),
{
    lemma_unrouted(config, address);
    lemma_hello(version, address, port, intent, rest);
    let text =
        "{\"text\": \"Could not find a destination to transfer you to\", \"color\": \"red\"}"@;
    reveal_strlit(
        "{\"text\": \"Could not find a destination to transfer you to\", \"color\": \"red\"}",
    );
    crate::layout::lemma_utf16_length_bound(text);
    crate::layout::theorem_login_disconnect_layout(text, Seq::empty());
}

/// A request for a fixed status is answered with the document of the route as
/// text, in which the version of the client's protocol stands if the route says
/// so; the ping is due next. A text that is too long is an error.
pub proof fn theorem_fixed_status_sent(
    config: ConfigView,
    state: ConnectionState,
    handshake: HandshakeView,
    route: nat,
    json: JsonView,
    fake_protocol_version: bool,
    payload: Seq<u8>,
    uuid: u128,
    session_id: u128,
)
    requires
        config.routes[route as int].status == (StatusView::Static { json, fake_protocol_version }),
    ensures
        ({
            let text = json_text(
                if fake_protocol_version {
                    with_protocol(json, handshake.protocol_version.0 as int)
                } else {
                    json
                },
            );
            transition(
                config,
                at(state, PhaseView::StatusRequest { handshake, route }),
                EventView::Frame(seq![0x00u8] + payload),
                uuid,
                session_id,
            ) == (if utf16_length(text) <= 32767 {
                (at(state, PhaseView::Ping), ActionView::Send(text_packet(0x00, text)))
            } else {
                (at(state, PhaseView::Closed), ActionView::Fail(too_long(text)))
            })
        }),
{
    lemma_number(0x00, payload);
    let text = json_text(
        if fake_protocol_version {
            with_protocol(json, handshake.protocol_version.0 as int)
        } else {
            json
        },
    );
    crate::layout::theorem_status_response_layout(text, Seq::empty());
}

/// A request for a fetched status looks for one that is kept, under the host
/// and the port of the route and for as many seconds as the route says.
pub proof fn theorem_fetched_status_looked_up(
    config: ConfigView,
    state: ConnectionState,
    handshake: HandshakeView,
    route: nat,
    host: Seq<char>,
    port: u16,
    rewrite_address: bool,
    ttl: u64,
    payload: Seq<u8>,
    uuid: u128,
    session_id: u128,
)
    requires
        config.routes[route as int].status == (StatusView::FetchFrom {
            host,
            port,
            rewrite_address,
            cache_ttl: Some(ttl),
        }),
    ensures
        transition(
            config,
            at(state, PhaseView::StatusRequest { handshake, route }),
            EventView::Frame(seq![0x00u8] + payload),
            uuid,
            session_id,
        ) == (
            at(
                state,
                PhaseView::CacheLookup {
                    handshake,
                    route,
                    request: PacketView { packet_id: 0x00, payload },
                },
            ),
            ActionView::LookUp { key: host + seq![':'] + decimal(port as nat), ttl },
        ),
{
    lemma_number(0x00, payload);
}

/// Where nothing is kept, the status server of the route is connected to, by
/// the host and the port of the route and for three seconds at most, whatever
/// the client's handshake says and whether or not it is to be rewritten. What
/// is kept is sent as it is, and the ping is due next.
pub proof fn theorem_cache_answered(
    config: ConfigView,
    state: ConnectionState,
    handshake: HandshakeView,
    route: nat,
    request: PacketView,
    host: Seq<char>,
    port: u16,
    rewrite_address: bool,
    cache_ttl: Option<u64>,
    kept: PacketView,
    uuid: u128,
    session_id: u128,
)
    requires
        config.routes[route as int].status == (StatusView::FetchFrom {
            host,
            port,
            rewrite_address,
            cache_ttl,
        }),
    ensures
        ({
            let waiting = at(state, PhaseView::CacheLookup { handshake, route, request });
            &&& transition(config, waiting, EventView::CacheAnswer(None), uuid, session_id) == (
                at(state, PhaseView::Connecting { handshake, route, request }),
                ActionView::Connect { host, port, timeout: 3 },
            )
            &&& transition(config, waiting, EventView::CacheAnswer(Some(kept)), uuid, session_id)
                == (at(state, PhaseView::Ping), ActionView::Send(kept))
        }),
{
}

/// A status server that is reached gets the client's handshake, with the host
/// and the port of the route in the place of those that the client gave if the
/// route says so, and behind it the client's own request. An address that is
/// too long to be written ends the session.
pub proof fn theorem_status_server_gets_the_handshake(
    config: ConfigView,
    state: ConnectionState,
    version: i32,
    address: Seq<char>,
    own_port: u16,
    intent: i32,
    route: nat,
    request: PacketView,
    host: Seq<char>,
    port: u16,
    rewrite_address: bool,
    cache_ttl: Option<u64>,
    uuid: u128,
    session_id: u128,
)
    requires
        config.routes[route as int].status == (StatusView::FetchFrom {
            host,
            port,
            rewrite_address,
            cache_ttl,
        }),
    ensures
        ({
            let named = if rewrite_address {
                host
            } else {
                address
            };
            let named_port = if rewrite_address {
                port
            } else {
                own_port
            };
            transition(
                config,
                at(
                    state,
                    PhaseView::Connecting {
                        handshake: hello(version, address, own_port, intent),
                        route,
                        request,
                    },
                ),
                EventView::Connected,
                uuid,
                session_id,
            ) == (if utf16_length(named) <= 32767 {
                (
                    at(state, PhaseView::Upstream { route }),
                    ActionView::Exchange {
                        handshake: PacketView {
                            packet_id: 0x00,
                            payload: handshake_bytes(version, named, named_port, intent),
                        },
                        request,
                    },
                )
            } else {
                (at(state, PhaseView::Closed), ActionView::Fail(too_long(named)))
            })
        }),
{
    crate::layout::theorem_handshake_layout(version, host, port, intent, Seq::empty());
    crate::layout::theorem_handshake_layout(version, address, own_port, intent, Seq::empty());
}

/// A status that comes from the status server is kept under the host and the
/// port of the route and passed on byte for byte, and the server gets a ping of
/// eight zero bytes; the ping of the client is due next.
pub proof fn theorem_status_passed_on(
    config: ConfigView,
    state: ConnectionState,
    route: nat,
    status: Seq<char>,
    rest: Seq<u8>,
    host: Seq<char>,
    port: u16,
    rewrite_address: bool,
    cache_ttl: Option<u64>,
    uuid: u128,
    session_id: u128,
)
    requires
        config.routes[route as int].status == (StatusView::FetchFrom {
            host,
            port,
            rewrite_address,
            cache_ttl,
        }),
        utf16_length(status) <= 32767,
    ensures
        ({
            let payload = varint_bytes(encode_utf8(status).len() as i32) + encode_utf8(status)
                + rest;
            transition(
                config,
                at(state, PhaseView::Upstream { route }),
                EventView::UpstreamFrame(seq![0x00u8] + payload),
                uuid,
                session_id,
            ) == (
                at(state, PhaseView::Ping),
                ActionView::Relay {
                    key: host + seq![':'] + decimal(port as nat),
                    response: PacketView { packet_id: 0x00, payload },
                    ping: PacketView { packet_id: 0x01, payload: seq![0u8, 0, 0, 0, 0, 0, 0, 0] },
                },
            )
        }),
{
    let payload = varint_bytes(encode_utf8(status).len() as i32) + encode_utf8(status) + rest;
    crate::layout::theorem_status_response_layout(status, rest);
    lemma_number(0x00, payload);
    reveal_with_fuel(be_bytes, 9);
    assert(be_bytes(0, 8) =~= seq![0u8, 0, 0, 0, 0, 0, 0, 0]);
}

/// What a status server sends is refused, and neither kept nor passed on, if it
/// is no frame with a whole number, has another number or holds no status.
pub proof fn theorem_other_answers_refused(
    config: ConfigView,
    state: ConnectionState,
    route: nat,
    body: Seq<u8>,
    number: i32,
    payload: Seq<u8>,
    uuid: u128,
    session_id: u128,
)
    ensures
        ({
            let waiting = at(state, PhaseView::Upstream { route });
            let over = at(state, PhaseView::Closed);
            let sent = varint_bytes(number) + payload;
            &&& unframed(body) matches Err(source) ==> transition(
                config,
                waiting,
                EventView::UpstreamFrame(body),
                uuid,
                session_id,
            ) == (over, ActionView::Fail(ProxyError::Protocol { source }))
            &&& number != 0x00 ==> transition(
                config,
                waiting,
                EventView::UpstreamFrame(sent),
                uuid,
                session_id,
            ) == (
                over,
                ActionView::Fail(
                    ProxyError::UnexpectedPacket {
                        found: number,
                        expected: 0x00,
                        expected_name: Some(PacketName::StatusResponse),
                    },
                ),
            )
            &&& decoded_as::<S2CStatusResponse>(PacketView { packet_id: number, payload }) matches Err(
                error,
            ) ==> transition(config, waiting, EventView::UpstreamFrame(sent), uuid, session_id) == (
                over,
                ActionView::Fail(error),
            )
        }),
{
    lemma_numbers(number, payload);
}

/// A status server that is not reached in time, is not reached at all or breaks
/// off ends the session, each with its own error.
pub proof fn theorem_upstream_failures(
    config: ConfigView,
    session: SessionView,
    io: IoError<Seq<char>>,
    source: PacketError<Seq<char>>,
    uuid: u128,
    session_id: u128,
)
    ensures
        ({
            let over = at(session.state, PhaseView::Closed);
            &&& transition(
                config,
                session,
                EventView::UpstreamFailed(UpstreamError::TimedOut),
                uuid,
                session_id,
            ) == (over, ActionView::Fail(ProxyError::Timeout))
            &&& transition(
                config,
                session,
                EventView::UpstreamFailed(UpstreamError::Unreachable(io)),
                uuid,
                session_id,
            ) == (over, ActionView::Fail(ProxyError::FetchingStatus { source: io }))
            &&& transition(
                config,
                session,
                EventView::UpstreamFailed(UpstreamError::Broken(source)),
                uuid,
                session_id,
            ) == (over, ActionView::Fail(ProxyError::Protocol { source }))
        }),
{
}

/// A ping is answered with the very eight bytes that it holds, and the session
/// is over; one with less is an error.
pub proof fn theorem_ping_answered(
    config: ConfigView,
    state: ConnectionState,
    bytes: Seq<u8>,
    rest: Seq<u8>,
    uuid: u128,
    session_id: u128,
)
    ensures
        bytes.len() == 8 ==> transition(
            config,
            at(state, PhaseView::Ping),
            EventView::Frame(seq![0x01u8] + (bytes + rest)),
            uuid,
            session_id,
        ) == (
            at(state, PhaseView::Closed),
            ActionView::SendLast(PacketView { packet_id: 0x01, payload: bytes }),
        ),
        bytes.len() < 8 ==> (transition(
            config,
            at(state, PhaseView::Ping),
            EventView::Frame(seq![0x01u8] + bytes),
            uuid,
            session_id,
        ).1 matches ActionView::Fail(ProxyError::Serde { while_parsing, .. }) && while_parsing
            == Some(PacketName::PingPong)),
{
    lemma_number(0x01, bytes + rest);
    lemma_number(0x01, bytes);
    crate::layout::theorem_ping_layout(0, bytes, rest);
}

/// A player who gives a name on a route with a destination is accepted under
/// that name and a new id: sixteen bytes of the id, the name as text, no
/// properties, and at the end one byte for the protocols 766 and 767 and the
/// sixteen bytes of the session's id from protocol 776 on. The acknowledgement
/// is due next.
pub proof fn theorem_player_accepted(
    config: ConfigView,
    state: ConnectionState,
    version: i32,
    route: nat,
    name: Seq<char>,
    own_id: u128,
    rest: Seq<u8>,
    uuid: u128,
    session_id: u128,
)
    requires
        config.routes[route as int].destination is Transfer,
        utf16_length(name) <= 32767,
    ensures
        ({
            let text = varint_bytes(encode_utf8(name).len() as i32) + encode_utf8(name);
            let tail = if version == 766 || version == 767 {
                seq![1u8]
            } else if version >= 776 {
                be_bytes(session_id as nat, 16)
            } else {
                Seq::<u8>::empty()
            };
            transition(
                config,
                at(state, PhaseView::LoginStart { protocol_version: version, route }),
                EventView::Frame(
                    seq![0x00u8] + (text + be_bytes(own_id as nat, 16) + rest),
                ),
                uuid,
                session_id,
            ) == (
                at(state, PhaseView::LoginAck { route }),
                ActionView::Send(
                    PacketView {
                        packet_id: 0x02,
                        payload: be_bytes(uuid as nat, 16) + text + seq![0u8] + tail,
                    },
                ),
            )
        }),
{
    let text = varint_bytes(encode_utf8(name).len() as i32) + encode_utf8(name);
    crate::layout::theorem_login_start_layout(name, own_id, rest);
    lemma_number(0x00, text + be_bytes(own_id as nat, 16) + rest);
    let none = Seq::<crate::packets::PropertyView>::empty();
    crate::layout::theorem_login_success_layout(uuid, name, none, Seq::empty(), Seq::empty());
    crate::layout::theorem_frame_layout(0, Seq::empty());
    let id = be_bytes(uuid as nat, 16);
    assert(id + text + seq![0u8] + Seq::<u8>::empty() =~= id + text + seq![0u8]);
}

/// A player who gives a name on a route that kicks reads the message of that
/// route, and the session is over.
pub proof fn theorem_player_kicked(
    config: ConfigView,
    state: ConnectionState,
    version: i32,
    route: nat,
    message: JsonView,
    name: Seq<char>,
    own_id: u128,
    rest: Seq<u8>,
    uuid: u128,
    session_id: u128,
)
    requires
        config.routes[route as int].destination == (DestinationView::Kick { message }),
        utf16_length(name) <= 32767,
    ensures
        transition(
            config,
            at(state, PhaseView::LoginStart { protocol_version: version, route }),
            EventView::Frame(
                seq![0x00u8] + (varint_bytes(encode_utf8(name).len() as i32) + encode_utf8(name)
                    + be_bytes(own_id as nat, 16) + rest),
            ),
            uuid,
            session_id,
        ) == (
            at(state, PhaseView::Closed),
            if utf16_length(json_text(message)) <= 32767 {
                ActionView::SendLast(text_packet(0x00, json_text(message)))
            } else {
                ActionView::Fail(too_long(json_text(message)))
            },
        ),
{
    let text = varint_bytes(encode_utf8(name).len() as i32) + encode_utf8(name);
    crate::layout::theorem_login_start_layout(name, own_id, rest);
    lemma_number(0x00, text + be_bytes(own_id as nat, 16) + rest);
    crate::layout::theorem_login_disconnect_layout(json_text(message), Seq::empty());
}

/// A player who acknowledges the login is sent to the host and the port of the
/// route; from then on the session only listens.
pub proof fn theorem_player_transferred(
    config: ConfigView,
    state: ConnectionState,
    route: nat,
    host: Seq<char>,
    port: u16,
    transfer_mode: TransferMode,
    rewrite_address: bool,
    payload: Seq<u8>,
    uuid: u128,
    session_id: u128,
)
    requires
        config.routes[route as int].destination == (DestinationView::Transfer {
            host,
            port,
            transfer_mode,
            rewrite_address,
        }),
    ensures
        transition(
            config,
            at(state, PhaseView::LoginAck { route }),
            EventView::Frame(seq![0x03u8] + payload),
            uuid,
            session_id,
        ) == (if utf16_length(host) <= 32767 {
            (
                at(ConnectionState::Configuration, PhaseView::Transferred),
                ActionView::Send(
                    PacketView {
                        packet_id: 0x0B,
                        payload: varint_bytes(encode_utf8(host).len() as i32) + encode_utf8(host)
                            + varint_bytes(port as i32),
                    },
                ),
            )
        } else {
            (
                at(ConnectionState::Configuration, PhaseView::Closed),
                ActionView::Fail(too_long(host)),
            )
        }),
{
    lemma_number(0x03, payload);
    crate::layout::theorem_transfer_layout(host, port as i32, Seq::empty());
}

/// A client that was transferred may send what it likes. Its settings and its
/// plugin messages are expected, and everything else is passed over.
pub proof fn theorem_transferred_client_heard(
    config: ConfigView,
    state: ConnectionState,
    number: i32,
    payload: Seq<u8>,
    uuid: u128,
    session_id: u128,
)
    ensures
        transition(
            config,
            at(state, PhaseView::Transferred),
            EventView::Frame(varint_bytes(number) + payload),
            uuid,
            session_id,
        ) == (
            at(state, PhaseView::Transferred),
            if number == 0x00 || number == 0x02 {
                ActionView::Read
            } else {
                ActionView::Skip(number)
            },
        ),
{
    lemma_numbers(number, payload);
}

/// The errors that say that the other side closed the connection: those of a
/// read of a number, of bytes or of a field that found no more bytes. No other
/// error does.
pub proof fn theorem_what_ends_a_connection(error: ProxyError<Seq<char>>, text: Seq<char>)
    ensures
        is_eof(
            ProxyError::Protocol {
                source: PacketError::VarInt(VarIntError::Io(IoError::UnexpectedEof(text))),
            },
        ),
        is_eof(ProxyError::Protocol { source: PacketError::Io(IoError::UnexpectedEof(text)) }),
        is_eof(
            ProxyError::Protocol {
                source: PacketError::Serialization(
                    SerializationError::Io(IoError::UnexpectedEof(text)),
                ),
            },
        ),
        is_eof(error) ==> exists|t: Seq<char>|
            {
                ||| error == #[trigger] eof_of_number(t)
                ||| error == (ProxyError::Protocol {
                    source: PacketError::Io(IoError::UnexpectedEof(t)),
                })
                ||| error == (ProxyError::Protocol {
                    source: PacketError::Serialization(
                        SerializationError::Io(IoError::UnexpectedEof(t)),
                    ),
                })
            },
{
    if is_eof(error) {
        let t = match error->Protocol_source {
            PacketError::VarInt(VarIntError::Io(IoError::UnexpectedEof(t))) => t,
            PacketError::Io(IoError::UnexpectedEof(t)) => t,
            PacketError::Serialization(SerializationError::Io(IoError::UnexpectedEof(t))) => t,
            _ => text,
        };
        let witness = eof_of_number(t);
    }
}

/// The error of a number that ends before its last byte.
pub open spec fn eof_of_number(text: Seq<char>) -> ProxyError<Seq<char>> {
    ProxyError::Protocol {
        source: PacketError::VarInt(VarIntError::Io(IoError::UnexpectedEof(text))),
    }
}

/// A read that fails ends the session with its error, and so does a write,
/// whatever the session waits for. Only the end of the connection of a client
/// that was transferred is no error.
pub proof fn theorem_failed_reads_and_writes(
    config: ConfigView,
    session: SessionView,
    source: PacketError<Seq<char>>,
    uuid: u128,
    session_id: u128,
)
    ensures
        ({
            let over = at(session.state, PhaseView::Closed);
            let error = ProxyError::Protocol { source };
            &&& transition(config, session, EventView::WriteFailed(source), uuid, session_id) == (
                over,
                ActionView::Fail(error),
            )
            &&& transition(config, session, EventView::ReadFailed(source), uuid, session_id) == (
                over,
                if session.phase is Transferred && is_eof(error) {
                    ActionView::Finish
                } else {
                    ActionView::Fail(error)
                },
            )
        }),
{
}

/// Whether the session waits for a packet of the client that it needs.
pub open spec fn listens(phase: PhaseView) -> bool {
    phase is Handshake || phase is StatusRequest || phase is Ping || phase is LoginStart
        || phase is LoginAck
}

/// A frame without a whole number ends the session with an error; of a client
/// that was transferred it is taken like a read that failed.
pub proof fn theorem_frames_without_a_number(
    config: ConfigView,
    session: SessionView,
    body: Seq<u8>,
    uuid: u128,
    session_id: u128,
)
    ensures
        unframed(body) matches Err(source) ==> {
            &&& listens(session.phase) ==> transition(
                config,
                session,
                EventView::Frame(body),
                uuid,
                session_id,
            ) == (
                at(session.state, PhaseView::Closed),
                ActionView::Fail(ProxyError::Protocol { source }),
            )
            &&& session.phase is Transferred ==> transition(
                config,
                session,
                EventView::Frame(body),
                uuid,
                session_id,
            ) == transition(config, session, EventView::ReadFailed(source), uuid, session_id)
        },
        unframed(Seq::empty()) matches Err(
            PacketError::VarInt(VarIntError::Io(IoError::UnexpectedEof(_))),
        ),
{
}

/// A packet with another number than the one that is due ends the session with
/// an error that names both, and so do fields that cannot be read.
pub proof fn theorem_packets_out_of_turn(
    config: ConfigView,
    session: SessionView,
    number: i32,
    payload: Seq<u8>,
    uuid: u128,
    session_id: u128,
)
    ensures
        ({
            let packet = PacketView { packet_id: number, payload };
            let outcome = transition(
                config,
                session,
                EventView::Frame(varint_bytes(number) + payload),
                uuid,
                session_id,
            );
            let over = at(session.state, PhaseView::Closed);
            let due = match session.phase {
                PhaseView::Handshake => (0x00i32, PacketName::Handshake),
                PhaseView::StatusRequest { .. } => (0x00i32, PacketName::StatusRequest),
                PhaseView::Ping => (0x01i32, PacketName::PingPong),
                PhaseView::LoginStart { .. } => (0x00i32, PacketName::LoginStart),
                _ => (0x03i32, PacketName::LoginAcknowledged),
            };
            &&& listens(session.phase) && number != due.0 ==> outcome == (
                over,
                ActionView::Fail(
                    ProxyError::UnexpectedPacket {
                        found: number,
                        expected: due.0,
                        expected_name: Some(due.1),
                    },
                ),
            )
            &&& session.phase is Handshake ==> (decoded_as::<Handshake>(packet) matches Err(error)
                ==> outcome == (over, ActionView::Fail(error)))
            &&& session.phase is Ping ==> (decoded_as::<PingPong>(packet) matches Err(error)
                ==> outcome == (over, ActionView::Fail(error)))
            &&& session.phase is LoginStart ==> (decoded_as::<LoginStart>(packet) matches Err(error)
                ==> outcome == (over, ActionView::Fail(error)))
        }),
{
    lemma_numbers(number, payload);
}

/// A request for a status is taken exactly where that status can be shown: a
/// document that is to hold the client's protocol has an object "version" for
/// it, and a status that is fetched says how long it is kept.
pub proof fn theorem_requests_that_are_taken(
    config: ConfigView,
    state: ConnectionState,
    handshake: HandshakeView,
    route: nat,
    payload: Seq<u8>,
)
    ensures
        acceptable(
            config,
            at(state, PhaseView::StatusRequest { handshake, route }),
            EventView::Frame(seq![0x00u8] + payload),
        ) <==> (match config.routes[route as int].status {
            StatusView::Static { json, fake_protocol_version } => !fake_protocol_version || member(
                json,
                "version"@,
            ) matches Some(JsonView::Object(_)),
            StatusView::FetchFrom { cache_ttl, .. } => cache_ttl is Some,
        }),
{
    lemma_number(0x00, payload);
}

/// A session takes an answer of the cache only when it asked the cache, and
/// word of the status server only when it turned to it; it takes nothing but a
/// failed write once it is over.
pub proof fn theorem_events_in_turn(config: ConfigView, session: SessionView, event: EventView)
    ensures
        event is WriteFailed ==> acceptable(config, session, event),
        event is CacheAnswer ==> (acceptable(config, session, event) <==> session.phase
            is CacheLookup),
        event is Connected ==> (acceptable(config, session, event) <==> session.phase
            is Connecting),
        event is UpstreamFrame ==> (acceptable(config, session, event) <==> session.phase
            is Upstream),
        event is UpstreamFailed ==> (acceptable(config, session, event) <==> (session.phase
            is Connecting || session.phase is Upstream)),
        event is ReadFailed ==> (acceptable(config, session, event) <==> (listens(session.phase)
            || session.phase is Transferred)),
        event is Frame && acceptable(config, session, event) ==> listens(session.phase)
            || session.phase is Transferred,
        event is Frame && session.phase !is StatusRequest && (listens(session.phase)
            || session.phase is Transferred) ==> acceptable(config, session, event),
{
}

/// What a client reads whose session was given up: nothing before it began to
/// log in, the words of the error as a JSON component while it logs in, and as
/// a string tag of NBT from then on. The connection stays open for half a
/// second behind it.
pub proof fn theorem_last_words(error: ProxyError<Seq<char>>)
    ensures
        ({
            let text = proxy_error_text(error);
            let component = "{\"text\": \""@ + escaped(text) + "\"}"@;
            let bytes = encode_utf8(text);
            &&& last_notice(ConnectionState::Handshake, error) matches Ok(None)
            &&& last_notice(ConnectionState::Login, error) == (if utf16_length(component)
                <= 32767 {
                Ok::<Option<PacketView>, ProxyError<Seq<char>>>(
                    Some(text_packet(0x00, component)),
                )
            } else {
                Err(too_long(component))
            })
            &&& last_notice(ConnectionState::Configuration, error) == Ok::<
                Option<PacketView>,
                ProxyError<Seq<char>>,
            >(
                Some(
                    PacketView {
                        packet_id: 0x02,
                        payload: seq![
                            8u8,
                            ((bytes.len() / 256) % 256) as u8,
                            (bytes.len() % 256) as u8,
                        ] + bytes,
                    },
                ),
            )
            &&& FAREWELL_MILLISECONDS == 500
            &&& CONNECT_TIMEOUT_SECONDS == 3
        }),
{
    let text = proxy_error_text(error);
    let component = "{\"text\": \""@ + escaped(text) + "\"}"@;
    crate::layout::theorem_login_disconnect_layout(component, Seq::empty());
}

/// A status that was kept is served for as many seconds as the route says, to
/// the nanosecond, and then the status server of the route is asked again.
pub proof fn theorem_kept_as_long_as_configured(
    config: ConfigView,
    state: ConnectionState,
    cache: Map<Seq<char>, CachedView>,
    handshake: HandshakeView,
    route: nat,
    host: Seq<char>,
    port: u16,
    rewrite_address: bool,
    ttl: u64,
    payload: Seq<u8>,
    response: PacketView,
    stored_at: u128,
    now: u128,
    uuid: u128,
    session_id: u128,
)
    requires
        config.routes[route as int].status == (StatusView::FetchFrom {
            host,
            port,
            rewrite_address,
            cache_ttl: Some(ttl),
        }),
        stored_at <= now,
    ensures
        ({
            let name = host + seq![':'] + decimal(port as nat);
            let (looking, asked) = transition(
                config,
                at(state, PhaseView::StatusRequest { handshake, route }),
                EventView::Frame(seq![0x00u8] + payload),
                uuid,
                session_id,
            );
            asked matches ActionView::LookUp { key, ttl: seconds } && {
                let found = lookup(stored(cache, name, response, stored_at), key, seconds, now);
                let answer = transition(
                    config,
                    looking,
                    EventView::CacheAnswer(found),
                    uuid,
                    session_id,
                ).1;
                answer == (if now - stored_at < ttl * 1_000_000_000 {
                    ActionView::Send(response)
                } else {
                    ActionView::Connect { host, port, timeout: 3 }
                })
            }
        }),
{
    lemma_number(0x00, payload);
}

} // verus!

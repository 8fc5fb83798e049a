//! What holds of whole conversations with a client.

use vstd::prelude::*;
use vstd::utf8::decode_utf8;

use crate::cache::{lookup, stored, CachedView, NANOS_PER_SECOND};
use crate::config::{route_of, status_usable, ConfigView, DestinationView, StatusView};
use crate::error::{is_eof, proxy_error_text, PacketError, ProxyError};
use crate::json::{json_text, with_protocol};
use crate::notice::{json_component, unescaped};
use crate::packet::{decoded_as, deserialized, frame_body, raw, unframed, PacketView};
use crate::packets::{
    Handshake, HandshakeView, LoginDisconnect, LoginDisconnectView, LoginStart, LoginStartView,
    LoginSuccess, LoginSuccessView, PacketId, PingPong, PingPongView, S2CStatusResponse,
    S2CStatusResponseView, Transfer, TransferView, PACKET_ID_DISCONNECT, PACKET_ID_LOGIN_ACK,
    PACKET_ID_STATUS_REQUEST,
};
use crate::session::{
    acceptable, after_handshake, closed, disconnect, forwarded, last_notice, last_word,
    login_success, login_success_tail, no_destination_text, no_transfers_text, opened, received,
    received_as, said, transition, well_formed, ActionView, ConnectionState, EventView, PhaseView,
    SessionView,
};
use crate::varint::VarInt;
use crate::wire::{max_string_length, utf16_length, Wire};

verus! {

/// An event together with the ids that are given out if it is the moment.
pub struct Step {
    pub event: EventView,
    pub uuid: u128,
    pub session_id: u128,
}

/// The session that follows a number of events.
pub open spec fn run(config: ConfigView, session: SessionView, steps: Seq<Step>) -> SessionView
    decreases steps.len(),
{
    if steps.len() == 0 {
        session
    } else {
        let step = steps.last();
        transition(
            config,
            run(config, session, steps.drop_last()),
            step.event,
            step.uuid,
            step.session_id,
        ).0
    }
}

/// How far a connection has come in the protocol.
pub open spec fn progress(state: ConnectionState) -> int {
    match state {
        ConnectionState::Handshake => 0,
        ConnectionState::Login => 1,
        ConnectionState::Configuration => 2,
    }
}

/// However a conversation goes, its session is one that the configuration can
/// have led to.
pub proof fn theorem_conversations_are_well_formed(config: ConfigView, steps: Seq<Step>)
    ensures
        well_formed(config, run(config, opened(), steps)),
    decreases steps.len(),
{
    if steps.len() > 0 {
        theorem_conversations_are_well_formed(config, steps.drop_last());
        let step = steps.last();
        crate::session::theorem_sessions_stay_well_formed(
            config,
            run(config, opened(), steps.drop_last()),
            step.event,
            step.uuid,
            step.session_id,
        );
    }
}

/// The protocol only ever advances, from the handshake to the login and from
/// the login to the configuration.
pub proof fn theorem_protocol_advances(
    config: ConfigView,
    session: SessionView,
    event: EventView,
    uuid: u128,
    session_id: u128,
)
    requires
        well_formed(config, session),
    ensures
        progress(session.state) <= progress(
            transition(config, session, event, uuid, session_id).0.state,
        ) <= progress(session.state) + 1,
{
}

/// A session is over exactly when the action says so: the last packet was sent,
/// nothing is left to do, or the session was given up.
pub proof fn theorem_over_when_closed(
    config: ConfigView,
    session: SessionView,
    event: EventView,
    uuid: u128,
    session_id: u128,
)
    ensures
        ({
            let (next, action) = transition(config, session, event, uuid, session_id);
            next.phase is Closed <==> (action is SendLast || action is Finish || action is Fail)
        }),
{
}

/// A client that was transferred is only listened to, until it is gone.
pub proof fn theorem_transferred_clients_hear_nothing(
    config: ConfigView,
    session: SessionView,
    event: EventView,
    uuid: u128,
    session_id: u128,
)
    requires
        session.phase is Transferred,
    ensures
        ({
            let (next, action) = transition(config, session, event, uuid, session_id);
            &&& next.phase is Transferred || next.phase is Closed
            &&& action is Read || action is Skip || action is Finish || action is Fail
        }),
{
}

/// The end of the connection is no error for a client that was transferred, and
/// an error for every other.
pub proof fn theorem_end_of_connection(
    config: ConfigView,
    session: SessionView,
    source: PacketError<Seq<char>>,
    uuid: u128,
    session_id: u128,
)
    requires
        is_eof(ProxyError::Protocol { source }),
    ensures
        transition(config, session, EventView::ReadFailed(source), uuid, session_id) == (
            closed(session.state),
            if session.phase is Transferred {
                ActionView::Finish
            } else {
                ActionView::Fail(ProxyError::Protocol { source })
            },
        ),
{
}

/// A packet that can be written arrives as itself.
proof fn lemma_arrives<T: PacketId>(packet: T::V)
    requires
        T::readable(packet),
        raw::<T>(packet) is Ok,
    ensures
        received(frame_body(raw::<T>(packet)->Ok_0)) == Ok::<PacketView, ProxyError<Seq<char>>>(
            raw::<T>(packet)->Ok_0,
        ),
        received_as::<T>(frame_body(raw::<T>(packet)->Ok_0)) == Ok::<T::V, ProxyError<Seq<char>>>(
            packet,
        ),
{
    crate::packet::theorem_packet_round_trip::<T>(packet);
}

/// A handshake in a frame is answered by what it says.
pub proof fn theorem_handshake_understood(
    config: ConfigView,
    handshake: HandshakeView,
    uuid: u128,
    session_id: u128,
)
    requires
        raw::<Handshake>(handshake) is Ok,
    ensures
        transition(
            config,
            opened(),
            EventView::Frame(frame_body(raw::<Handshake>(handshake)->Ok_0)),
            uuid,
            session_id,
        ) == after_handshake(config, handshake),
{
    lemma_arrives::<Handshake>(handshake);
}

/// A client that asks for an address without a route is told so if it wants to
/// log in, and is left without an answer if not.
pub proof fn theorem_unknown_address(config: ConfigView, handshake: HandshakeView)
    requires
        route_of(config, handshake.server_address) is None,
    ensures
        handshake.intent.0 == Handshake::INTENT_LOGIN ==> after_handshake(config, handshake)
            == last_word(ConnectionState::Handshake, disconnect(no_destination_text())),
        handshake.intent.0 != Handshake::INTENT_LOGIN ==> after_handshake(config, handshake) == (
            closed(ConnectionState::Handshake),
            ActionView::Finish,
        ),
{
}

/// A client that was transferred here is refused, whatever its route.
pub proof fn theorem_transfers_refused(config: ConfigView, handshake: HandshakeView)
    requires
        route_of(config, handshake.server_address) is Some,
        handshake.intent.0 == Handshake::INTENT_TRANSFER,
    ensures
        after_handshake(config, handshake) == last_word(
            ConnectionState::Handshake,
            disconnect(no_transfers_text()),
        ),
{
}

/// A ping comes back as it was, and ends the conversation.
pub proof fn theorem_ping_comes_back(
    config: ConfigView,
    timestamp: i64,
    uuid: u128,
    session_id: u128,
)
    ensures
        raw::<PingPong>(PingPongView { timestamp }) matches Ok(ping) && transition(
            config,
            SessionView { state: ConnectionState::Handshake, phase: PhaseView::Ping },
            EventView::Frame(frame_body(ping)),
            uuid,
            session_id,
        ) == (closed(ConnectionState::Handshake), ActionView::SendLast(ping)),
{
    lemma_arrives::<PingPong>(PingPongView { timestamp });
}

/// A client that asks for the status of a route with a fixed document gets that
/// document, in which its own protocol version is announced if the route says
/// so, and everything else is as configured.
pub proof fn theorem_fixed_status(
    config: ConfigView,
    handshake: HandshakeView,
    payload: Seq<u8>,
    route: nat,
    uuid: u128,
    session_id: u128,
)
    requires
        raw::<Handshake>(handshake) is Ok,
        handshake.intent.0 == Handshake::INTENT_STATUS,
        route_of(config, handshake.server_address) == Some(route),
        config.routes[route as int].status is Static,
    ensures
        ({
            let hello = EventView::Frame(frame_body(raw::<Handshake>(handshake)->Ok_0));
            let request = PacketView { packet_id: PACKET_ID_STATUS_REQUEST, payload };
            let (waiting, first) = transition(config, opened(), hello, uuid, session_id);
            &&& first == ActionView::Read
            &&& config.routes[route as int].status matches StatusView::Static {
                json,
                fake_protocol_version,
            } && transition(
                config,
                waiting,
                EventView::Frame(frame_body(request)),
                uuid,
                session_id,
            ) == said(
                ConnectionState::Handshake,
                PhaseView::Ping,
                raw::<S2CStatusResponse>(
                    S2CStatusResponseView {
                        response: json_text(
                            if fake_protocol_version {
                                with_protocol(json, handshake.protocol_version.0 as int)
                            } else {
                                json
                            },
                        ),
                    },
                ),
            )
        }),
{
    theorem_handshake_understood(config, handshake, uuid, session_id);
    let request = PacketView { packet_id: PACKET_ID_STATUS_REQUEST, payload };
    crate::packet::theorem_frame_round_trip(request);
}

/// A status is kept under the name under which it was looked up, and what the
/// client gets and the cache keeps is the very packet that the status server
/// sent, and a status response.
pub proof fn theorem_relayed_status(
    config: ConfigView,
    handshake: HandshakeView,
    route: nat,
    request: PacketView,
    body: Seq<u8>,
    uuid: u128,
    session_id: u128,
)
    requires
        route < config.routes.len(),
        config.routes[route as int].status is FetchFrom,
        request.packet_id == PACKET_ID_STATUS_REQUEST,
    ensures
        ({
            let asked = SessionView {
                state: ConnectionState::Handshake,
                phase: PhaseView::StatusRequest { handshake, route },
            };
            let fetching = SessionView {
                state: ConnectionState::Handshake,
                phase: PhaseView::Upstream { route },
            };
            let (looking, lookup) = transition(
                config,
                asked,
                EventView::Frame(frame_body(request)),
                uuid,
                session_id,
            );
            let (next, relay) = transition(
                config,
                fetching,
                EventView::UpstreamFrame(body),
                uuid,
                session_id,
            );
            &&& lookup matches ActionView::LookUp { key, .. } && (relay matches ActionView::Relay {
                key: kept,
                response,
                ..
            } ==> {
                &&& kept == key
                &&& unframed(body) == Ok::<_, PacketError<Seq<char>>>(response)
                &&& decoded_as::<S2CStatusResponse>(response) is Ok
            })
            &&& relay is Relay || relay is Fail
        }),
{
    crate::packet::theorem_frame_round_trip(request);
}

/// The status server gets the client's own request, behind a handshake that
/// keeps the client's protocol and intent and names, where the route says so,
/// the status server's own address.
pub proof fn theorem_status_server_is_asked(
    config: ConfigView,
    handshake: HandshakeView,
    route: nat,
    request: PacketView,
    uuid: u128,
    session_id: u128,
)
    ensures
        ({
            let connecting = SessionView {
                state: ConnectionState::Handshake,
                phase: PhaseView::Connecting { handshake, route, request },
            };
            let status = config.routes[route as int].status;
            let sent = forwarded(status, handshake);
            &&& transition(
                config,
                connecting,
                EventView::Connected,
                uuid,
                session_id,
            ).1 matches ActionView::Exchange { handshake: hello, request: asked } ==> {
                &&& asked == request
                &&& decoded_as::<Handshake>(hello) == Ok::<_, ProxyError<Seq<char>>>(sent)
            }
            &&& sent.protocol_version == handshake.protocol_version
            &&& sent.intent == handshake.intent
            &&& status matches StatusView::FetchFrom { host, port, rewrite_address, .. } ==> (
            if rewrite_address {
                sent.server_address == host && sent.server_port == port
            } else {
                sent == handshake
            })
        }),
{
    let sent = forwarded(config.routes[route as int].status, handshake);
    crate::packet::theorem_packet_round_trip::<Handshake>(sent);
}

/// A status that was relayed and kept is what every client of a route to the
/// same server gets until its time is over; the server is not asked again.
pub proof fn theorem_kept_status_is_served(
    config: ConfigView,
    cache: Map<Seq<char>, CachedView>,
    handshake: HandshakeView,
    route: nat,
    request: PacketView,
    response: PacketView,
    stored_at: u128,
    now: u128,
    uuid: u128,
    session_id: u128,
)
    requires
        config.routes[route as int].status is FetchFrom,
        request.packet_id == PACKET_ID_STATUS_REQUEST,
        stored_at <= now,
    ensures
        ({
            let asked = SessionView {
                state: ConnectionState::Handshake,
                phase: PhaseView::StatusRequest { handshake, route },
            };
            let (looking, action) = transition(
                config,
                asked,
                EventView::Frame(frame_body(request)),
                uuid,
                session_id,
            );
            action matches ActionView::LookUp { key, ttl } && {
                let found = lookup(stored(cache, key, response, stored_at), key, ttl, now);
                let (next, answer) = transition(
                    config,
                    looking,
                    EventView::CacheAnswer(found),
                    uuid,
                    session_id,
                );
                if now - stored_at < ttl * NANOS_PER_SECOND {
                    answer == ActionView::Send(response)
                } else {
                    answer is Connect
                }
            }
        }),
{
    crate::packet::theorem_frame_round_trip(request);
}

/// A status that is still in the cache goes to the client unchanged.
pub proof fn theorem_cached_status(
    config: ConfigView,
    handshake: HandshakeView,
    route: nat,
    request: PacketView,
    response: PacketView,
    uuid: u128,
    session_id: u128,
)
    ensures
        transition(
            config,
            SessionView {
                state: ConnectionState::Handshake,
                phase: PhaseView::CacheLookup { handshake, route, request },
            },
            EventView::CacheAnswer(Some(response)),
            uuid,
            session_id,
        ) == (
            SessionView { state: ConnectionState::Handshake, phase: PhaseView::Ping },
            ActionView::Send(response),
        ),
{
}

/// The form of an accepted login goes by the protocol of the client: a flag
/// ends it in versions 766 and 767, the id of the session from version 776 on,
/// and nothing otherwise. In every form the fields in front read as the player
/// that was accepted.
pub proof fn theorem_login_success_forms(
    username: Seq<char>,
    protocol_version: i32,
    uuid: u128,
    session_id: u128,
)
    ensures
        login_success(username, protocol_version, uuid, session_id) matches Ok(packet) ==> {
            &&& packet.packet_id == LoginSuccess::PACKET_ID
            &&& deserialized::<LoginSuccess>(packet.payload) == Ok::<_, ProxyError<Seq<char>>>(
                LoginSuccessView { uuid, username, properties: Seq::empty() },
            )
        },
        login_success_tail(protocol_version, session_id).len() == (if 766 <= protocol_version
            <= 767 {
            1int
        } else if protocol_version >= 776 {
            16
        } else {
            0
        }),
{
    let fields = LoginSuccessView { uuid, username, properties: Seq::empty() };
    crate::bytes::lemma_be_bytes_length(session_id as nat, 16);
    LoginSuccess::lemma_round_trip(fields, login_success_tail(protocol_version, session_id));
}

/// A player who logs in on a route with a destination, under a name that can be
/// written, is accepted and, once the login is acknowledged, transferred to
/// that destination and nowhere else.
pub proof fn theorem_login_ends_in_transfer(
    config: ConfigView,
    handshake: HandshakeView,
    login: LoginStartView,
    payload: Seq<u8>,
    route: nat,
    uuid: u128,
    session_id: u128,
)
    requires
        raw::<Handshake>(handshake) is Ok,
        handshake.intent.0 == Handshake::INTENT_LOGIN,
        route_of(config, handshake.server_address) == Some(route),
        config.routes[route as int].destination is Transfer,
        raw::<LoginStart>(login) is Ok,
    ensures
        ({
            let hello = EventView::Frame(frame_body(raw::<Handshake>(handshake)->Ok_0));
            let name = EventView::Frame(frame_body(raw::<LoginStart>(login)->Ok_0));
            let ack = EventView::Frame(
                frame_body(PacketView { packet_id: PACKET_ID_LOGIN_ACK, payload }),
            );
            let (greeted, first) = transition(config, opened(), hello, uuid, session_id);
            let (accepted, second) = transition(config, greeted, name, uuid, session_id);
            &&& first == ActionView::Read
            &&& login_success(
                login.username,
                handshake.protocol_version.0,
                uuid,
                session_id,
            ) matches Ok(success) && second == ActionView::Send(success)
            &&& config.routes[route as int].destination matches DestinationView::Transfer {
                host,
                port,
                ..
            } && transition(config, accepted, ack, uuid, session_id) == said(
                ConnectionState::Configuration,
                PhaseView::Transferred,
                raw::<Transfer>(TransferView { host, port: VarInt(port as i32) }),
            )
        }),
{
    theorem_handshake_understood(config, handshake, uuid, session_id);
    lemma_arrives::<LoginStart>(login);
    crate::packet::theorem_frame_round_trip(
        PacketView { packet_id: PACKET_ID_LOGIN_ACK, payload },
    );
    let properties = Seq::<crate::packets::PropertyView>::empty();
    assert(String::encoding(login.username) is Ok);
    assert(crate::wire::list_encoding::<crate::packets::Property>(properties) is Ok);
    assert(Vec::<crate::packets::Property>::encoding(properties) is Ok);
    assert(u128::encoding(uuid) is Ok);
    assert(LoginSuccess::encoding(
        LoginSuccessView { uuid, username: login.username, properties },
    ) is Ok);
}

/// A player who logs in on a route that kicks reads the message of that route.
pub proof fn theorem_login_ends_in_kick(
    config: ConfigView,
    protocol_version: i32,
    route: nat,
    login: LoginStartView,
    uuid: u128,
    session_id: u128,
)
    requires
        raw::<LoginStart>(login) is Ok,
        config.routes[route as int].destination is Kick,
    ensures
        config.routes[route as int].destination matches DestinationView::Kick { message }
            && transition(
            config,
            SessionView {
                state: ConnectionState::Login,
                phase: PhaseView::LoginStart { protocol_version, route },
            },
            EventView::Frame(frame_body(raw::<LoginStart>(login)->Ok_0)),
            uuid,
            session_id,
        ) == last_word(ConnectionState::Login, disconnect(json_text(message))),
{
    lemma_arrives::<LoginStart>(login);
}

/// A client whose session is given up before it began to log in is told
/// nothing. One that logs in is told, unless the words are too many, and reads
/// the very words of the error. One that acknowledged its login is told in any
/// case, and the notice holds the very words.
pub proof fn theorem_errors_are_told(error: ProxyError<Seq<char>>)
    ensures
        ({
            let text = proxy_error_text(error);
            let reason = json_component(text);
            let untold = last_notice(ConnectionState::Handshake, error);
            let login = last_notice(ConnectionState::Login, error);
            let configuration = last_notice(ConnectionState::Configuration, error);
            &&& untold matches Ok(None)
            &&& login is Ok <==> utf16_length(reason) <= max_string_length()
            &&& login matches Ok(notice) ==> (notice matches Some(packet) && decoded_as::<
                LoginDisconnect,
            >(packet) == Ok::<_, ProxyError<Seq<char>>>(LoginDisconnectView { reason }))
            &&& unescaped(reason.subrange(10, reason.len() - 2)) == Some(text)
            &&& configuration matches Ok(Some(packet)) && packet.packet_id == PACKET_ID_DISCONNECT
                && decode_utf8(packet.payload.skip(3)) == text
        }),
{
    let text = proxy_error_text(error);
    let reason = LoginDisconnectView { reason: json_component(text) };
    crate::packet::theorem_packet_round_trip::<LoginDisconnect>(reason);
    crate::notice::theorem_json_component_reads_back(text);
    crate::notice::theorem_nbt_string_reads_back(text);
}

/// Whether an event is one that can come of an action.
pub open spec fn answers(action: ActionView, event: EventView) -> bool {
    match action {
        ActionView::Read | ActionView::Skip(_) => event is Frame || event is ReadFailed,
        ActionView::Send(_) | ActionView::Relay { .. } => {
            event is Frame || event is ReadFailed || event is WriteFailed
        },
        ActionView::SendLast(_) => event is WriteFailed,
        ActionView::LookUp { .. } => event is CacheAnswer,
        ActionView::Connect { .. } => event is Connected || event is UpstreamFailed,
        ActionView::Exchange { .. } => event is UpstreamFrame || event is UpstreamFailed,
        ActionView::Finish | ActionView::Fail(_) => false,
    }
}

/// Where every status can be shown, no session gets stuck: whatever comes of an
/// action, the session that asked for it can take it.
pub proof fn theorem_sessions_go_on(
    config: ConfigView,
    session: SessionView,
    event: EventView,
    uuid: u128,
    session_id: u128,
    answer: EventView,
)
    requires
        forall|i: int|
            0 <= i < config.routes.len() ==> status_usable(#[trigger] config.routes[i].status),
        well_formed(config, session),
        answers(transition(config, session, event, uuid, session_id).1, answer),
    ensures
        acceptable(config, transition(config, session, event, uuid, session_id).0, answer),
{
    crate::session::theorem_sessions_stay_well_formed(config, session, event, uuid, session_id);
}

} // verus!

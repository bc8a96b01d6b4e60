//! The per-connection supervisor.
//!
//! Each live connection gets one [`WebsocketActor`]: it owns the heartbeat
//! state, the session identity, and the address of the backend handler the
//! connection is bound to. Setup ([`connect`]) validates the session
//! identity, resolves the route through the registry and binds the
//! supervisor; afterwards every inbound frame and every heartbeat tick is a
//! pure decision of this module, so a transport loop only has to carry the
//! chosen action out.
use crate::messages::BoxAddr;
use crate::routing::{DynamicRouteService, RoutingDefinitionTable, RoutingEntry, resolve_rel};
use crate::user::{UserUuid, found_at, uuid_at};
use vstd::prelude::*;

verus! {

/// How often heartbeat probes are sent, in milliseconds.
pub const HEARTBEAT_INTERVAL_MS: u64 = 5000;

/// How long a connection may stay silent before it is closed, in
/// milliseconds: at least twice the probe interval, so a probe can make its
/// round trip before the deadline.
pub const CLIENT_TIMEOUT_MS: u64 = 10000;

/// One inbound transport frame, as the supervisor classifies it.
#[derive(Debug)]
pub enum WsFrame {
    /// A liveness probe from the peer, with its payload.
    Ping(Vec<u8>),
    /// The peer's answer to one of our probes.
    Pong(Vec<u8>),
    /// An application text frame.
    Text(String),
    /// A binary frame, which this protocol does not expect.
    Binary(Vec<u8>),
    /// Anything else the transport may surface: dropped, never fatal.
    Other,
}

/// What the supervisor asks the transport to do with an inbound frame.
#[derive(Debug)]
pub enum WsAction {
    /// Answer a ping with a pong carrying the same payload.
    ReplyPong(Vec<u8>),
    /// Send a text frame back on this connection.
    Echo(String),
    /// Do nothing.
    Ignore,
}

/// What a heartbeat tick decides.
#[derive(Clone, Copy, PartialEq, Eq, Structural, Debug)]
pub enum HeartbeatAction {
    /// The peer is still live: send it a probe.
    Probe,
    /// The liveness deadline has passed: close this connection.
    Disconnect,
}

/// Why connection setup was rejected. Each failure is terminal for the one
/// connection attempt and touches nothing else.
#[derive(Clone, Copy, PartialEq, Eq, Structural, Debug)]
pub enum ConnectError {
    /// No valid session identifier in the connection request.
    AuthenticationMissing,
    /// No matcher of the route definition table accepts the requested path.
    RouteNotFound,
    /// The route registry service could not be reached.
    RegistryUnavailable,
}

/// The supervisor of one live connection: the instant of the last observed
/// liveness signal, the session identity, and the address of the backend
/// handler this connection is bound to. Instants are milliseconds of a
/// monotone clock.
#[derive(Debug)]
pub struct WebsocketActor {
    /// When the peer last showed life.
    pub hb: u64,
    /// Who is connected.
    pub uuid: UserUuid,
    /// The handler this connection forwards to.
    pub backing_actor: BoxAddr,
}

impl WebsocketActor {
    /// Bind a fresh supervisor: the connection counts as live right now.
    pub fn new(uuid: UserUuid, backing_actor: BoxAddr, now: u64) -> (s: Self)
        ensures
            s.hb == now,
            s.uuid == uuid,
            s.backing_actor == backing_actor,
    {
        WebsocketActor { hb: now, uuid, backing_actor }
    }

    /// One heartbeat tick: close the connection when the peer has been
    /// silent past the timeout, probe it otherwise. Closing is this
    /// supervisor's own decision and touches no other connection.
    pub fn heartbeat_check(&self, now: u64) -> (a: HeartbeatAction)
        requires
            self.hb <= now,
        ensures
            a == (if now - self.hb > CLIENT_TIMEOUT_MS {
                HeartbeatAction::Disconnect
            } else {
                HeartbeatAction::Probe
            }),
    {
        if now - self.hb > CLIENT_TIMEOUT_MS {
            HeartbeatAction::Disconnect
        } else {
            HeartbeatAction::Probe
        }
    }

    /// Delegate one raw websocket frame: a ping is answered with a pong
    /// carrying the same payload, a pong resets the heartbeat instant, a
    /// text frame is echoed, and everything else is dropped without ever
    /// terminating the connection.
    pub fn handle(&mut self, msg: WsFrame, now: u64) -> (a: WsAction)
        ensures
            match msg {
                WsFrame::Ping(p) => a == WsAction::ReplyPong(p) && *final(self) == *old(self),
                WsFrame::Pong(_) => {
                    &&& a == WsAction::Ignore
                    &&& final(self).hb == now
                    &&& final(self).uuid == old(self).uuid
                    &&& final(self).backing_actor == old(self).backing_actor
                },
                WsFrame::Text(t) => a == WsAction::Echo(t) && *final(self) == *old(self),
                WsFrame::Binary(_) => a == WsAction::Ignore && *final(self) == *old(self),
                WsFrame::Other => a == WsAction::Ignore && *final(self) == *old(self),
            },
    {
        match msg {
            WsFrame::Ping(p) => WsAction::ReplyPong(p),
            WsFrame::Pong(_) => {
                self.hb = now;
                WsAction::Ignore
            },
            WsFrame::Text(t) => WsAction::Echo(t),
            WsFrame::Binary(_) => WsAction::Ignore,
            WsFrame::Other => WsAction::Ignore,
        }
    }
}

/// Classify the registry's reply when it is relayed over a mailbox that may
/// itself fail: no reply at all is an internal error, a reply without an
/// address means the route is unknown, and a reply with an address succeeds.
pub fn registry_outcome(reply: Option<Option<BoxAddr>>) -> (r: Result<BoxAddr, ConnectError>)
    ensures
        r == (match reply {
            Option::None => Err::<BoxAddr, ConnectError>(ConnectError::RegistryUnavailable),
            Option::Some(Option::None) => Err::<BoxAddr, ConnectError>(ConnectError::RouteNotFound),
            Option::Some(Option::Some(a)) => Ok::<BoxAddr, ConnectError>(a),
        }),
{
    match reply {
        None => Err(ConnectError::RegistryUnavailable),
        Some(None) => Err(ConnectError::RouteNotFound),
        Some(Some(a)) => Ok(a),
    }
}

/// Sets up one connection: a valid session identifier must be present in the
/// query string, the requested path must resolve through the registry, and
/// only then a supervisor is created, bound to the resolved handler address.
/// A connection rejected for a missing identifier never reaches the
/// registry.
pub fn connect<E: RoutingEntry>(
    query_string: &str,
    path: &str,
    router: &mut DynamicRouteService<E>,
    table: &RoutingDefinitionTable<E>,
    now: u64,
) -> (r: Result<WebsocketActor, ConnectError>)
    requires
        old(router).wf(),
    ensures
        final(router).wf(),
        ({
            let q = query_string@;
            match r {
                Result::Ok(s) => {
                    &&& exists|i: int|
                        #[trigger] found_at(q, i) && (forall|j: int|
                            0 <= j < i ==> !found_at(q, j)) && s.uuid@ == uuid_at(q, i)
                    &&& s.hb == now
                    &&& resolve_rel(*old(router), path@, *table, *final(router), Some(
                        s.backing_actor,
                    ))
                },
                Result::Err(e) => {
                    if e == ConnectError::AuthenticationMissing {
                        &&& forall|i: int| !(#[trigger] found_at(q, i))
                        &&& *final(router) == *old(router)
                    } else {
                        &&& e == ConnectError::RouteNotFound
                        &&& exists|i: int| #[trigger] found_at(q, i)
                        &&& resolve_rel(*old(router), path@, *table, *final(router), None::<
                            BoxAddr,
                        >)
                    }
                },
            }
        }),
{
    match UserUuid::from_query_string(query_string) {
        None => Err(ConnectError::AuthenticationMissing),
        Some(uuid) => match router.handle(path, table) {
            None => Err(ConnectError::RouteNotFound),
            Some(addr) => Ok(WebsocketActor::new(uuid, addr, now)),
        },
    }
}

} // verus!

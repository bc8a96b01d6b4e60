use wsmux::messages::BoxAddr;
use wsmux::routing::{DynamicRouteService, RoutingDefinitionTable, RoutingEntry, SharedLiveState};
use wsmux::user::UserUuid;
use wsmux::websocket_actor::{
    CLIENT_TIMEOUT_MS, ConnectError, HEARTBEAT_INTERVAL_MS, HeartbeatAction, WebsocketActor,
    WsAction, WsFrame, connect, registry_outcome,
};

struct RootState;

impl SharedLiveState for RootState {}

/// A single matcher accepting only `/`.
struct RootEntry;

impl RoutingEntry for RootEntry {
    type State = RootState;

    fn handle(&self, path: &str) -> Option<RootState> {
        if path == "/" { Some(RootState) } else { None }
    }
}

fn root_table() -> RoutingDefinitionTable<RootEntry> {
    RoutingDefinitionTable::new().with_entry(RootEntry)
}

const QUERY_A: &str = "uuid=550E8400-E29B-41D4-A716-446655440000";
const QUERY_B: &str = "uuid=660e8400-e29b-41d4-a716-446655440000";

#[test]
fn two_connections_share_one_handler() {
    let table = root_table();
    let mut reg = DynamicRouteService::new();
    let first = connect(QUERY_A, "/", &mut reg, &table, 0).unwrap();
    let second = connect(QUERY_B, "/", &mut reg, &table, 50).unwrap();
    assert_eq!(first.uuid.as_str(), "550E8400-E29B-41D4-A716-446655440000");
    assert_eq!(second.uuid.as_str(), "660E8400-E29B-41D4-A716-446655440000");
    assert_eq!(first.backing_actor, second.backing_actor);
    assert_eq!(reg.actor_count(), 1);
}

#[test]
fn missing_identifier_is_rejected_before_resolution() {
    let table = root_table();
    let mut reg = DynamicRouteService::new();
    let r = connect("name=alice", "/", &mut reg, &table, 0);
    assert_eq!(r.unwrap_err(), ConnectError::AuthenticationMissing);
    assert_eq!(reg.route_count(), 0);
    assert_eq!(reg.actor_count(), 0);
}

#[test]
fn unknown_route_is_rejected() {
    let table = root_table();
    let mut reg = DynamicRouteService::new();
    let r = connect(QUERY_A, "/missing", &mut reg, &table, 0);
    assert_eq!(r.unwrap_err(), ConnectError::RouteNotFound);
    assert_eq!(reg.route_count(), 0);
}

#[test]
fn registry_outcome_classification() {
    assert_eq!(
        registry_outcome(None).unwrap_err(),
        ConnectError::RegistryUnavailable
    );
    assert_eq!(
        registry_outcome(Some(None)).unwrap_err(),
        ConnectError::RouteNotFound
    );
    assert_eq!(registry_outcome(Some(Some(BoxAddr(3)))).unwrap(), BoxAddr(3));
}

#[test]
fn silent_connection_is_disconnected_after_the_timeout() {
    let table = root_table();
    let mut reg = DynamicRouteService::new();
    let quiet = connect(QUERY_A, "/", &mut reg, &table, 1000).unwrap();
    let lively = connect(QUERY_B, "/", &mut reg, &table, 1000).unwrap();
    let later = 1000 + CLIENT_TIMEOUT_MS + 1;
    assert_eq!(quiet.heartbeat_check(later), HeartbeatAction::Disconnect);
    // The sibling connection bound to the same handler is untouched: its own
    // supervisor still probes because it heard a pong in the meantime.
    let mut lively = lively;
    let a = lively.handle(WsFrame::Pong(Vec::new()), later - 1);
    assert!(matches!(a, WsAction::Ignore));
    assert_eq!(lively.heartbeat_check(later), HeartbeatAction::Probe);
}

#[test]
fn heartbeat_probes_until_the_deadline_passes() {
    let uuid = UserUuid::from_query_string(QUERY_A).unwrap();
    let sup = WebsocketActor::new(uuid, BoxAddr(0), 0);
    assert_eq!(sup.heartbeat_check(0), HeartbeatAction::Probe);
    assert_eq!(sup.heartbeat_check(CLIENT_TIMEOUT_MS), HeartbeatAction::Probe);
    assert_eq!(
        sup.heartbeat_check(CLIENT_TIMEOUT_MS + 1),
        HeartbeatAction::Disconnect
    );
}

#[test]
fn timeout_leaves_room_for_a_probe_round_trip() {
    assert!(CLIENT_TIMEOUT_MS >= 2 * HEARTBEAT_INTERVAL_MS);
}

#[test]
fn ping_is_answered_with_matching_pong() {
    let uuid = UserUuid::from_query_string(QUERY_A).unwrap();
    let mut sup = WebsocketActor::new(uuid, BoxAddr(0), 0);
    let a = sup.handle(WsFrame::Ping(vec![1, 2, 3]), 7);
    match a {
        WsAction::ReplyPong(p) => assert_eq!(p, vec![1, 2, 3]),
        other => panic!("expected a pong reply, got {:?}", other),
    }
    assert_eq!(sup.hb, 0);
}

#[test]
fn pong_resets_the_heartbeat_instant() {
    let uuid = UserUuid::from_query_string(QUERY_A).unwrap();
    let mut sup = WebsocketActor::new(uuid, BoxAddr(0), 0);
    let a = sup.handle(WsFrame::Pong(Vec::new()), 4242);
    assert!(matches!(a, WsAction::Ignore));
    assert_eq!(sup.hb, 4242);
}

#[test]
fn text_is_echoed() {
    let uuid = UserUuid::from_query_string(QUERY_A).unwrap();
    let mut sup = WebsocketActor::new(uuid, BoxAddr(0), 0);
    let a = sup.handle(WsFrame::Text("hello".to_owned()), 7);
    match a {
        WsAction::Echo(t) => assert_eq!(t, "hello"),
        other => panic!("expected an echo, got {:?}", other),
    }
}

#[test]
fn unexpected_frames_are_dropped_not_fatal() {
    let uuid = UserUuid::from_query_string(QUERY_A).unwrap();
    let mut sup = WebsocketActor::new(uuid, BoxAddr(0), 0);
    assert!(matches!(sup.handle(WsFrame::Binary(vec![9]), 7), WsAction::Ignore));
    assert!(matches!(sup.handle(WsFrame::Other, 8), WsAction::Ignore));
    assert_eq!(sup.hb, 0);
}

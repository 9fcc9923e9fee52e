use ambient_runtime::channel::ServerPush;
use ambient_runtime::dispatch::{DispatchError, Transport};
use ambient_runtime::handlers::{Handler, HandlerTable};
use ambient_runtime::registry::Registry;
use ambient_runtime::server::{
    Action, ClientRequest, ConnectedClient, ConnectionData, Instance, Player,
    ServerProtoState, ServerState, MAIN_INSTANCE_ID,
};
use bytes::{Bytes, TryGetError};

type State = ServerState<&'static str, &'static str, &'static str>;

fn table(id: u32, name: &str, handler: &'static str) -> HandlerTable<&'static str> {
    let mut table = HandlerTable::new();
    table.register(id, Handler { name: name.to_string(), handler });
    table
}

fn server() -> State {
    let mut state = ServerState::new();
    state.instances.insert(
        MAIN_INSTANCE_ID.to_string(),
        Instance {
            datagram_handlers: table(0x01020304, "move", "datagram handler"),
            uni_stream_handlers: table(7, "upload", "uni handler"),
            bi_stream_handlers: table(9, "call", "bi handler"),
        },
    );
    state
}

fn connection(connection_id: u128) -> ConnectionData {
    ConnectionData { connection_id }
}

fn connect(
    state: &mut State,
    connection_id: u128,
    user: &str,
) -> (ServerProtoState, Vec<Action>) {
    let mut proto = ServerProtoState::default();
    let actions = proto.process_control(
        &connection(connection_id),
        state,
        ClientRequest::Connect(user.to_string()),
    );
    (proto, actions)
}

fn client(proto: &mut ServerProtoState) -> &mut ConnectedClient {
    match proto {
        ServerProtoState::Connected(client) => client,
        _ => panic!("not connected"),
    }
}

/// What an action does, in one line.
fn shown(action: &Action) -> String {
    match action {
        Action::BroadcastDiffs => "broadcast".to_string(),
        Action::SendInitialDiff => "initial".to_string(),
        Action::AbortPlayer(player) => format!("abort {}", player.instance),
        Action::UpdatePlayer(data) => {
            format!("update {} {}", data.user_id, data.connection_id)
        }
        Action::SpawnPlayer(data) => format!("spawn {} {}", data.user_id, data.connection_id),
        Action::DespawnPlayer { instance, user_id } => format!("despawn {instance} {user_id}"),
    }
}

fn all_shown(actions: &[Action]) -> Vec<String> {
    actions.iter().map(shown).collect()
}

#[test]
fn connections_start_pending() {
    let proto = ServerProtoState::default();
    assert!(proto.is_pending_connection());
    assert!(!proto.is_connected());
    assert!(!proto.is_disconnected());
}

#[test]
fn connecting_spawns_a_player() {
    let mut state = server();
    let (mut proto, actions) = connect(&mut state, 1, "ann");
    assert!(proto.is_connected());
    assert!(!proto.is_pending_connection());
    assert_eq!(client(&mut proto).user_id(), "ann");
    assert_eq!(all_shown(&actions), ["broadcast", "initial", "spawn ann 1"]);
    assert_eq!(state.players.get("ann").unwrap().instance, MAIN_INSTANCE_ID);
    assert_eq!(state.players.get("ann").unwrap().connection_id(), 1);
    assert!(state.players.get("bob").is_none());
}

#[test]
fn disconnecting_undoes_connecting() {
    let mut state = server();
    let (mut proto, _) = connect(&mut state, 1, "ann");
    connect(&mut state, 2, "bob");
    let actions =
        proto.process_control(&connection(1), &mut state, ClientRequest::Disconnect);
    assert_eq!(all_shown(&actions), ["despawn main ann"]);
    assert!(proto.is_disconnected());
    assert!(state.players.get("ann").is_none());
    assert!(state.players.get("bob").is_some());
}

#[test]
fn players_are_despawned_where_they_are() {
    let mut state = server();
    let (mut proto, _) = connect(&mut state, 1, "ann");
    state.instances.insert(
        "arena".to_string(),
        Instance {
            datagram_handlers: HandlerTable::new(),
            uni_stream_handlers: HandlerTable::new(),
            bi_stream_handlers: HandlerTable::new(),
        },
    );
    let mut player = state.players.remove("ann").unwrap();
    player.instance = "arena".to_string();
    state.players.insert("ann".to_string(), player);
    assert_eq!(
        client(&mut proto).process_uni(&state, 7).err(),
        Some(DispatchError::NoHandler(Transport::Unistream, 7))
    );
    let actions = proto.process_disconnect(&connection(1), &mut state);
    assert_eq!(all_shown(&actions), ["despawn arena ann"]);
}

#[test]
fn ended_connections_stay_ended() {
    let mut state = server();
    let mut proto = ServerProtoState::Disconnected;
    let data = connection(1);
    for frame in [ClientRequest::Connect("ann".to_string()), ClientRequest::Disconnect] {
        let actions = proto.process_control(&data, &mut state, frame);
        assert!(actions.is_empty());
        assert!(proto.is_disconnected());
        assert!(state.players.get("ann").is_none());
    }
}

#[test]
fn pending_connections_end_quietly() {
    let mut state = server();
    let mut proto = ServerProtoState::default();
    let actions =
        proto.process_control(&connection(1), &mut state, ClientRequest::Disconnect);
    assert!(actions.is_empty());
    assert!(proto.is_disconnected());
}

#[test]
fn connecting_twice_is_ignored() {
    let mut state = server();
    let (mut proto, _) = connect(&mut state, 1, "ann");
    let frame = ClientRequest::Connect("bob".to_string());
    let actions = proto.process_control(&connection(1), &mut state, frame);
    assert!(actions.is_empty());
    assert_eq!(client(&mut proto).user_id(), "ann");
    assert!(state.players.get("bob").is_none());
}

#[test]
fn reconnecting_takes_over() {
    let mut state = server();
    let (mut first, _) = connect(&mut state, 1, "ann");
    let (mut second, mut actions) = connect(&mut state, 2, "ann");
    assert_eq!(
        all_shown(&actions),
        ["broadcast", "initial", "abort main", "update ann 2"]
    );
    // The first connection is told to shut down, the second is not.
    assert!(client(&mut first).control_rx.try_recv().is_err());
    if let Action::AbortPlayer(player) = &mut actions[2] {
        player.abort();
    }
    assert_eq!(client(&mut first).control_rx.try_recv(), Ok(ServerPush::Disconnect));
    assert!(client(&mut first).control_rx.try_recv().is_err());
    assert!(client(&mut second).control_rx.try_recv().is_err());

    // The first connection has lost the player.
    let ignored = first.process_disconnect(&connection(1), &mut state);
    assert!(ignored.is_empty());
    assert!(first.is_connected());
    assert!(state.players.get("ann").is_some());

    let ended = second.process_disconnect(&connection(2), &mut state);
    assert_eq!(all_shown(&ended), ["despawn main ann"]);
    assert!(state.players.get("ann").is_none());

    // Nor is there a player to lose any more.
    assert!(first.process_disconnect(&connection(1), &mut state).is_empty());
    assert!(first.is_connected());
}

#[test]
fn aborting_reaches_every_copy_of_a_client() {
    let mut state = server();
    let (mut proto, _) = connect(&mut state, 1, "ann");
    let copy = client(&mut proto).clone();
    assert_eq!(copy.user_id(), "ann");
    let mut player = state.players.remove("ann").unwrap();
    player.abort();
    assert_eq!(copy.control_rx.try_recv(), Ok(ServerPush::Disconnect));
    assert!(client(&mut proto).control_rx.try_recv().is_err());
    drop(copy);
    drop(proto);
    // Nobody is left to be told.
    player.abort();
}

#[test]
fn registered_players_are_aborted_in_their_place() {
    let mut state = server();
    let (mut first, _) = connect(&mut state, 1, "ann");
    let (mut second, _) = connect(&mut state, 2, "bob");
    state.players.get_mut("ann").unwrap().abort();
    assert!(state.players.get_mut("cy").is_none());
    assert_eq!(client(&mut first).control_rx.try_recv(), Ok(ServerPush::Disconnect));
    assert!(client(&mut second).control_rx.try_recv().is_err());
    assert_eq!(state.players.get("ann").unwrap().connection_id(), 1);
}

#[test]
fn local_players_have_random_owners() {
    let mut state = server();
    let mut player = Player::new_local("arena".to_string());
    assert_eq!(player.instance, "arena");
    let id = uuid::Uuid::from_u128(player.connection_id());
    assert_eq!(id.get_version(), Some(uuid::Version::Random));
    assert_eq!(id.get_variant(), uuid::Variant::RFC4122);
    player.abort();
    state.players.insert("ann".to_string(), player);
    state.players.insert("bob".to_string(), Player::new_local(MAIN_INSTANCE_ID.to_string()));
    // No connection owns a local player.
    let (mut proto, _) = connect(&mut state, 1, "cy");
    state.players.insert("cy".to_string(), Player::new_local(MAIN_INSTANCE_ID.to_string()));
    assert!(proto.process_disconnect(&connection(1), &mut state).is_empty());
    assert!(proto.is_connected());
}

#[test]
fn datagrams_go_to_the_handler_they_name() {
    let mut state = server();
    let (mut proto, _) = connect(&mut state, 1, "ann");
    let client = client(&mut proto);
    let found = client
        .process_datagram(&state, Bytes::from_static(&[1, 2, 3, 4, 5, 6]))
        .ok()
        .unwrap();
    assert_eq!(found.handler.name, "move");
    assert_eq!(found.handler.handler, "datagram handler");
    assert_eq!(&found.payload[..], &[5, 6]);

    let empty = client.process_datagram(&state, Bytes::from_static(&[1, 2, 3, 4])).ok().unwrap();
    assert!(empty.payload.is_empty());

    let unknown = client.process_datagram(&state, Bytes::from_static(&[4, 3, 2, 1])).err();
    assert_eq!(unknown, Some(DispatchError::NoHandler(Transport::Datagram, 0x04030201)));
    for short in [&[][..], &[1, 2, 3]] {
        let error = client.process_datagram(&state, Bytes::copy_from_slice(short)).err();
        let cause = TryGetError { requested: 4, available: short.len() };
        assert_eq!(error, Some(DispatchError::Truncated(cause)));
    }
}

#[test]
fn streams_go_to_the_handler_they_name() {
    let mut state = server();
    let (mut proto, _) = connect(&mut state, 1, "ann");
    let client = client(&mut proto);
    assert_eq!(client.process_uni(&state, 7).ok().unwrap().handler, "uni handler");
    assert_eq!(client.process_bi(&state, 9).ok().unwrap().handler, "bi handler");
    assert_eq!(client.process_bi(&state, 9).ok().unwrap().name, "call");
    assert_eq!(
        client.process_uni(&state, 9).err(),
        Some(DispatchError::NoHandler(Transport::Unistream, 9))
    );
    assert_eq!(
        client.process_bi(&state, 7).err(),
        Some(DispatchError::NoHandler(Transport::Bistream, 7))
    );
}

#[test]
fn strangers_are_not_handled() {
    let mut state = server();
    let (mut proto, _) = connect(&mut state, 1, "ann");
    state.players.remove("ann");
    let client = client(&mut proto);
    let payload = Bytes::from_static(&[1, 2, 3, 4]);
    let error = DispatchError::NoPlayerWorld;
    assert_eq!(client.process_datagram(&state, payload).err().as_ref(), Some(&error));
    assert_eq!(client.process_uni(&state, 7).err().as_ref(), Some(&error));
    assert_eq!(client.process_bi(&state, 9).err().as_ref(), Some(&error));
    // A datagram without an id fails before the player is looked for.
    let short = client.process_datagram(&state, Bytes::new()).err();
    assert!(matches!(short, Some(DispatchError::Truncated(_))));

    // A player in an instance that is gone has no world either.
    state.players.insert("ann".to_string(), Player::new_local("gone".to_string()));
    assert_eq!(client.process_uni(&state, 7).err(), Some(error));
}

#[test]
fn dispatch_errors_are_explained() {
    let message = |error: DispatchError| error.message();
    assert_eq!(message(DispatchError::NoPlayerWorld), "Failed to get player world");
    assert_eq!(
        message(DispatchError::Truncated(TryGetError { requested: 4, available: 3 })),
        "Not enough bytes remaining in buffer to read value (requested 4 but only 3 available)"
    );
    assert_eq!(
        message(DispatchError::NoHandler(Transport::Datagram, 0)),
        "No handler for datagram 0"
    );
    assert_eq!(
        message(DispatchError::NoHandler(Transport::Unistream, 10)),
        "No handler for unistream 10"
    );
    assert_eq!(
        message(DispatchError::NoHandler(Transport::Bistream, u32::MAX)),
        "No handler for bistream 4294967295"
    );
}

#[test]
fn registries_hold_one_value_for_a_name() {
    let mut registry: Registry<u8> = Registry::new();
    assert_eq!(registry.insert("a".to_string(), 1), None);
    assert_eq!(registry.insert("b".to_string(), 2), None);
    assert_eq!(registry.insert("a".to_string(), 3), Some(1));
    assert_eq!(registry.get("a"), Some(&3));
    assert_eq!(registry.get("b"), Some(&2));
    assert_eq!(registry.get("c"), None);
    *registry.get_mut("b").unwrap() = 5;
    assert_eq!(registry.get_mut("c"), None);
    assert_eq!(registry.insert("b".to_string(), 2), Some(5));
    assert_eq!(registry.remove("a"), Some(3));
    assert_eq!(registry.remove("a"), None);
    assert_eq!(registry.get("b"), Some(&2));
}

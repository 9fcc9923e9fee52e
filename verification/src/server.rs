//! The server's side of a connection: what a request of the client does to the connection and to
//! the players that the server knows.
//!
//! The worlds themselves are not held here. Where a world has to change, the functions say so by
//! the [`Action`]s that they return; they are to be performed in order.
use crate::channel::{
    clone_receiver, control_channel, is_random_id, linked, pushed, random_id, send_push, ServerPush,
};
use crate::handlers::HandlerTable;
use crate::registry::Registry;
use vstd::prelude::*;

verus! {

/// The instance into which players are put when they connect.
pub const MAIN_INSTANCE_ID: &'static str = "main";

/// What a client can ask for.
pub enum ClientRequest {
    /// To connect as the user with that id.
    Connect(String),
    /// To end the connection.
    Disconnect,
}

/// What a client can ask for, with the user id by its text.
pub enum Request {
    Connect(Seq<char>),
    Disconnect,
}

impl View for ClientRequest {
    type V = Request;

    open spec fn view(&self) -> Request {
        match self {
            ClientRequest::Connect(user_id) => Request::Connect(user_id@),
            ClientRequest::Disconnect => Request::Disconnect,
        }
    }
}

/// A connection of which nothing has been asked yet.
#[derive(Default, Debug, Clone, Copy)]
pub struct PendingConnection {}

/// A connection on which a user is connected.
pub struct ConnectedClient {
    /// The currently connected user id.
    user_id: String,
    /// Where the server tells this connection something.
    pub control_rx: flume::Receiver<ServerPush>,
}

impl ConnectedClient {
    /// The currently connected user id.
    pub closed spec fn user(self) -> Seq<char> {
        self.user_id@
    }

    /// Where the server tells this connection something.
    pub closed spec fn receiver(self) -> flume::Receiver<ServerPush> {
        self.control_rx
    }

    /// The currently connected user id.
    pub fn user_id(&self) -> (r: &str)
        ensures
            r@ == self.user(),
    {
        self.user_id.as_str()
    }
}

impl Clone for ConnectedClient {
    /// The same user, told of the same things: what comes through the channel goes to either.
    fn clone(&self) -> (r: ConnectedClient)
        ensures
            r.user() == self.user(),
            forall|control_tx: flume::Sender<ServerPush>|
                #[trigger] linked(control_tx, r.receiver()) == linked(control_tx, self.receiver()),
    {
        ConnectedClient {
            user_id: self.user_id.clone(),
            control_rx: clone_receiver(&self.control_rx),
        }
    }
}

/// The state of a connection, which depends on what has been received from the client.
///
/// A connection is pending until the client asks to connect.
pub enum ServerProtoState {
    PendingConnection,
    Connected(ConnectedClient),
    Disconnected,
}

/// The state of a connection, with the user by the text of the id.
pub enum Stage {
    Pending,
    Connected(Seq<char>),
    Disconnected,
}

impl View for ServerProtoState {
    type V = Stage;

    open spec fn view(&self) -> Stage {
        match self {
            ServerProtoState::PendingConnection => Stage::Pending,
            ServerProtoState::Connected(client) => Stage::Connected(client.user()),
            ServerProtoState::Disconnected => Stage::Disconnected,
        }
    }
}

impl Default for ServerProtoState {
    fn default() -> (r: ServerProtoState)
        ensures
            r == ServerProtoState::PendingConnection,
    {
        ServerProtoState::PendingConnection
    }
}

/// What holds for all states of a connection.
#[derive(Clone, Copy, Debug)]
pub struct ConnectionData {
    /// Identifies this session. It tells who owns the entity of a player where the same user has
    /// connected several times.
    pub connection_id: u128,
}

/// What the server knows of a connected player.
pub struct Player {
    /// The instance in which the player is.
    pub instance: String,
    control_tx: flume::Sender<ServerPush>,
    connection_id: u128,
}

impl Player {
    /// The name of the instance in which the player is.
    pub closed spec fn place(self) -> Seq<char> {
        self.instance@
    }

    /// The connection that owns the player.
    pub closed spec fn owner(self) -> u128 {
        self.connection_id
    }

    /// Where the owner is told something.
    pub closed spec fn control(self) -> flume::Sender<ServerPush> {
        self.control_tx
    }

    /// A player without a connection.
    pub fn new_local(instance: String) -> (r: Player)
        ensures
            r.place() == instance@,
            call_ensures(random_id, (), r.owner()),
            is_random_id(r.owner()),
            pushed(r.control()) == Seq::<ServerPush>::empty(),
    {
        let (control_tx, _control_rx) = control_channel();
        let draw = random_id;
        Player { instance, control_tx, connection_id: draw() }
    }

    /// The connection that owns the player.
    pub fn connection_id(&self) -> (r: u128)
        ensures
            r == self.owner(),
    {
        self.connection_id
    }

    /// Tells the handler of the connection that owns the player to shut down. Where the handler
    /// is gone, there is nobody to tell.
    pub fn abort(&mut self)
        ensures
            final(self).place() == old(self).place(),
            final(self).owner() == old(self).owner(),
            pushed(final(self).control()) == pushed(old(self).control()).push(
                ServerPush::Disconnect,
            ),
            forall|control_rx: flume::Receiver<ServerPush>|
                #[trigger] linked(final(self).control(), control_rx) == linked(
                    old(self).control(),
                    control_rx,
                ),
    {
        let _ = send_push(&mut self.control_tx, ServerPush::Disconnect);
    }
}

/// What tells the entity of a player from others.
pub struct PlayerEntityData {
    pub user_id: String,
    pub connection_id: u128,
}

/// What is to be done to the worlds and to other connections.
pub enum Action {
    /// Bring the streams of the main instance up to the current time.
    BroadcastDiffs,
    /// Send the present state of the main instance to the client.
    SendInitialDiff,
    /// Abort the connection that owned the player before.
    AbortPlayer(Player),
    /// Give the entity that the user has in the main instance the components of the player.
    UpdatePlayer(PlayerEntityData),
    /// Spawn an entity for the player in the main instance.
    SpawnPlayer(PlayerEntityData),
    /// Despawn the entity of the user in an instance.
    DespawnPlayer { instance: String, user_id: String },
}

/// An [`Action`], with texts in place of strings.
pub enum Step {
    BroadcastDiffs,
    SendInitialDiff,
    AbortPlayer(Player),
    UpdatePlayer(Seq<char>, u128),
    SpawnPlayer(Seq<char>, u128),
    DespawnPlayer(Seq<char>, Seq<char>),
}

impl View for Action {
    type V = Step;

    open spec fn view(&self) -> Step {
        match self {
            Action::BroadcastDiffs => Step::BroadcastDiffs,
            Action::SendInitialDiff => Step::SendInitialDiff,
            Action::AbortPlayer(player) => Step::AbortPlayer(*player),
            Action::UpdatePlayer(data) => Step::UpdatePlayer(data.user_id@, data.connection_id),
            Action::SpawnPlayer(data) => Step::SpawnPlayer(data.user_id@, data.connection_id),
            Action::DespawnPlayer { instance, user_id } => Step::DespawnPlayer(
                instance@,
                user_id@,
            ),
        }
    }
}

/// The steps of actions.
pub open spec fn steps_of(actions: Seq<Action>) -> Seq<Step> {
    actions.map_values(|action: Action| action@)
}

/// A running instance, by the handlers for what clients send to it.
pub struct Instance<D, U, B> {
    pub datagram_handlers: HandlerTable<D>,
    pub uni_stream_handlers: HandlerTable<U>,
    pub bi_stream_handlers: HandlerTable<B>,
}

/// What all connections share.
pub struct ServerState<D, U, B> {
    pub instances: Registry<Instance<D, U, B>>,
    pub players: Registry<Player>,
}

impl<D, U, B> ServerState<D, U, B> {
    /// The instance in which a user plays.
    pub open spec fn world_of(self, user: Seq<char>) -> Option<Instance<D, U, B>> {
        if self.players@.contains_key(user) && self.instances@.contains_key(
            self.players@[user].place(),
        ) {
            Some(self.instances@[self.players@[user].place()])
        } else {
            None
        }
    }

    /// A server without instances and players.
    pub fn new() -> (r: ServerState<D, U, B>)
        ensures
            r.instances@ == Map::<Seq<char>, Instance<D, U, B>>::empty(),
            r.players@ == Map::<Seq<char>, Player>::empty(),
    {
        ServerState { instances: Registry::new(), players: Registry::new() }
    }

    /// The instance in which a user plays.
    pub fn get_player_world(&self, user_id: &str) -> (r: Option<&Instance<D, U, B>>)
        ensures
            match r {
                Some(world) => self.world_of(user_id@) == Some(*world),
                None => self.world_of(user_id@) is None,
            },
    {
        match self.players.get(user_id) {
            Some(player) => self.instances.get(player.instance.as_str()),
            None => None,
        }
    }
}

// -------------------------------------------------------------------------------------------
// What a request does

/// What a request leads to.
#[verifier::ext_equal]
pub struct Outcome {
    pub stage: Stage,
    pub players: Map<Seq<char>, Player>,
    pub steps: Seq<Step>,
}

/// Nothing happens.
pub open spec fn ignored(stage: Stage, players: Map<Seq<char>, Player>) -> Outcome {
    Outcome { stage, players, steps: Seq::empty() }
}

/// The user is connected as the player `fresh`. Where the user is a player already, the
/// connection that owned the player is aborted and the entity goes over to the new one.
pub open spec fn connected(
    players: Map<Seq<char>, Player>,
    user: Seq<char>,
    fresh: Player,
    connection_id: u128,
) -> Outcome {
    let start = Seq::empty().push(Step::BroadcastDiffs).push(Step::SendInitialDiff);
    Outcome {
        stage: Stage::Connected(user),
        players: players.insert(user, fresh),
        steps: if players.contains_key(user) {
            start.push(Step::AbortPlayer(players[user])).push(
                Step::UpdatePlayer(user, connection_id),
            )
        } else {
            start.push(Step::SpawnPlayer(user, connection_id))
        },
    }
}

/// Whether the player of that user is owned by that connection.
pub open spec fn owns(
    players: Map<Seq<char>, Player>,
    connection_id: u128,
    user: Seq<char>,
) -> bool {
    players.contains_key(user) && players[user].owner() == connection_id
}

/// The connection ends. A connection that does not own the player of its user can not end so: it
/// stays as it is.
pub open spec fn disconnected(
    stage: Stage,
    players: Map<Seq<char>, Player>,
    connection_id: u128,
) -> Outcome {
    match stage {
        Stage::Connected(user) => if owns(players, connection_id, user) {
            Outcome {
                stage: Stage::Disconnected,
                players: players.remove(user),
                steps: Seq::empty().push(Step::DespawnPlayer(players[user].place(), user)),
            }
        } else {
            ignored(stage, players)
        },
        _ => ignored(Stage::Disconnected, players),
    }
}

/// What a request leads to, where a user who connects becomes the player `fresh`.
pub open spec fn controlled(
    stage: Stage,
    players: Map<Seq<char>, Player>,
    connection_id: u128,
    request: Request,
    fresh: Player,
) -> Outcome {
    match (request, stage) {
        (_, Stage::Disconnected) => ignored(stage, players),
        (Request::Connect(user), Stage::Pending) => connected(
            players,
            user,
            fresh,
            connection_id,
        ),
        (Request::Connect(_), Stage::Connected(_)) => ignored(stage, players),
        (Request::Disconnect, _) => disconnected(stage, players, connection_id),
    }
}

/// Whether the instances are there that ending a connection needs.
pub open spec fn can_disconnect(
    stage: Stage,
    players: Map<Seq<char>, Player>,
    instances: Set<Seq<char>>,
    connection_id: u128,
) -> bool {
    stage matches Stage::Connected(user) ==> owns(players, connection_id, user)
        ==> instances.contains(players[user].place())
}

/// Whether the main instance is there.
pub open spec fn can_connect(instances: Set<Seq<char>>) -> bool {
    instances.contains(MAIN_INSTANCE_ID@)
}

/// Whether what a request needs is there.
pub open spec fn can_control(
    stage: Stage,
    players: Map<Seq<char>, Player>,
    instances: Set<Seq<char>>,
    connection_id: u128,
    request: Request,
) -> bool {
    match (request, stage) {
        (Request::Connect(user), Stage::Pending) => can_connect(instances),
        (Request::Disconnect, _) => can_disconnect(stage, players, instances, connection_id),
        _ => true,
    }
}

/// Whether `player` is one that has just been connected through the connection.
pub open spec fn is_fresh(
    player: Player,
    connection_id: u128,
    connection: ServerProtoState,
) -> bool {
    &&& player.place() == MAIN_INSTANCE_ID@
    &&& player.owner() == connection_id
    &&& pushed(player.control()) == Seq::<ServerPush>::empty()
    &&& connection matches ServerProtoState::Connected(client)
    &&& linked(player.control(), client.receiver())
}

impl ServerProtoState {
    /// Processes a client request.
    pub fn process_control<D, U, B>(
        &mut self,
        data: &ConnectionData,
        state: &mut ServerState<D, U, B>,
        frame: ClientRequest,
    ) -> (actions: Vec<Action>)
        requires
            can_control(
                old(self)@,
                old(state).players@,
                old(state).instances@.dom(),
                data.connection_id,
                frame@,
            ),
        ensures
            final(state).instances == old(state).instances,
            ({
                let fresh = final(state).players@[frame@->Connect_0];
                &&& controlled(
                    old(self)@,
                    old(state).players@,
                    data.connection_id,
                    frame@,
                    fresh,
                ) == (Outcome {
                    stage: final(self)@,
                    players: final(state).players@,
                    steps: steps_of(actions@),
                })
                &&& frame@ is Connect && old(self)@ is Pending ==> is_fresh(
                    fresh,
                    data.connection_id,
                    *final(self),
                )
            }),
            old(self)@ is Connected && final(self)@ is Connected ==> *final(self) == *old(self),
    {
        match frame {
            ClientRequest::Connect(user_id) => match self {
                ServerProtoState::PendingConnection => self.process_connect(
                    data,
                    state,
                    user_id,
                ),
                _ => {
                    let actions: Vec<Action> = Vec::new();
                    assert(steps_of(actions@) =~= Seq::empty());
                    actions
                },
            },
            ClientRequest::Disconnect => match self {
                ServerProtoState::Disconnected => {
                    let actions: Vec<Action> = Vec::new();
                    assert(steps_of(actions@) =~= Seq::empty());
                    actions
                },
                _ => self.process_disconnect(data, state),
            },
        }
    }

    /// Connects a user.
    fn process_connect<D, U, B>(
        &mut self,
        data: &ConnectionData,
        state: &mut ServerState<D, U, B>,
        user_id: String,
    ) -> (actions: Vec<Action>)
        requires
            can_connect(old(state).instances@.dom()),
        ensures
            final(state).instances == old(state).instances,
            ({
                let fresh = final(state).players@[user_id@];
                &&& connected(
                    old(state).players@,
                    user_id@,
                    fresh,
                    data.connection_id,
                ) == (Outcome {
                    stage: final(self)@,
                    players: final(state).players@,
                    steps: steps_of(actions@),
                })
                &&& is_fresh(fresh, data.connection_id, *final(self))
            }),
    {
        let (control_tx, control_rx) = control_channel();
        let old_player = state.players.insert(
            user_id.clone(),
            Player {
                instance: MAIN_INSTANCE_ID.to_owned(),
                control_tx,
                connection_id: data.connection_id,
            },
        );
        let mut actions: Vec<Action> = Vec::new();
        // Bring the world stream up to the current time
        actions.push(Action::BroadcastDiffs);
        actions.push(Action::SendInitialDiff);
        let entity_data = PlayerEntityData {
            user_id: user_id.clone(),
            connection_id: data.connection_id,
        };
        match old_player {
            Some(old_player) => {
                actions.push(Action::AbortPlayer(old_player));
                actions.push(Action::UpdatePlayer(entity_data));
            },
            None => {
                actions.push(Action::SpawnPlayer(entity_data));
            },
        }
        *self = ServerProtoState::Connected(ConnectedClient { user_id, control_rx });
        assert(steps_of(actions@) =~= connected(
            old(state).players@,
            user_id@,
            state.players@[user_id@],
            data.connection_id,
        ).steps);
        actions
    }

    /// Ends the connection.
    pub fn process_disconnect<D, U, B>(
        &mut self,
        data: &ConnectionData,
        state: &mut ServerState<D, U, B>,
    ) -> (actions: Vec<Action>)
        requires
            can_disconnect(
                old(self)@,
                old(state).players@,
                old(state).instances@.dom(),
                data.connection_id,
            ),
        ensures
            final(state).instances == old(state).instances,
            disconnected(old(self)@, old(state).players@, data.connection_id) == (Outcome {
                stage: final(self)@,
                players: final(state).players@,
                steps: steps_of(actions@),
            }),
            final(self)@ is Connected ==> *final(self) == *old(self),
    {
        let mut actions: Vec<Action> = Vec::new();
        assert(steps_of(actions@) =~= Seq::empty());
        if let ServerProtoState::Connected(client) = self {
            let user_id = client.user_id.clone();
            match state.players.get(user_id.as_str()) {
                // The client is not known any more.
                None => {
                    return actions;
                },
                Some(player) => {
                    if player.connection_id != data.connection_id {
                        // The player has gone over to another connection.
                        return actions;
                    }
                },
            }
            if let Some(player) = state.players.remove(user_id.as_str()) {
                actions.push(Action::DespawnPlayer { instance: player.instance, user_id });
            }
            assert(steps_of(actions@) =~= disconnected(
                old(self)@,
                old(state).players@,
                data.connection_id,
            ).steps);
        }
        *self = ServerProtoState::Disconnected;
        actions
    }

    /// Whether a user is connected.
    #[must_use]
    pub fn is_connected(&self) -> (r: bool)
        ensures
            r == (self@ is Connected),
    {
        matches!(self, ServerProtoState::Connected(..))
    }

    /// Whether the client has not asked to connect yet.
    #[must_use]
    pub fn is_pending_connection(&self) -> (r: bool)
        ensures
            r == (self@ is Pending),
    {
        matches!(self, ServerProtoState::PendingConnection)
    }

    /// Whether the connection has ended.
    #[must_use]
    pub fn is_disconnected(&self) -> (r: bool)
        ensures
            r == (self@ is Disconnected),
    {
        matches!(self, ServerProtoState::Disconnected)
    }
}

} // verus!

//! What holds of the players that the server knows, whatever the clients ask for.
use crate::channel::{linked, pushed};
use crate::server::{
    connected, controlled, disconnected, ignored, is_fresh, owns, steps_of, Action, ClientRequest,
    Player, Request, ServerProtoState, Stage, Step, MAIN_INSTANCE_ID,
};
use vstd::multiset::Multiset;
use vstd::prelude::*;

verus! {

// -------------------------------------------------------------------------------------------
// One connection

/// A connection that has ended stays ended: whatever the client asks for, nothing happens.
pub proof fn ended_connections_stay_ended(
    players: Map<Seq<char>, Player>,
    connection_id: u128,
    request: Request,
    fresh: Player,
)
    ensures
        controlled(Stage::Disconnected, players, connection_id, request, fresh)
            == ignored(Stage::Disconnected, players),
{
}

/// A client that is connected can not connect again, neither as the same user nor as another.
pub proof fn connecting_twice_is_ignored(
    players: Map<Seq<char>, Player>,
    connection_id: u128,
    user: Seq<char>,
    other: Seq<char>,
    fresh: Player,
)
    ensures
        controlled(
            Stage::Connected(user),
            players,
            connection_id,
            Request::Connect(other),
            fresh,
        ) == ignored(Stage::Connected(user), players),
{
}

/// A client that asks to disconnect before it has connected ends the connection, and no player
/// is touched.
pub proof fn pending_connections_end_quietly(
    players: Map<Seq<char>, Player>,
    connection_id: u128,
    fresh: Player,
)
    ensures
        controlled(Stage::Pending, players, connection_id, Request::Disconnect, fresh)
            == ignored(Stage::Disconnected, players),
{
}

/// A connection that does not own the player of its user, or whose user is no player any more,
/// changes nothing by asking to disconnect.
pub proof fn only_owners_disconnect(
    players: Map<Seq<char>, Player>,
    connection_id: u128,
    user: Seq<char>,
    fresh: Player,
)
    requires
        !owns(players, connection_id, user),
    ensures
        controlled(
            Stage::Connected(user),
            players,
            connection_id,
            Request::Disconnect,
            fresh,
        ) == ignored(Stage::Connected(user), players),
{
}

/// Who connects owns the player. Disconnecting then takes the player out again and despawns the
/// entity where it is, and nothing else remains of the connection; where the user was no player
/// before, the players are those from before.
pub proof fn disconnecting_undoes_connecting(
    players: Map<Seq<char>, Player>,
    connection_id: u128,
    user: Seq<char>,
    fresh: Player,
)
    requires
        fresh.owner() == connection_id,
    ensures
        ({
            let on = controlled(
                Stage::Pending,
                players,
                connection_id,
                Request::Connect(user),
                fresh,
            );
            let off = controlled(
                on.stage,
                on.players,
                connection_id,
                Request::Disconnect,
                fresh,
            );
            &&& on.stage == Stage::Connected(user)
            &&& owns(on.players, connection_id, user)
            &&& off.stage is Disconnected
            &&& off.players == players.remove(user)
            &&& !players.contains_key(user) ==> off.players == players
            &&& off.steps == Seq::empty().push(Step::DespawnPlayer(fresh.place(), user))
        }),
{
    assert(players.insert(user, fresh).remove(user) =~= players.remove(user));
    if !players.contains_key(user) {
        assert(players.remove(user) =~= players);
    }
}

/// A request that is ignored leaves the connection and the players as they are, and nothing is to be
/// done. A connection owns the players that name it as their owner, and no others.
pub proof fn ignored_requests_change_nothing(
    stage: Stage,
    players: Map<Seq<char>, Player>,
    connection_id: u128,
    user: Seq<char>,
)
    ensures
        ignored(stage, players).stage == stage,
        ignored(stage, players).players == players,
        ignored(stage, players).steps.len() == 0,
        owns(players, connection_id, user) <==> players.contains_key(user)
            && players[user].owner() == connection_id,
{
}

/// A user who connects is registered as the new player. The streams are brought up to date and the
/// client gets the present state, in this order. Then, where the user was no player, an entity is
/// spawned for the user and the connection; where the user was one, the connection that owned the
/// player is aborted and the entity of the user goes over to the new connection. Nothing else is
/// done.
pub proof fn connecting_takes_these_steps(
    players: Map<Seq<char>, Player>,
    connection_id: u128,
    user: Seq<char>,
    fresh: Player,
)
    ensures
        ({
            let after = controlled(
                Stage::Pending,
                players,
                connection_id,
                Request::Connect(user),
                fresh,
            );
            &&& after.stage == Stage::Connected(user)
            &&& after.players.contains_key(user)
            &&& after.players[user] == fresh
            &&& after.players.dom() == players.dom().insert(user)
            &&& after.steps[0] is BroadcastDiffs
            &&& after.steps[1] is SendInitialDiff
            &&& if players.contains_key(user) {
                &&& after.steps.len() == 4
                &&& after.steps[2] == Step::AbortPlayer(players[user])
                &&& after.steps[3] == Step::UpdatePlayer(user, connection_id)
            } else {
                &&& after.steps.len() == 3
                &&& after.steps[2] == Step::SpawnPlayer(user, connection_id)
            }
        }),
{
    assert(players.insert(user, fresh).dom() =~= players.dom().insert(user));
}

/// A connection that owns the player of its user ends by taking the player out and despawning the
/// entity of the user in the instance where the player is, and nothing else.
pub proof fn disconnecting_takes_these_steps(
    players: Map<Seq<char>, Player>,
    connection_id: u128,
    user: Seq<char>,
    fresh: Player,
)
    requires
        players.contains_key(user),
        players[user].owner() == connection_id,
    ensures
        ({
            let after = controlled(
                Stage::Connected(user),
                players,
                connection_id,
                Request::Disconnect,
                fresh,
            );
            &&& after == disconnected(Stage::Connected(user), players, connection_id)
            &&& after.stage is Disconnected
            &&& after.players.dom() == players.dom().remove(user)
            &&& after.steps.len() == 1
            &&& after.steps[0] == Step::DespawnPlayer(players[user].place(), user)
        }),
{
    assert(players.remove(user).dom() =~= players.dom().remove(user));
}

/// A connection without an owned player that is told to end directly, not by a request, ends too,
/// and touches nobody.
pub proof fn unconnected_connections_end(
    players: Map<Seq<char>, Player>,
    connection_id: u128,
)
    ensures
        disconnected(Stage::Pending, players, connection_id) == ignored(
            Stage::Disconnected,
            players,
        ),
        disconnected(Stage::Disconnected, players, connection_id) == ignored(
            Stage::Disconnected,
            players,
        ),
{
}

/// A player who has just connected is in the main instance, is owned by the connection, has been
/// told nothing, and is told things through the channel that the connection listens to.
pub proof fn fresh_players_belong_to_their_connection(
    player: Player,
    connection_id: u128,
    connection: ServerProtoState,
)
    requires
        is_fresh(player, connection_id, connection),
    ensures
        player.place() == "main"@,
        player.owner() == connection_id,
        pushed(player.control()).len() == 0,
        connection is Connected,
        linked(player.control(), connection->Connected_0.receiver()),
{
}

/// Actions, requests and states show what they hold, each in its place.
pub proof fn values_show_what_they_hold(
    actions: Seq<Action>,
    i: int,
    request: ClientRequest,
    state: ServerProtoState,
)
    requires
        0 <= i < actions.len(),
    ensures
        steps_of(actions).len() == actions.len(),
        match actions[i] {
            Action::BroadcastDiffs => steps_of(actions)[i] is BroadcastDiffs,
            Action::SendInitialDiff => steps_of(actions)[i] is SendInitialDiff,
            Action::AbortPlayer(player) => steps_of(actions)[i] == Step::AbortPlayer(player),
            Action::UpdatePlayer(data) => steps_of(actions)[i] == Step::UpdatePlayer(
                data.user_id@,
                data.connection_id,
            ),
            Action::SpawnPlayer(data) => steps_of(actions)[i] == Step::SpawnPlayer(
                data.user_id@,
                data.connection_id,
            ),
            Action::DespawnPlayer { instance, user_id } => steps_of(actions)[i]
                == Step::DespawnPlayer(instance@, user_id@),
        },
        match request {
            ClientRequest::Connect(user_id) => request@ == Request::Connect(user_id@),
            ClientRequest::Disconnect => request@ is Disconnect,
        },
        match state {
            ServerProtoState::PendingConnection => state@ is Pending,
            ServerProtoState::Connected(client) => state@ == Stage::Connected(client.user()),
            ServerProtoState::Disconnected => state@ is Disconnected,
        },
{
}

// -------------------------------------------------------------------------------------------
// Several connections

/// Where a user connects a second time, the player goes over to the new connection, and the old
/// one is aborted. From then on the old connection can not touch the player, while the new one
/// can end it.
pub proof fn reconnecting_takes_over(
    players: Map<Seq<char>, Player>,
    user: Seq<char>,
    first_id: u128,
    first: Player,
    second_id: u128,
    second: Player,
)
    requires
        first.owner() == first_id,
        second.owner() == second_id,
        first_id != second_id,
    ensures
        ({
            let one = connected(players, user, first, first_id);
            let two = connected(one.players, user, second, second_id);
            &&& owns(two.players, second_id, user)
            &&& two.steps.contains(Step::AbortPlayer(first))
            &&& disconnected(Stage::Connected(user), two.players, first_id) == ignored(
                Stage::Connected(user),
                two.players,
            )
            &&& disconnected(Stage::Connected(user), two.players, second_id).players
                == two.players.remove(user)
        }),
{
    let one = connected(players, user, first, first_id);
    let two = connected(one.players, user, second, second_id);
    assert(two.steps[2] == Step::AbortPlayer(first));
}

/// The user whose player a request can change.
pub open spec fn subject(stage: Stage, request: Request) -> Option<Seq<char>> {
    match (request, stage) {
        (Request::Connect(user), Stage::Pending) => Some(user),
        (Request::Disconnect, Stage::Connected(user)) => Some(user),
        _ => None,
    }
}

/// A request changes the player of one user at most: the user who connects, or the one who is
/// connected and disconnects.
pub proof fn other_players_are_untouched(
    stage: Stage,
    players: Map<Seq<char>, Player>,
    connection_id: u128,
    request: Request,
    fresh: Player,
    other: Seq<char>,
)
    requires
        subject(stage, request) != Some(other),
    ensures
        ({
            let after = controlled(stage, players, connection_id, request, fresh).players;
            &&& after.contains_key(other) == players.contains_key(other)
            &&& after[other] == players[other]
        }),
{
}

/// Whether every player is owned by a connection on which its user is connected.
pub open spec fn players_have_connections(
    connections: Map<u128, Stage>,
    players: Map<Seq<char>, Player>,
) -> bool {
    forall|user: Seq<char>| #[trigger]
        players.contains_key(user) ==> {
            let owner = players[user].owner();
            connections.contains_key(owner) && connections[owner] == Stage::Connected(user)
        }
}

/// That every player is owned by a connection on which its user is connected is kept by every
/// request on every connection.
pub proof fn players_keep_their_connections(
    connections: Map<u128, Stage>,
    players: Map<Seq<char>, Player>,
    connection_id: u128,
    request: Request,
    fresh: Player,
)
    requires
        connections.contains_key(connection_id),
        players_have_connections(connections, players),
        fresh.owner() == connection_id,
    ensures
        ({
            let after = controlled(
                connections[connection_id],
                players,
                connection_id,
                request,
                fresh,
            );
            players_have_connections(
                connections.insert(connection_id, after.stage),
                after.players,
            )
        }),
{
    let stage = connections[connection_id];
    let after = controlled(stage, players, connection_id, request, fresh);
    let later = connections.insert(connection_id, after.stage);
    assert forall|user: Seq<char>| #[trigger] after.players.contains_key(user) implies ({
        let owner = after.players[user].owner();
        later.contains_key(owner) && later[owner] == Stage::Connected(user)
    }) by {
        if subject(stage, request) != Some(user) {
            other_players_are_untouched(
                stage,
                players,
                connection_id,
                request,
                fresh,
                user,
            );
            assert(players.contains_key(user));
        }
    }
}

// -------------------------------------------------------------------------------------------
// Entities

/// The entities of players: the instance and the user of each.
pub type Entities = Multiset<(Seq<char>, Seq<char>)>;

/// What a step does to the entities of players.
pub open spec fn performed(entities: Entities, step: Step) -> Entities {
    match step {
        Step::SpawnPlayer(user, _) => entities.insert((MAIN_INSTANCE_ID@, user)),
        Step::DespawnPlayer(instance, user) => entities.remove((instance, user)),
        _ => entities,
    }
}

/// What steps do to the entities of players, one after the other.
pub open spec fn all_performed(entities: Entities, steps: Seq<Step>) -> Entities
    decreases steps.len(),
{
    if steps.len() == 0 {
        entities
    } else {
        performed(all_performed(entities, steps.drop_last()), steps.last())
    }
}

/// Whether every player has one entity, in the instance where the player is, and there are no
/// other entities of players.
pub open spec fn players_have_entities(
    players: Map<Seq<char>, Player>,
    entities: Entities,
) -> bool {
    forall|instance: Seq<char>, user: Seq<char>| #[trigger]
        entities.count((instance, user)) == if players.contains_key(user)
            && players[user].place() == instance {
            1nat
        } else {
            0nat
        }
}

/// A server without players is in order: every player has a connection and an entity.
pub proof fn servers_start_in_order(connections: Map<u128, Stage>)
    ensures
        players_have_connections(connections, Map::empty()),
        players_have_entities(Map::empty(), Multiset::empty()),
{
}

/// That every player has one entity, and nobody else has one, is kept by every request, once the
/// steps have been performed. A player who connects again has to be found in the main instance.
pub proof fn players_keep_their_entities(
    stage: Stage,
    players: Map<Seq<char>, Player>,
    connection_id: u128,
    request: Request,
    fresh: Player,
    entities: Entities,
)
    requires
        players_have_entities(players, entities),
        fresh.place() == MAIN_INSTANCE_ID@,
        (request, stage) matches (Request::Connect(user), Stage::Pending) ==> {
            players.contains_key(user) ==> entities.count((MAIN_INSTANCE_ID@, user)) > 0
        },
    ensures
        ({
            let after = controlled(stage, players, connection_id, request, fresh);
            players_have_entities(after.players, all_performed(entities, after.steps))
        }),
{
    reveal_with_fuel(all_performed, 5);
    let after = controlled(stage, players, connection_id, request, fresh);
    let later = all_performed(entities, after.steps);
    match (request, stage) {
        (Request::Connect(user), Stage::Pending) => {
            let start = Seq::empty().push(Step::BroadcastDiffs).push(Step::SendInitialDiff);
            assert(start.drop_last() =~= Seq::empty().push(Step::BroadcastDiffs));
            assert(start.drop_last().drop_last() =~= Seq::empty());
            assert(all_performed(entities, start) == entities);
            if players.contains_key(user) {
                let told = start.push(Step::AbortPlayer(players[user]));
                assert(told.drop_last() =~= start);
                assert(after.steps.drop_last() =~= told);
                assert(later == entities);
                assert(entities.count((MAIN_INSTANCE_ID@, user)) == 1);
            } else {
                assert(after.steps.drop_last() =~= start);
                assert(later == entities.insert((MAIN_INSTANCE_ID@, user)));
            }
        },
        (Request::Disconnect, Stage::Connected(user)) => {
            if owns(players, connection_id, user) {
                assert(after.steps.drop_last() =~= Seq::empty());
                assert(later == entities.remove((players[user].place(), user)));
                assert(entities.count((players[user].place(), user)) == 1);
            }
        },
        _ => {},
    }
}

} // verus!

//! Finding the handler for what a connected client sends.
use crate::handlers::Handler;
use crate::server::{ConnectedClient, ServerState};
use crate::text::{decimal, push_decimal};
use bytes::Bytes;
use vstd::prelude::*;

verus! {

/// `bytes::Bytes`.
#[verifier::external_type_specification]
#[verifier::external_body]
pub struct ExBytes(bytes::Bytes);

/// `bytes::TryGetError`.
#[verifier::external_type_specification]
#[verifier::external_body]
pub struct ExTryGetError(bytes::TryGetError);

/// How many bytes a read needed and how many there were, as the error says.
pub uninterp spec fn shortage(error: bytes::TryGetError) -> (nat, nat);

/// The bytes that a buffer holds.
pub uninterp spec fn bytes_of(buffer: Bytes) -> Seq<u8>;

/// The number that the first four bytes write, the most significant byte first.
pub open spec fn leading_u32(bytes: Seq<u8>) -> int {
    ((bytes[0] * 256 + bytes[1]) * 256 + bytes[2]) * 256 + bytes[3]
}

/// `bytes::Buf::try_get_u32` on `Bytes`: takes four bytes off the front and gives their number,
/// the most significant byte first. A shorter buffer stays as it is and is an error, which says
/// that four bytes were needed and how many there were.
#[verifier::external_body]
fn take_u32(buffer: &mut Bytes) -> (r: Result<u32, bytes::TryGetError>)
    ensures
        match r {
            Ok(number) => {
                &&& bytes_of(*old(buffer)).len() >= 4
                &&& number == leading_u32(bytes_of(*old(buffer)))
                &&& bytes_of(*final(buffer)) == bytes_of(*old(buffer)).skip(4)
            },
            Err(error) => {
                &&& bytes_of(*old(buffer)).len() < 4
                &&& shortage(error) == (4nat, bytes_of(*old(buffer)).len())
                &&& bytes_of(*final(buffer)) == bytes_of(*old(buffer))
            },
        },
{
    bytes::Buf::try_get_u32(buffer)
}

/// The text of a shortage of bytes.
pub open spec fn shortage_text(requested: nat, available: nat) -> Seq<char> {
    "Not enough bytes remaining in buffer to read value (requested "@ + decimal(requested)
        + " but only "@ + decimal(available) + " available)"@
}

/// `Display` of `bytes::TryGetError`: a sentence with the two numbers of the error.
#[verifier::external_body]
fn show_shortage(error: &bytes::TryGetError) -> (r: String)
    ensures
        r@ == shortage_text(shortage(*error).0, shortage(*error).1),
{
    error.to_string()
}

/// How something was sent.
#[derive(Clone, Copy, PartialEq, Eq, Structural, Debug)]
pub enum Transport {
    Datagram,
    Unistream,
    Bistream,
}

/// Why something that a client sent could not be handled.
#[derive(PartialEq, Eq, Debug)]
pub enum DispatchError {
    /// The datagram is too short to hold the id of a handler.
    Truncated(bytes::TryGetError),
    /// The user is in no instance.
    NoPlayerWorld,
    /// The instance of the user has no handler with that id.
    NoHandler(Transport, u32),
}

impl Transport {
    /// What messages call it.
    pub open spec fn noun(self) -> Seq<char> {
        match self {
            Transport::Datagram => "datagram"@,
            Transport::Unistream => "unistream"@,
            Transport::Bistream => "bistream"@,
        }
    }

    /// What messages call it.
    pub fn as_str(&self) -> (r: &str)
        ensures
            r@ == self.noun(),
    {
        match self {
            Transport::Datagram => "datagram",
            Transport::Unistream => "unistream",
            Transport::Bistream => "bistream",
        }
    }
}

impl DispatchError {
    /// What to tell the user.
    pub open spec fn text(self) -> Seq<char> {
        match self {
            DispatchError::Truncated(error) => shortage_text(
                shortage(error).0,
                shortage(error).1,
            ),
            DispatchError::NoPlayerWorld => "Failed to get player world"@,
            DispatchError::NoHandler(transport, id) => "No handler for "@ + transport.noun() + " "@
                + decimal(id as nat),
        }
    }

    /// What to tell the user.
    pub fn message(&self) -> (r: String)
        ensures
            r@ == self.text(),
    {
        match self {
            DispatchError::Truncated(error) => show_shortage(error),
            DispatchError::NoPlayerWorld => "Failed to get player world".to_owned(),
            DispatchError::NoHandler(transport, id) => {
                let mut message = "No handler for ".to_owned();
                message.append(transport.as_str());
                message.append(" ");
                push_decimal(&mut message, *id as u64);
                message
            },
        }
    }
}

/// The handler for an id among those of an instance, if the user is in one.
pub open spec fn routed<H>(
    handlers: Option<Map<u32, Handler<H>>>,
    transport: Transport,
    id: u32,
) -> Result<Handler<H>, DispatchError> {
    match handlers {
        None => Err(DispatchError::NoPlayerWorld),
        Some(handlers) => if handlers.contains_key(id) {
            Ok(handlers[id])
        } else {
            Err(DispatchError::NoHandler(transport, id))
        },
    }
}

impl<D, U, B> ServerState<D, U, B> {
    /// The handlers for the datagrams of a user.
    pub open spec fn datagram_handlers_of(self, user: Seq<char>) -> Option<Map<u32, Handler<D>>> {
        match self.world_of(user) {
            Some(world) => Some(world.datagram_handlers@),
            None => None,
        }
    }

    /// The handlers for the unidirectional streams of a user.
    pub open spec fn uni_stream_handlers_of(self, user: Seq<char>) -> Option<
        Map<u32, Handler<U>>,
    > {
        match self.world_of(user) {
            Some(world) => Some(world.uni_stream_handlers@),
            None => None,
        }
    }

    /// The handlers for the bidirectional streams of a user.
    pub open spec fn bi_stream_handlers_of(self, user: Seq<char>) -> Option<
        Map<u32, Handler<B>>,
    > {
        match self.world_of(user) {
            Some(world) => Some(world.bi_stream_handlers@),
            None => None,
        }
    }

    /// The handler with that id for the datagrams of a user.
    pub fn datagram_handler(&self, user_id: &str, id: u32) -> (r: Result<
        &Handler<D>,
        DispatchError,
    >)
        ensures
            routed(self.datagram_handlers_of(user_id@), Transport::Datagram, id) == match r {
                Ok(handler) => Ok::<Handler<D>, DispatchError>(*handler),
                Err(error) => Err::<Handler<D>, DispatchError>(error),
            },
    {
        match self.get_player_world(user_id) {
            Some(world) => match world.datagram_handlers.get(id) {
                Some(handler) => Ok(handler),
                None => Err(DispatchError::NoHandler(Transport::Datagram, id)),
            },
            None => Err(DispatchError::NoPlayerWorld),
        }
    }

    /// The handler with that id for the unidirectional streams of a user.
    pub fn uni_stream_handler(&self, user_id: &str, id: u32) -> (r: Result<
        &Handler<U>,
        DispatchError,
    >)
        ensures
            routed(self.uni_stream_handlers_of(user_id@), Transport::Unistream, id) == match r {
                Ok(handler) => Ok::<Handler<U>, DispatchError>(*handler),
                Err(error) => Err::<Handler<U>, DispatchError>(error),
            },
    {
        match self.get_player_world(user_id) {
            Some(world) => match world.uni_stream_handlers.get(id) {
                Some(handler) => Ok(handler),
                None => Err(DispatchError::NoHandler(Transport::Unistream, id)),
            },
            None => Err(DispatchError::NoPlayerWorld),
        }
    }

    /// The handler with that id for the bidirectional streams of a user.
    pub fn bi_stream_handler(&self, user_id: &str, id: u32) -> (r: Result<
        &Handler<B>,
        DispatchError,
    >)
        ensures
            routed(self.bi_stream_handlers_of(user_id@), Transport::Bistream, id) == match r {
                Ok(handler) => Ok::<Handler<B>, DispatchError>(*handler),
                Err(error) => Err::<Handler<B>, DispatchError>(error),
            },
    {
        match self.get_player_world(user_id) {
            Some(world) => match world.bi_stream_handlers.get(id) {
                Some(handler) => Ok(handler),
                None => Err(DispatchError::NoHandler(Transport::Bistream, id)),
            },
            None => Err(DispatchError::NoPlayerWorld),
        }
    }
}

/// A datagram on its way to its handler.
pub struct Datagram<'a, D> {
    pub handler: &'a Handler<D>,
    /// What is left of the datagram behind the id of the handler.
    pub payload: Bytes,
}

impl ConnectedClient {
    /// Processes an incoming datagram: finds the handler whose id the datagram starts with.
    pub fn process_datagram<'a, D, U, B>(
        &mut self,
        state: &'a ServerState<D, U, B>,
        payload: Bytes,
    ) -> (r: Result<Datagram<'a, D>, DispatchError>)
        ensures
            *final(self) == *old(self),
            ({
                let bytes = bytes_of(payload);
                let found = routed(
                    state.datagram_handlers_of(old(self).user()),
                    Transport::Datagram,
                    leading_u32(bytes) as u32,
                );
                match r {
                    Ok(datagram) => {
                        &&& bytes.len() >= 4
                        &&& found == Ok::<Handler<D>, DispatchError>(*datagram.handler)
                        &&& bytes_of(datagram.payload) == bytes.skip(4)
                    },
                    Err(error) => if bytes.len() < 4 {
                        error matches DispatchError::Truncated(cause) && shortage(cause) == (
                            4nat,
                            bytes.len(),
                        )
                    } else {
                        found == Err::<Handler<D>, DispatchError>(error)
                    },
                }
            }),
    {
        let mut payload = payload;
        let id: u32 = match take_u32(&mut payload) {
            Ok(id) => id,
            Err(error) => {
                return Err(DispatchError::Truncated(error));
            },
        };
        match state.datagram_handler(self.user_id(), id) {
            Ok(handler) => Ok(Datagram { handler, payload }),
            Err(error) => Err(error),
        }
    }

    /// Processes an incoming unidirectional stream: finds the handler with the id that was read
    /// off the stream.
    pub fn process_uni<'a, D, U, B>(
        &mut self,
        state: &'a ServerState<D, U, B>,
        id: u32,
    ) -> (r: Result<&'a Handler<U>, DispatchError>)
        ensures
            *final(self) == *old(self),
            routed(
                state.uni_stream_handlers_of(old(self).user()),
                Transport::Unistream,
                id,
            ) == match r {
                Ok(handler) => Ok::<Handler<U>, DispatchError>(*handler),
                Err(error) => Err::<Handler<U>, DispatchError>(error),
            },
    {
        state.uni_stream_handler(self.user_id(), id)
    }

    /// Processes an incoming bidirectional stream: finds the handler with the id that was read
    /// off the stream.
    pub fn process_bi<'a, D, U, B>(
        &mut self,
        state: &'a ServerState<D, U, B>,
        id: u32,
    ) -> (r: Result<&'a Handler<B>, DispatchError>)
        ensures
            *final(self) == *old(self),
            routed(
                state.bi_stream_handlers_of(old(self).user()),
                Transport::Bistream,
                id,
            ) == match r {
                Ok(handler) => Ok::<Handler<B>, DispatchError>(*handler),
                Err(error) => Err::<Handler<B>, DispatchError>(error),
            },
    {
        state.bi_stream_handler(self.user_id(), id)
    }
}

/// Nothing that a user sends is handled who is no player, such as one who has disconnected:
/// whatever the id, there is no world for it.
pub proof fn strangers_are_not_handled<D, U, B>(
    state: ServerState<D, U, B>,
    user: Seq<char>,
    id: u32,
)
    requires
        !state.players@.contains_key(user),
    ensures
        routed(state.datagram_handlers_of(user), Transport::Datagram, id) == Err::<
            Handler<D>,
            DispatchError,
        >(DispatchError::NoPlayerWorld),
        routed(state.uni_stream_handlers_of(user), Transport::Unistream, id) == Err::<
            Handler<U>,
            DispatchError,
        >(DispatchError::NoPlayerWorld),
        routed(state.bi_stream_handlers_of(user), Transport::Bistream, id) == Err::<
            Handler<B>,
            DispatchError,
        >(DispatchError::NoPlayerWorld),
{
}

/// What a player sends is handled where the player is: the handler is the one with that id among the
/// handlers of exactly the instance that is named by the player's place, of the kind that fits how it
/// was sent. Where that instance has no such handler, or does not exist, this is the error.
pub proof fn players_are_handled_where_they_are<D, U, B>(
    state: ServerState<D, U, B>,
    user: Seq<char>,
    id: u32,
)
    requires
        state.players@.contains_key(user),
    ensures
        ({
            let place = state.players@[user].place();
            let there = state.instances@.contains_key(place);
            let datagrams = state.instances@[place].datagram_handlers@;
            let uni_streams = state.instances@[place].uni_stream_handlers@;
            let bi_streams = state.instances@[place].bi_stream_handlers@;
            let datagram = routed(state.datagram_handlers_of(user), Transport::Datagram, id);
            let uni = routed(state.uni_stream_handlers_of(user), Transport::Unistream, id);
            let bi = routed(state.bi_stream_handlers_of(user), Transport::Bistream, id);
            &&& there ==> state.world_of(user) == Some(state.instances@[place])
            &&& there && datagrams.contains_key(id) ==> datagram == Ok::<_, DispatchError>(
                datagrams[id],
            )
            &&& there && !datagrams.contains_key(id) ==> datagram == Err::<Handler<D>, _>(
                DispatchError::NoHandler(Transport::Datagram, id),
            )
            &&& there && uni_streams.contains_key(id) ==> uni == Ok::<_, DispatchError>(
                uni_streams[id],
            )
            &&& there && !uni_streams.contains_key(id) ==> uni == Err::<Handler<U>, _>(
                DispatchError::NoHandler(Transport::Unistream, id),
            )
            &&& there && bi_streams.contains_key(id) ==> bi == Ok::<_, DispatchError>(
                bi_streams[id],
            )
            &&& there && !bi_streams.contains_key(id) ==> bi == Err::<Handler<B>, _>(
                DispatchError::NoHandler(Transport::Bistream, id),
            )
            &&& !there ==> {
                &&& state.world_of(user) is None
                &&& datagram == Err::<Handler<D>, _>(DispatchError::NoPlayerWorld)
                &&& uni == Err::<Handler<U>, _>(DispatchError::NoPlayerWorld)
                &&& bi == Err::<Handler<B>, _>(DispatchError::NoPlayerWorld)
            }
        }),
{
}

/// Other instances and other players have no part in it: two servers that agree on where a player
/// is, and on the instance there, handle what the player sends in the same way.
pub proof fn only_the_own_instance_counts<D, U, B>(
    one: ServerState<D, U, B>,
    other: ServerState<D, U, B>,
    user: Seq<char>,
    id: u32,
)
    requires
        one.players@.contains_key(user),
        other.players@.contains_key(user),
        one.players@[user].place() == other.players@[user].place(),
        one.instances@.contains_key(one.players@[user].place()) == other.instances@.contains_key(
            one.players@[user].place(),
        ),
        one.instances@[one.players@[user].place()] == other.instances@[one.players@[user].place()],
    ensures
        routed(one.datagram_handlers_of(user), Transport::Datagram, id) == routed(
            other.datagram_handlers_of(user),
            Transport::Datagram,
            id,
        ),
        routed(one.uni_stream_handlers_of(user), Transport::Unistream, id) == routed(
            other.uni_stream_handlers_of(user),
            Transport::Unistream,
            id,
        ),
        routed(one.bi_stream_handlers_of(user), Transport::Bistream, id) == routed(
            other.bi_stream_handlers_of(user),
            Transport::Bistream,
            id,
        ),
{
    players_are_handled_where_they_are(one, user, id);
    players_are_handled_where_they_are(other, user, id);
}

/// The text of an error names how something was sent and the id that has no handler, or says that
/// the player is in no world, or how many bytes were needed and how many there were.
pub proof fn errors_say_what_is_missing(id: u32, cause: bytes::TryGetError)
    ensures
        DispatchError::Truncated(cause).text()
            == "Not enough bytes remaining in buffer to read value (requested "@ + decimal(
            shortage(cause).0,
        ) + " but only "@ + decimal(shortage(cause).1) + " available)"@,
        DispatchError::NoPlayerWorld.text() == "Failed to get player world"@,
        DispatchError::NoHandler(Transport::Datagram, id).text() == "No handler for datagram "@
            + decimal(id as nat),
        DispatchError::NoHandler(Transport::Unistream, id).text() == "No handler for unistream "@
            + decimal(id as nat),
        DispatchError::NoHandler(Transport::Bistream, id).text() == "No handler for bistream "@
            + decimal(id as nat),
{
    reveal_strlit("No handler for ");
    reveal_strlit(" ");
    reveal_strlit("datagram");
    reveal_strlit("unistream");
    reveal_strlit("bistream");
    reveal_strlit("No handler for datagram ");
    reveal_strlit("No handler for unistream ");
    reveal_strlit("No handler for bistream ");
    assert("No handler for "@ + "datagram"@ + " "@ =~= "No handler for datagram "@);
    assert("No handler for "@ + "unistream"@ + " "@ =~= "No handler for unistream "@);
    assert("No handler for "@ + "bistream"@ + " "@ =~= "No handler for bistream "@);
}

} // verus!

//! The channel over which the server tells a connection handler something, and random ids.
use vstd::prelude::*;

verus! {

/// What the server tells the handler of a connection.
#[derive(Clone, Copy, PartialEq, Eq, Structural, Debug)]
pub enum ServerPush {
    /// The connection is to be closed.
    Disconnect,
}

/// `flume::Sender`: one end of a channel, by which values are sent.
#[verifier::external_type_specification]
#[verifier::external_body]
#[verifier::reject_recursive_types(T)]
pub struct ExSender<T>(flume::Sender<T>);

/// `flume::Receiver`: the other end, by which they are received.
#[verifier::external_type_specification]
#[verifier::external_body]
#[verifier::reject_recursive_types(T)]
pub struct ExReceiver<T>(flume::Receiver<T>);

/// `flume::SendError`: what comes back where nobody can receive any more.
#[verifier::external_type_specification]
#[verifier::external_body]
#[verifier::reject_recursive_types(T)]
pub struct ExSendError<T>(flume::SendError<T>);

/// What has been handed to the channel through this end, in order.
pub uninterp spec fn pushed(control_tx: flume::Sender<ServerPush>) -> Seq<ServerPush>;

/// Whether the two are the ends of one channel.
pub uninterp spec fn linked(
    control_tx: flume::Sender<ServerPush>,
    control_rx: flume::Receiver<ServerPush>,
) -> bool;

/// `flume::unbounded`: the two ends of a new channel, through which nothing has been sent.
#[verifier::external_body]
pub(crate) fn control_channel() -> (ends: (flume::Sender<ServerPush>, flume::Receiver<ServerPush>))
    ensures
        pushed(ends.0) == Seq::<ServerPush>::empty(),
        linked(ends.0, ends.1),
{
    flume::unbounded()
}

/// `flume::Sender::send` on an unbounded channel: hands the value to the channel, without
/// blocking, and the end stays one of that channel. Where every receiver is gone, the value comes
/// back as an error. Whether a receiver is left depends on who else holds one, so nothing says
/// when that is the case.
#[verifier::external_body]
pub(crate) fn send_push(control_tx: &mut flume::Sender<ServerPush>, push: ServerPush) -> (r: Result<
    (),
    flume::SendError<ServerPush>,
>)
    ensures
        pushed(*final(control_tx)) == pushed(*old(control_tx)).push(push),
        forall|control_rx: flume::Receiver<ServerPush>|
            #[trigger] linked(*final(control_tx), control_rx) == linked(
                *old(control_tx),
                control_rx,
            ),
{
    control_tx.send(push)
}

/// `flume::Receiver::clone`: one more end of the same channel. What is sent comes out of one of
/// them only.
#[verifier::external_body]
pub(crate) fn clone_receiver(control_rx: &flume::Receiver<ServerPush>) -> (r: flume::Receiver<
    ServerPush,
>)
    ensures
        forall|control_tx: flume::Sender<ServerPush>|
            #[trigger] linked(control_tx, r) == linked(control_tx, *control_rx),
{
    control_rx.clone()
}

/// Whether `id` has the layout of a random identifier: a `4` in the place of the version and `10`
/// in the two bits of the variant.
pub open spec fn is_random_id(id: u128) -> bool {
    &&& (id >> 76u128) & 0xf == 4
    &&& (id >> 62u128) & 0x3 == 2
}

/// `uuid::Uuid::new_v4`, as a number: all bits but those of the version and the variant are
/// random.
#[verifier::external_body]
pub fn random_id() -> (id: u128)
    ensures
        is_random_id(id),
{
    uuid::Uuid::new_v4().as_u128()
}

} // verus!

//! Sending world diffs to a client.
use vstd::prelude::*;

verus! {

/// Takes what waits in a channel: `flume::Receiver::drain`, collected. What waits there, if
/// anything, depends on the senders, so nothing is claimed of it.
#[verifier::external_body]
pub fn take_waiting<T>(diffs_rx: &mut flume::Receiver<T>) -> Vec<T> {
    diffs_rx.drain().collect()
}

/// The diffs that are sent together: the one that was waited for, and after it those that came in
/// meanwhile, in order.
pub fn batch<T>(diff: T, waiting: Vec<T>) -> (diffs: Vec<T>)
    ensures
        diffs@ == seq![diff] + waiting@,
{
    let mut diffs: Vec<T> = Vec::new();
    let mut waiting = waiting;
    diffs.push(diff);
    diffs.append(&mut waiting);
    diffs
}

/// The diffs that are sent together: the one that was waited for, and after it all that wait in
/// the channel. It is one call of [`take_waiting`] that brings the channel from its state before to
/// its state after, so nothing is taken out of it that is not sent.
pub fn gather<T>(diff: T, diffs_rx: &mut flume::Receiver<T>) -> (diffs: Vec<T>)
    ensures
        exists|waiting: Vec<T>, channel: &mut flume::Receiver<T>|
            {
                &&& #[trigger] call_ensures(take_waiting::<T>, (channel,), waiting)
                &&& *channel == *old(diffs_rx)
                &&& *final(channel) == *final(diffs_rx)
                &&& diffs@ == seq![diff] + waiting@
            },
{
    // get all diffs waiting in the channel to clear the queue
    let take = take_waiting::<T>;
    let waiting = take(diffs_rx);
    batch(diff, waiting)
}

/// The message for diffs that are sent together: they are merged, then what the client knows is
/// left out, then the rest is serialized.
pub fn prepare<T, M, F, S>(
    diffs: Vec<T>,
    merge: impl FnOnce(Vec<T>) -> M,
    deduplicate: impl FnOnce(M) -> F,
    serialize: impl FnOnce(F) -> S,
) -> (message: S)
    requires
        call_requires(merge, (diffs,)),
        forall|merged: M| #[trigger]
            call_ensures(merge, (diffs,), merged) ==> call_requires(deduplicate, (merged,)),
        forall|merged: M, rest: F| #[trigger]
            call_ensures(deduplicate, (merged,), rest) ==> call_requires(serialize, (rest,)),
    ensures
        exists|merged: M, rest: F|
            {
                &&& call_ensures(merge, (diffs,), merged)
                &&& #[trigger] call_ensures(deduplicate, (merged,), rest)
                &&& call_ensures(serialize, (rest,), message)
            },
{
    let merged = merge(diffs);
    let rest = deduplicate(merged);
    let message = serialize(rest);
    assert(call_ensures(deduplicate, (merged,), rest));
    message
}

/// What the sending of diffs waits for.
#[derive(Clone, Copy, PartialEq, Eq, Structural, Debug)]
pub enum DiffSender {
    /// The next diff.
    Receiving,
    /// That a message has been sent.
    Sending,
    /// Nothing any more.
    Stopped,
}

/// What happens while diffs are sent.
pub enum DiffEvent<T> {
    /// Diffs came in.
    Received(Vec<T>),
    /// No diff can come in any more.
    Closed,
    /// The message has been sent.
    Sent,
    /// The message could not be sent.
    Failed,
}

/// What is to be done next.
pub enum DiffAction<T> {
    /// Wait for the next diff.
    Receive,
    /// Merge the diffs, leave out what the client knows, and send the rest as one message.
    Send(Vec<T>),
    /// Stop.
    Stop,
}

/// An event, with the diffs as a sequence.
pub enum DiffInput<T> {
    Received(Seq<T>),
    Closed,
    Sent,
    Failed,
}

impl<T> View for DiffEvent<T> {
    type V = DiffInput<T>;

    open spec fn view(&self) -> DiffInput<T> {
        match self {
            DiffEvent::Received(diffs) => DiffInput::Received(diffs@),
            DiffEvent::Closed => DiffInput::Closed,
            DiffEvent::Sent => DiffInput::Sent,
            DiffEvent::Failed => DiffInput::Failed,
        }
    }
}

/// An action, with the diffs as a sequence.
pub enum DiffOutput<T> {
    Receive,
    Send(Seq<T>),
    Stop,
}

impl<T> View for DiffAction<T> {
    type V = DiffOutput<T>;

    open spec fn view(&self) -> DiffOutput<T> {
        match self {
            DiffAction::Receive => DiffOutput::Receive,
            DiffAction::Send(diffs) => DiffOutput::Send(diffs@),
            DiffAction::Stop => DiffOutput::Stop,
        }
    }
}

/// Whether an event can happen in a state.
pub open spec fn can_happen<T>(state: DiffSender, input: DiffInput<T>) -> bool {
    match state {
        DiffSender::Receiving => input is Received || input is Closed,
        DiffSender::Sending => input is Sent || input is Failed,
        DiffSender::Stopped => true,
    }
}

/// The state that follows, and what is to be done.
pub open spec fn followed<T>(state: DiffSender, input: DiffInput<T>) -> (
    DiffSender,
    DiffOutput<T>,
) {
    match (state, input) {
        (DiffSender::Receiving, DiffInput::Received(diffs)) => (
            DiffSender::Sending,
            DiffOutput::Send(diffs),
        ),
        (DiffSender::Sending, DiffInput::Sent) => (DiffSender::Receiving, DiffOutput::Receive),
        _ => (DiffSender::Stopped, DiffOutput::Stop),
    }
}

impl DiffSender {
    /// The state that follows, and what is to be done.
    pub fn next<T>(&mut self, event: DiffEvent<T>) -> (action: DiffAction<T>)
        requires
            can_happen(*old(self), event@),
        ensures
            followed(*old(self), event@) == (*final(self), action@),
    {
        match (*self, event) {
            (DiffSender::Receiving, DiffEvent::Received(diffs)) => {
                *self = DiffSender::Sending;
                DiffAction::Send(diffs)
            },
            (DiffSender::Sending, DiffEvent::Sent) => {
                *self = DiffSender::Receiving;
                DiffAction::Receive
            },
            _ => {
                *self = DiffSender::Stopped;
                DiffAction::Stop
            },
        }
    }
}

// -------------------------------------------------------------------------------------------
// Laws

/// The diffs that came in, in order.
pub open spec fn received<T>(inputs: Seq<DiffInput<T>>) -> Seq<T>
    decreases inputs.len(),
{
    if inputs.len() == 0 {
        seq![]
    } else {
        match inputs.last() {
            DiffInput::Received(diffs) => received(inputs.drop_last()) + diffs,
            _ => received(inputs.drop_last()),
        }
    }
}

/// The state after some events.
pub open spec fn state_after<T>(inputs: Seq<DiffInput<T>>) -> DiffSender
    decreases inputs.len(),
{
    if inputs.len() == 0 {
        DiffSender::Receiving
    } else {
        followed(state_after(inputs.drop_last()), inputs.last()).0
    }
}

/// The diffs that were to be sent during some events, in order.
pub open spec fn sent<T>(inputs: Seq<DiffInput<T>>) -> Seq<T>
    decreases inputs.len(),
{
    if inputs.len() == 0 {
        seq![]
    } else {
        match followed(state_after(inputs.drop_last()), inputs.last()).1 {
            DiffOutput::Send(diffs) => sent(inputs.drop_last()) + diffs,
            _ => sent(inputs.drop_last()),
        }
    }
}

/// Whether each of the events can happen when it happens, and none happens after the end.
pub open spec fn is_run<T>(inputs: Seq<DiffInput<T>>) -> bool
    decreases inputs.len(),
{
    inputs.len() > 0 ==> {
        &&& is_run(inputs.drop_last())
        &&& state_after(inputs.drop_last()) !is Stopped
        &&& can_happen(state_after(inputs.drop_last()), inputs.last())
    }
}

/// No diff is lost, sent twice or sent out of order: what is sent is what came in.
pub proof fn every_diff_is_sent_in_order<T>(inputs: Seq<DiffInput<T>>)
    requires
        is_run(inputs),
    ensures
        sent(inputs) == received(inputs),
    decreases inputs.len(),
{
    if inputs.len() > 0 {
        every_diff_is_sent_in_order(inputs.drop_last());
    }
}

/// After a message could not be sent, and after the last diff, nothing is sent any more.
pub proof fn the_end_is_final<T>(state: DiffSender, input: DiffInput<T>, next: DiffInput<T>)
    requires
        can_happen(state, input),
        input is Failed || input is Closed,
    ensures
        followed(state, input) == (DiffSender::Stopped, DiffOutput::<T>::Stop),
        followed(DiffSender::Stopped, next) == (DiffSender::Stopped, DiffOutput::<T>::Stop),
{
}

/// Diffs that come in are what is to be sent next, all of them and in order; a message that has been
/// sent is followed by waiting for the next diffs. Events and actions hold the diffs that they are
/// made of.
pub proof fn diffs_are_sent_as_they_come_in<T>(diffs: Vec<T>)
    ensures
        followed(DiffSender::Receiving, DiffEvent::Received(diffs)@) == (
            DiffSender::Sending,
            DiffOutput::Send(diffs@),
        ),
        followed(DiffSender::Sending, DiffEvent::<T>::Sent@) == (
            DiffSender::Receiving,
            DiffOutput::<T>::Receive,
        ),
        followed(DiffSender::Sending, DiffEvent::<T>::Failed@).0 is Stopped,
        followed(DiffSender::Receiving, DiffEvent::<T>::Closed@).0 is Stopped,
        DiffAction::Send(diffs)@ == DiffOutput::Send(diffs@),
        DiffAction::<T>::Receive@ is Receive,
        DiffAction::<T>::Stop@ is Stop,
{
}

} // verus!

//! The command channel: a bounded single-producer single-consumer ring buffer
//! that never blocks on either side.
//!
//! The ring buffer is `rtrb`'s. Its two ends are owned separately, the
//! producer by the notification path and the consumer by the audio thread, so
//! nothing stated here of one end depends on what the other end's owner does
//! in the meantime.

use vstd::prelude::*;
use crate::command::{Command, GraphOp};

verus! {

#[verifier::external_type_specification]
#[verifier::external_body]
#[verifier::reject_recursive_types(T)]
pub struct ExProducer<T>(rtrb::Producer<T>);

#[verifier::external_type_specification]
#[verifier::external_body]
#[verifier::reject_recursive_types(T)]
pub struct ExConsumer<T>(rtrb::Consumer<T>);

/// The commands that a producer has written and not yet seen consumed, oldest
/// first.
///
/// A producer keeps its own copy of the ring's read position and refreshes it
/// from the shared one only when, by that copy, the ring is full. The backlog
/// is what lies between that copy and the write position.
pub uninterp spec fn producer_backlog(tx: rtrb::Producer<Command>) -> Seq<GraphOp>;

/// The number of slots of the ring buffer that a producer writes to.
pub uninterp spec fn producer_capacity(tx: rtrb::Producer<Command>) -> nat;

/// The commands that a consumer has seen written and not yet read, oldest
/// first.
///
/// A consumer keeps its own copy of the ring's write position and refreshes it
/// from the shared one only when, by that copy, the ring is empty. The inbox is
/// what lies between the read position and that copy.
pub uninterp spec fn consumer_inbox(rx: rtrb::Consumer<Command>) -> Seq<GraphOp>;

/// The capacity of the channel between the notification handler and the audio
/// callback.
pub const COMMAND_CAPACITY: usize = 512;

/// The largest capacity that a channel is made with.
pub const MAX_CAPACITY: usize = 65536;

/// `rtrb::RingBuffer::new` followed by `rtrb::RingBuffer::split`: a new ring
/// buffer with `capacity` slots, as its two ends. Nothing has been written yet,
/// so the producer's backlog is empty. The bound keeps the allocation of the
/// slots within what `Vec::with_capacity` accepts.
#[verifier::external_body]
pub(crate) fn ring_with_capacity(capacity: usize) -> (ends: (rtrb::Producer<Command>, rtrb::Consumer<Command>))
    requires
        capacity <= MAX_CAPACITY,
    ensures
        producer_backlog(ends.0) == Seq::<GraphOp>::empty(),
        producer_capacity(ends.0) == capacity,
{
    rtrb::RingBuffer::new(capacity).split()
}

/// `rtrb::Producer::push`, with `true` for `Ok` and `false` for `Full`. While
/// the backlog is below the capacity the push is accepted without a look at the
/// consumer, and the command joins the backlog. A push that is refused changes
/// nothing. A push onto a full backlog may be accepted, where the consumer has
/// read in the meantime: of the backlog after it nothing is stated.
#[verifier::external_body]
fn ring_push(tx: &mut rtrb::Producer<Command>, command: Command) -> (accepted: bool)
    ensures
        producer_capacity(*final(tx)) == producer_capacity(*old(tx)),
        producer_backlog(*old(tx)).len() < producer_capacity(*old(tx)) ==> accepted
            && producer_backlog(*final(tx)) == producer_backlog(*old(tx)).push(command@),
        !accepted ==> producer_backlog(*final(tx)) == producer_backlog(*old(tx)),
{
    tx.push(command).is_ok()
}

/// `rtrb::Consumer::pop`, with `None` for `Empty`. While the inbox holds a
/// command, the oldest one comes out without a look at the producer, and leaves
/// the inbox. Nothing comes out only where the inbox was empty and a look at
/// the producer found nothing new, so that the inbox is empty afterwards too.
/// Where the inbox was empty and something comes out, the producer's owner has
/// written it in the meantime: of that command, and of the inbox after it,
/// nothing is stated.
#[verifier::external_body]
fn ring_pop(rx: &mut rtrb::Consumer<Command>) -> (command: Option<Command>)
    ensures
        consumer_inbox(*old(rx)).len() > 0 ==> command is Some && command->Some_0@
            == consumer_inbox(*old(rx))[0] && consumer_inbox(*final(rx)) == consumer_inbox(
            *old(rx),
        ).drop_first(),
        command is None ==> consumer_inbox(*old(rx)).len() == 0 && consumer_inbox(
            *final(rx),
        ).len() == 0,
{
    rx.pop().ok()
}

/// Makes a channel with `capacity` slots and hands out its two ends, or `None`
/// where `capacity` is above `MAX_CAPACITY`.
pub fn command_channel(capacity: usize) -> (ends: Option<(rtrb::Producer<Command>, rtrb::Consumer<Command>)>)
    ensures
        ends is Some <==> capacity <= MAX_CAPACITY,
        ends matches Some(e) ==> producer_backlog(e.0) == Seq::<GraphOp>::empty()
            && producer_capacity(e.0) == capacity,
{
    if capacity <= MAX_CAPACITY {
        Some(ring_with_capacity(capacity))
    } else {
        None
    }
}

/// Offers `command` to the channel without blocking. Returns whether it was
/// accepted; a command that is not accepted is dropped.
pub fn try_push(tx: &mut rtrb::Producer<Command>, command: Command) -> (accepted: bool)
    ensures
        producer_capacity(*final(tx)) == producer_capacity(*old(tx)),
        producer_backlog(*old(tx)).len() < producer_capacity(*old(tx)) ==> accepted
            && producer_backlog(*final(tx)) == producer_backlog(*old(tx)).push(command@),
        !accepted ==> producer_backlog(*final(tx)) == producer_backlog(*old(tx)),
{
    ring_push(tx, command)
}

/// Takes the oldest command out of the channel without blocking, or returns
/// `None` where the consumer finds the channel empty.
///
/// What the consumer has already seen written comes out in the order in which
/// it was written, whatever the producer does. `None` is returned only where
/// nothing that the consumer has seen is left unread.
pub fn try_pop(rx: &mut rtrb::Consumer<Command>) -> (command: Option<Command>)
    ensures
        consumer_inbox(*old(rx)).len() > 0 ==> command is Some && command->Some_0@
            == consumer_inbox(*old(rx))[0] && consumer_inbox(*final(rx)) == consumer_inbox(
            *old(rx),
        ).drop_first(),
        command is None ==> consumer_inbox(*old(rx)).len() == 0 && consumer_inbox(
            *final(rx),
        ).len() == 0,
{
    ring_pop(rx)
}

} // verus!

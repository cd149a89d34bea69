//! The bounded channels of `futures_channel` that connect the callers of a
//! client with its background task.
//!
//! What a channel holds at a moment is shared with the task at its other end,
//! so whether a value is taken is left open, but for what a full channel shows.

use crate::types::{FrontToBack, Notifs, Sink};
use futures_channel::mpsc;
use serde_json::Value;
use vstd::prelude::*;

verus! {

/// Declares `futures_channel::mpsc::Sender`.
#[verifier::external_type_specification]
#[verifier::external_body]
#[verifier::reject_recursive_types(T)]
pub struct ExMpscSender<T>(mpsc::Sender<T>);

/// Declares `futures_channel::mpsc::Receiver`.
#[verifier::external_type_specification]
#[verifier::external_body]
#[verifier::reject_recursive_types(T)]
pub struct ExMpscReceiver<T>(mpsc::Receiver<T>);

/// The buffer size that the channel of `sink` was made with.
pub uninterp spec fn sink_buffer(sink: mpsc::Sender<Value>) -> nat;

/// Whether `sink` and `notifs` are the ends of one channel: what
/// `mpsc::Sender::is_connected_to` returns for them.
pub uninterp spec fn sink_feeds(
    sink: mpsc::Sender<Value>,
    notifs: mpsc::Receiver<Value>,
) -> bool;

/// What became of a value that was put into a channel.
#[derive(Debug, Clone, Copy, PartialEq, Eq, Structural)]
pub enum Uptake {
    /// The channel took it.
    Taken,
    /// The channel was full.
    Full,
    /// The channel was closed, or its receiving end is gone.
    Gone,
}

/// The values that were put into the channel through `sink` so far, in order,
/// each with what became of it.
pub uninterp spec fn sink_tried(sink: mpsc::Sender<Value>) -> Seq<(Value, Uptake)>;

/// Whether the channel has no sender but `sink`, and nothing was put into it but
/// what [`sink_tried`] says.
pub uninterp spec fn sink_alone(sink: mpsc::Sender<Value>) -> bool;

/// The values among `tried` that were taken, in order.
pub open spec fn taken(tried: Seq<(Value, Uptake)>) -> Seq<Value>
    decreases tried.len(),
{
    if tried.len() == 0 {
        seq![]
    } else if tried.last().1 is Taken {
        taken(tried.drop_last()).push(tried.last().0)
    } else {
        taken(tried.drop_last())
    }
}

/// The values that the channel has taken from `sink` so far, in order.
pub open spec fn sink_taken(sink: mpsc::Sender<Value>) -> Seq<Value> {
    taken(sink_tried(sink))
}

/// What has been taken once one more value was put into a channel.
pub proof fn lemma_taken_push(tried: Seq<(Value, Uptake)>, value: Value, uptake: Uptake)
    ensures
        taken(tried.push((value, uptake))) == if uptake is Taken {
            taken(tried).push(value)
        } else {
            taken(tried)
        },
{
    assert(tried.push((value, uptake)).drop_last() =~= tried);
}

/// The buffer size that the channel of `sender` was made with.
pub uninterp spec fn front_buffer(sender: mpsc::Sender<FrontToBack>) -> nat;

/// Whether `sender` and `receiver` are the ends of one channel: what
/// `mpsc::Sender::is_connected_to` returns for them.
pub uninterp spec fn front_feeds(
    sender: mpsc::Sender<FrontToBack>,
    receiver: mpsc::Receiver<FrontToBack>,
) -> bool;

/// Whether the channel was closed through `sender`.
pub uninterp spec fn front_shut(sender: mpsc::Sender<FrontToBack>) -> bool;

/// Whether a bounded channel can be made with this buffer size.
/// `mpsc::channel` panics on a larger one.
pub open spec fn buffer_fits(buffer: usize) -> bool {
    buffer < usize::MAX / 4
}

/// Whether a bounded channel can be made with this buffer size.
pub fn is_buffer_size(buffer: usize) -> (r: bool)
    ensures
        r == buffer_fits(buffer),
{
    buffer < usize::MAX / 4
}

/// Calls `mpsc::channel` for notifications: a channel with that buffer size,
/// and its two ends. Nothing has been put into it, and there is one sender.
#[verifier::external_body]
pub(crate) fn notification_channel(buffer: usize) -> (r: (Sink, Notifs))
    requires
        buffer_fits(buffer),
    ensures
        sink_buffer(r.0) == buffer,
        sink_feeds(r.0, r.1),
        sink_tried(r.0) == Seq::<(Value, Uptake)>::empty(),
        sink_alone(r.0),
{
    mpsc::channel(buffer)
}

/// Calls `mpsc::channel` for messages to the background task: a channel with
/// that buffer size, and its two ends. Nobody has closed it.
#[verifier::external_body]
pub(crate) fn front_channel(buffer: usize) -> (r: (
    mpsc::Sender<FrontToBack>,
    mpsc::Receiver<FrontToBack>,
))
    requires
        buffer_fits(buffer),
    ensures
        front_buffer(r.0) == buffer,
        front_feeds(r.0, r.1),
        !front_shut(r.0),
{
    mpsc::channel(buffer)
}

/// Calls `mpsc::Sender::try_send`: queues `value`, or drops it when the channel
/// is full or closed. A channel whose only sender is `sink` is full only once
/// it has taken more values than its buffer size. The sender stays the end of
/// the channel that it was. When the channel has room again, and whether it is
/// closed, the receiving end decides, and nothing more is stated.
#[verifier::external_body]
pub(crate) fn push(sink: &mut Sink, value: Value) -> (r: Uptake)
    ensures
        sink_tried(*final(sink)) == sink_tried(*old(sink)).push((value, r)),
        r is Full && sink_alone(*old(sink)) ==> sink_taken(*old(sink)).len() > sink_buffer(
            *old(sink),
        ),
        sink_alone(*final(sink)) == sink_alone(*old(sink)),
        sink_buffer(*final(sink)) == sink_buffer(*old(sink)),
        forall|notifs: Notifs|
            #![auto]
            sink_feeds(*final(sink), notifs) == sink_feeds(*old(sink), notifs),
{
    match sink.try_send(value) {
        Ok(()) => Uptake::Taken,
        Err(error) if error.is_full() => Uptake::Full,
        Err(_) => Uptake::Gone,
    }
}

/// Calls `mpsc::Sender::close_channel`, after which the channel stays closed.
/// The sender stays the end of the channel that it was.
#[verifier::external_body]
pub(crate) fn shut(sender: &mut mpsc::Sender<FrontToBack>)
    ensures
        front_shut(*final(sender)),
        front_buffer(*final(sender)) == front_buffer(*old(sender)),
        forall|receiver: mpsc::Receiver<FrontToBack>|
            #![auto]
            front_feeds(*final(sender), receiver) == front_feeds(*old(sender), receiver),
{
    sender.close_channel()
}

/// Calls `mpsc::Sender::is_closed`: whether the channel is closed at this
/// moment. It is once it was closed through this sender; otherwise the other
/// end decides, and nothing is stated.
#[verifier::external_body]
fn is_shut(sender: &mpsc::Sender<FrontToBack>) -> (r: bool)
    ensures
        front_shut(*sender) ==> r,
{
    sender.is_closed()
}

/// Whether `mpsc::Sender::is_closed` was asked of `sender` and said `closed`.
pub closed spec fn said_closed(sender: mpsc::Sender<FrontToBack>, closed: bool) -> bool {
    call_ensures(is_shut, (&sender,), closed)
}

/// Asks whether the channel is closed.
pub(crate) fn ask_closed(sender: &mpsc::Sender<FrontToBack>) -> (r: bool)
    ensures
        said_closed(*sender, r),
        front_shut(*sender) ==> r,
{
    is_shut(sender)
}

/// What was said of a channel is what `mpsc::Sender::is_closed` returned.
proof fn said_means_asked(sender: mpsc::Sender<FrontToBack>, closed: bool)
    ensures
        said_closed(sender, closed) ==> call_ensures(is_shut, (&sender,), closed),
        said_closed(sender, closed) && front_shut(sender) ==> closed,
{
}

} // verus!

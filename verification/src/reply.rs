//! The oneshot channels of `futures_channel`, through which the background task
//! answers.
//!
//! A oneshot channel carries one value at most. For each type of value there is
//! a name for what is sent at one end and a name for what comes out at the
//! other; the two are the same when the ends belong together. Whether the other
//! end is still there to take the value is left open throughout.

use crate::error::ClientError;
use crate::types::{
    BatchAnswer, BatchReply, CallAnswer, CallReply, MethodAnswer, MethodReply, SubscriptionAnswer,
    SubscriptionReply,
};
use futures_channel::oneshot;
use vstd::prelude::*;

verus! {

/// Declares `futures_channel::oneshot::Sender`.
#[verifier::external_type_specification]
#[verifier::external_body]
#[verifier::reject_recursive_types(T)]
pub struct ExOneshotSender<T>(oneshot::Sender<T>);

/// Declares `futures_channel::oneshot::Receiver`.
#[verifier::external_type_specification]
#[verifier::external_body]
#[verifier::reject_recursive_types(T)]
pub struct ExOneshotReceiver<T>(oneshot::Receiver<T>);

/// Declares `futures_channel::oneshot::Canceled`.
#[verifier::external_type_specification]
#[verifier::external_body]
pub struct ExCanceled(oneshot::Canceled);

/// What is sent through `sender` as the answer to a method call, if anything
/// is.
pub uninterp spec fn call_carries(sender: CallReply) -> CallAnswer;

/// What comes out at `receiver` as the answer to a method call, if anything
/// does.
pub uninterp spec fn call_arrives(receiver: oneshot::Receiver<CallAnswer>) -> CallAnswer;

/// What is sent through `sender` as the answer to a batch, if anything is.
pub uninterp spec fn batch_carries(sender: BatchReply) -> BatchAnswer;

/// What comes out at `receiver` as the answer to a batch, if anything does.
pub uninterp spec fn batch_arrives(receiver: oneshot::Receiver<BatchAnswer>) -> BatchAnswer;

/// What is sent through `sender` as the answer to a subscription request, if
/// anything is.
pub uninterp spec fn subscription_carries(sender: SubscriptionReply) -> SubscriptionAnswer;

/// What comes out at `receiver` as the answer to a subscription request, if
/// anything does.
pub uninterp spec fn subscription_arrives(
    receiver: oneshot::Receiver<SubscriptionAnswer>,
) -> SubscriptionAnswer;

/// What is sent through `sender` as the answer to the registration of a
/// handler, if anything is.
pub uninterp spec fn method_carries(sender: MethodReply) -> MethodAnswer;

/// What comes out at `receiver` as the answer to the registration of a handler,
/// if anything does.
pub uninterp spec fn method_arrives(receiver: oneshot::Receiver<MethodAnswer>) -> MethodAnswer;

/// What is sent through `sender` as the reason why the background task ends, if
/// anything is.
pub uninterp spec fn reason_carries(sender: oneshot::Sender<ClientError>) -> ClientError;

/// What comes out at `receiver` as the reason why the background task ends, if
/// anything does.
pub uninterp spec fn reason_arrives(receiver: oneshot::Receiver<ClientError>) -> ClientError;

/// Calls `oneshot::channel` for the answer to a method call: two ends of one
/// channel, so that what is sent at one comes out at the other.
#[verifier::external_body]
pub(crate) fn call_channel() -> (r: (CallReply, oneshot::Receiver<CallAnswer>))
    ensures
        call_carries(r.0) == call_arrives(r.1),
{
    oneshot::channel()
}

/// Calls `oneshot::Sender::send` with the answer to a method call: sends
/// `value`, and gives it back when the receiving end is gone. Whether that end
/// is gone is not stated.
#[verifier::external_body]
fn answer_call(sender: CallReply, value: CallAnswer) -> (r: Result<(), CallAnswer>)
    ensures
        match r {
            Ok(()) => call_carries(sender) == value,
            Err(back) => call_carries(sender) == value && back == value,
        },
{
    sender.send(value)
}

/// Whether `value` was sent through `sender` as the answer to a method call,
/// and whether the receiving end took it.
pub closed spec fn call_sent(sender: CallReply, value: CallAnswer, taken: bool) -> bool {
    exists|r: Result<(), CallAnswer>| #[trigger]
        call_ensures(answer_call, (sender, value), r) && taken == (r is Ok)
}

/// Sends the answer to a method call. Says whether the receiving end took it.
pub(crate) fn give_call(sender: CallReply, value: CallAnswer) -> (taken: bool)
    ensures
        call_carries(sender) == value,
        call_sent(sender, value, taken),
{
    answer_call(sender, value).is_ok()
}

/// Calls `oneshot::channel` for the answer to a batch: two ends of one channel,
/// so that what is sent at one comes out at the other.
#[verifier::external_body]
pub(crate) fn batch_channel() -> (r: (BatchReply, oneshot::Receiver<BatchAnswer>))
    ensures
        batch_carries(r.0) == batch_arrives(r.1),
{
    oneshot::channel()
}

/// Calls `oneshot::Sender::send` with the answer to a batch: sends `value`, and
/// gives it back when the receiving end is gone. Whether that end is gone is
/// not stated.
#[verifier::external_body]
fn answer_batch(sender: BatchReply, value: BatchAnswer) -> (r: Result<(), BatchAnswer>)
    ensures
        match r {
            Ok(()) => batch_carries(sender) == value,
            Err(back) => batch_carries(sender) == value && back == value,
        },
{
    sender.send(value)
}

/// Whether `value` was sent through `sender` as the answer to a batch, and
/// whether the receiving end took it.
pub closed spec fn batch_sent(sender: BatchReply, value: BatchAnswer, taken: bool) -> bool {
    exists|r: Result<(), BatchAnswer>| #[trigger]
        call_ensures(answer_batch, (sender, value), r) && taken == (r is Ok)
}

/// Sends the answer to a batch. Says whether the receiving end took it.
pub(crate) fn give_batch(sender: BatchReply, value: BatchAnswer) -> (taken: bool)
    ensures
        batch_carries(sender) == value,
        batch_sent(sender, value, taken),
{
    answer_batch(sender, value).is_ok()
}

/// Calls `oneshot::channel` for the answer to a subscription request: two ends
/// of one channel, so that what is sent at one comes out at the other.
#[verifier::external_body]
pub(crate) fn subscription_channel() -> (r: (
    SubscriptionReply,
    oneshot::Receiver<SubscriptionAnswer>,
))
    ensures
        subscription_carries(r.0) == subscription_arrives(r.1),
{
    oneshot::channel()
}

/// Calls `oneshot::Sender::send` with the answer to a subscription request:
/// sends `value`, and gives it back when the receiving end is gone. Whether
/// that end is gone is not stated.
#[verifier::external_body]
fn answer_subscription(sender: SubscriptionReply, value: SubscriptionAnswer) -> (r: Result<
    (),
    SubscriptionAnswer,
>)
    ensures
        match r {
            Ok(()) => subscription_carries(sender) == value,
            Err(back) => subscription_carries(sender) == value && back == value,
        },
{
    sender.send(value)
}

/// Whether `value` was sent through `sender` as the answer to a subscription
/// request, and whether the receiving end took it.
pub closed spec fn subscription_sent(
    sender: SubscriptionReply,
    value: SubscriptionAnswer,
    taken: bool,
) -> bool {
    exists|r: Result<(), SubscriptionAnswer>| #[trigger]
        call_ensures(answer_subscription, (sender, value), r) && taken == (r is Ok)
}

/// Sends the answer to a subscription request. Says whether the receiving end
/// took it.
pub(crate) fn give_subscription(
    sender: SubscriptionReply,
    value: SubscriptionAnswer,
) -> (taken: bool)
    ensures
        subscription_carries(sender) == value,
        subscription_sent(sender, value, taken),
{
    answer_subscription(sender, value).is_ok()
}

/// Calls `oneshot::channel` for the answer to the registration of a handler:
/// two ends of one channel, so that what is sent at one comes out at the other.
#[verifier::external_body]
pub(crate) fn method_channel() -> (r: (MethodReply, oneshot::Receiver<MethodAnswer>))
    ensures
        method_carries(r.0) == method_arrives(r.1),
{
    oneshot::channel()
}

/// Calls `oneshot::Sender::send` with the answer to the registration of a
/// handler: sends `value`, and gives it back when the receiving end is gone.
/// Whether that end is gone is not stated.
#[verifier::external_body]
fn answer_registration(sender: MethodReply, value: MethodAnswer) -> (r: Result<(), MethodAnswer>)
    ensures
        match r {
            Ok(()) => method_carries(sender) == value,
            Err(back) => method_carries(sender) == value && back == value,
        },
{
    sender.send(value)
}

/// Whether `value` was sent through `sender` as the answer to the registration
/// of a handler, and whether the receiving end took it.
pub closed spec fn method_sent(sender: MethodReply, value: MethodAnswer, taken: bool) -> bool {
    exists|r: Result<(), MethodAnswer>| #[trigger]
        call_ensures(answer_registration, (sender, value), r) && taken == (r is Ok)
}

/// Sends the answer to the registration of a handler. Says whether the
/// receiving end took it.
pub(crate) fn give_registration(sender: MethodReply, value: MethodAnswer) -> (taken: bool)
    ensures
        method_carries(sender) == value,
        method_sent(sender, value, taken),
{
    answer_registration(sender, value).is_ok()
}

/// Calls `oneshot::channel` for the reason why the background task ends: two
/// ends of one channel, so that what is sent at one comes out at the other.
#[verifier::external_body]
pub(crate) fn reason_channel() -> (r: (
    oneshot::Sender<ClientError>,
    oneshot::Receiver<ClientError>,
))
    ensures
        reason_carries(r.0) == reason_arrives(r.1),
{
    oneshot::channel()
}

/// Calls `oneshot::Sender::send` with the reason why the background task ends:
/// sends `value`, and gives it back when the receiving end is gone. Whether
/// that end is gone is not stated.
#[verifier::external_body]
fn send_reason(sender: oneshot::Sender<ClientError>, value: ClientError) -> (r: Result<
    (),
    ClientError,
>)
    ensures
        match r {
            Ok(()) => reason_carries(sender) == value,
            Err(back) => reason_carries(sender) == value && back == value,
        },
{
    sender.send(value)
}

/// Whether `value` was sent through `sender` as the reason why the background
/// task ends, and whether the receiving end took it.
pub closed spec fn reason_sent(
    sender: oneshot::Sender<ClientError>,
    value: ClientError,
    taken: bool,
) -> bool {
    exists|r: Result<(), ClientError>| #[trigger]
        call_ensures(send_reason, (sender, value), r) && taken == (r is Ok)
}

/// Sends the reason why the background task ends. Gives it back when the
/// receiving end did not take it.
pub(crate) fn give_reason(sender: oneshot::Sender<ClientError>, value: ClientError) -> (r: Result<
    (),
    ClientError,
>)
    ensures
        reason_carries(sender) == value,
        reason_sent(sender, value, r is Ok),
        r matches Err(back) ==> back == value,
{
    send_reason(sender, value)
}

/// Whatever counts as sent was handed to `oneshot::Sender::send`, and counts as
/// taken just if `send` said so.
proof fn sent_means_sent(
    call: (CallReply, CallAnswer),
    batch: (BatchReply, BatchAnswer),
    subscription: (SubscriptionReply, SubscriptionAnswer),
    method: (MethodReply, MethodAnswer),
    reason: (oneshot::Sender<ClientError>, ClientError),
    taken: bool,
)
    ensures
        call_sent(call.0, call.1, taken) ==> exists|r: Result<(), CallAnswer>| #[trigger]
            call_ensures(answer_call, call, r) && taken == (r is Ok),
        call_sent(call.0, call.1, taken) ==> call_carries(call.0) == call.1,
        batch_sent(batch.0, batch.1, taken) ==> exists|r: Result<(), BatchAnswer>| #[trigger]
            call_ensures(answer_batch, batch, r) && taken == (r is Ok),
        batch_sent(batch.0, batch.1, taken) ==> batch_carries(batch.0) == batch.1,
        subscription_sent(subscription.0, subscription.1, taken) ==> exists|
            r: Result<(), SubscriptionAnswer>,
        | #[trigger]
            call_ensures(answer_subscription, subscription, r) && taken == (r is Ok),
        subscription_sent(subscription.0, subscription.1, taken) ==> subscription_carries(
            subscription.0,
        ) == subscription.1,
        method_sent(method.0, method.1, taken) ==> exists|r: Result<(), MethodAnswer>| #[trigger]
            call_ensures(answer_registration, method, r) && taken == (r is Ok),
        method_sent(method.0, method.1, taken) ==> method_carries(method.0) == method.1,
        reason_sent(reason.0, reason.1, taken) ==> exists|r: Result<(), ClientError>| #[trigger]
            call_ensures(send_reason, reason, r) && taken == (r is Ok),
        reason_sent(reason.0, reason.1, taken) ==> reason_carries(reason.0) == reason.1,
{
}

} // verus!

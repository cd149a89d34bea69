//! What each thing that the background task meets does to what the task keeps,
//! entry by entry, and what it has the task do.

use crate::action::{Action, Event, Incoming, Opening, Reply, Sent};
use crate::channel::{
    buffer_fits, lemma_taken_push, sink_alone, sink_buffer, sink_feeds, sink_taken, sink_tried,
    taken, Uptake,
};
use crate::decimal::decimal;
use crate::error::ClientError;
use crate::frame::request_text;
use crate::json::{json_null, json_str, json_string, json_u64};
use crate::manager::{offered, positions, Kind, ManagerState, PendingSubscription};
use crate::reply::{
    batch_carries, batch_sent, call_carries, call_sent, method_carries, method_sent,
    subscription_carries, subscription_sent,
};
use crate::step::{
    advance_step, can_be_pending, deliver_step, event_step, is_last_for, open_handler_step,
    open_subscription_step, reply_ids, sent_step,
};
use crate::types::{
    BatchMessage, CallReply, FrontToBack, Id, Notification, Notifs, RegisterNotificationMessage,
    RequestMessage, Response, RpcError, Sink, SubscriptionId, SubscriptionMessage,
    SubscriptionResponse,
};
use serde_json::Value;
use vstd::prelude::*;

verus! {

/// The reply to a pending call ends the call, and has its result handed to the
/// caller, if anybody waits for it.
pub proof fn reply_ends_the_call(
    before: ManagerState,
    id: u64,
    send_back: Option<CallReply>,
    response: Response,
    uptake: Uptake,
    action: Action,
    after: ManagerState,
)
    requires
        response.id == Id::Number(id),
        before.requests.contains_key(id),
        before.requests[id] == Kind::PendingMethodCall(send_back),
        event_step(before, Event::Message(Incoming::Single(response)), uptake, action, after),
    ensures
        send_back matches Some(sender) ==> action == Action::Deliver(
            Reply::Call { send_back: sender, result: Ok(response.result) },
        ),
        send_back is None ==> action is Wait,
        after == (ManagerState { requests: before.requests.remove(id), ..before }),
{
}

/// The report that a pending call has failed ends the call, and has the report
/// handed to the caller, if anybody waits for it.
pub proof fn failure_ends_the_call(
    before: ManagerState,
    id: u64,
    send_back: Option<CallReply>,
    error: RpcError,
    uptake: Uptake,
    action: Action,
    after: ManagerState,
)
    requires
        error.id == Id::Number(id),
        before.requests.contains_key(id),
        before.requests[id] == Kind::PendingMethodCall(send_back),
        event_step(before, Event::Message(Incoming::Failure(error)), uptake, action, after),
    ensures
        send_back matches Some(sender) ==> action == Action::Deliver(
            Reply::Call { send_back: sender, result: Err(ClientError::Request(error.message)) },
        ),
        send_back is None ==> action is Wait,
        after == (ManagerState { requests: before.requests.remove(id), ..before }),
{
}

/// The reply to a subscription request ends the request. The subscription goes
/// by the very ID that the server gave, a number or a string; without such an
/// ID the subscriber is told so.
pub proof fn confirmation_gives_the_subscription_id(
    before: ManagerState,
    id: u64,
    pending: PendingSubscription,
    response: Response,
    uptake: Uptake,
    action: Action,
    after: ManagerState,
)
    requires
        response.id == Id::Number(id),
        before.requests.contains_key(id),
        before.requests[id] == Kind::PendingSubscription(pending),
        event_step(before, Event::Message(Incoming::Single(response)), uptake, action, after),
    ensures
        json_u64(response.result) matches Some(number) ==> action == Action::OpenSubscription(
            Opening { id, subscription: SubscriptionId::Num(number), pending },
        ),
        json_u64(response.result) is None && json_str(response.result) is Some ==> (action matches
            Action::OpenSubscription(opening) && opening.id == id && opening.pending == pending
            && (opening.subscription matches SubscriptionId::Str(text) && text@ == json_str(
            response.result,
        )->0)),
        json_u64(response.result) is None && json_str(response.result) is None ==> action
            == Action::Deliver(
            Reply::NotSubscribed {
                send_back: pending.send_back,
                error: ClientError::InvalidSubscriptionId,
            },
        ),
        after == (ManagerState { requests: before.requests.remove(id), ..before }),
{
}

/// The report that a subscription request has failed ends the request, and has
/// the report handed to the subscriber.
pub proof fn failure_ends_the_subscription_request(
    before: ManagerState,
    id: u64,
    pending: PendingSubscription,
    error: RpcError,
    uptake: Uptake,
    action: Action,
    after: ManagerState,
)
    requires
        error.id == Id::Number(id),
        before.requests.contains_key(id),
        before.requests[id] == Kind::PendingSubscription(pending),
        event_step(before, Event::Message(Incoming::Failure(error)), uptake, action, after),
    ensures
        action == Action::Deliver(
            Reply::NotSubscribed {
                send_back: pending.send_back,
                error: ClientError::Request(error.message),
            },
        ),
        after == (ManagerState { requests: before.requests.remove(id), ..before }),
{
}

/// A reply or failure that answers nothing ends the task.
pub proof fn unknown_answer_ends_the_task(
    before: ManagerState,
    message: Incoming,
    id: Id,
    uptake: Uptake,
    action: Action,
    after: ManagerState,
)
    requires
        message matches Incoming::Single(response) ==> id == response.id,
        message matches Incoming::Failure(error) ==> id == error.id,
        message is Single || message is Failure,
        id matches Id::Number(number) ==> !before.requests.contains_key(number)
            || before.requests[number] is Subscription,
        event_step(before, Event::Message(message), uptake, action, after),
    ensures
        action == Action::Terminate(Some(ClientError::InvalidRequestId)),
        after == before,
{
}

/// The replies to a pending batch end the batch, and have as many results
/// handed to the caller. The result at a position is that of the last reply
/// whose ID has that position; a position that no reply has is left `null`.
pub proof fn replies_end_the_batch(
    before: ManagerState,
    ids: Seq<u64>,
    responses: Vec<Response>,
    uptake: Uptake,
    action: Action,
    after: ManagerState,
    position: int,
    last: int,
)
    requires
        ids.len() == responses@.len(),
        forall|i: int|
            0 <= i < ids.len() ==> (#[trigger] responses@[i]).id == Id::Number(ids[i]),
        before.batches.contains_key(ids.to_multiset()),
        event_step(before, Event::Message(Incoming::Batch(responses)), uptake, action, after),
        0 <= position < ids.len(),
        -1 <= last < ids.len(),
        last >= 0 ==> before.batches[ids.to_multiset()].order@[ids[last]] == position,
        forall|i: int|
            last < i < ids.len() ==> before.batches[ids.to_multiset()].order@[#[trigger] ids[i]]
                != position,
    ensures
        action matches Action::Deliver(Reply::Batch { send_back, result }) && send_back
            == before.batches[ids.to_multiset()].send_back && (result matches Ok(values)
            && values@.len() == responses@.len() && (if last >= 0 {
            values@[position] == responses@[last].result
        } else {
            json_null(values@[position])
        })),
        after == (ManagerState { batches: before.batches.remove(ids.to_multiset()), ..before }),
{
    let order = before.batches[ids.to_multiset()].order@;
    assert(reply_ids(responses@) =~= ids);
    if last >= 0 {
        assert(is_last_for(order, responses@, position, last));
    } else {
        assert forall|j: int| !is_last_for(order, responses@, position, j) by {
            if 0 <= j < ids.len() {
                assert(order[ids[j]] != position);
            }
        }
    }
}

/// The replies to an empty batch are no results.
pub proof fn empty_batch_gets_no_results(
    before: ManagerState,
    responses: Vec<Response>,
    uptake: Uptake,
    action: Action,
    after: ManagerState,
)
    requires
        responses@.len() == 0,
        before.batches.contains_key(Seq::<u64>::empty().to_multiset()),
        event_step(before, Event::Message(Incoming::Batch(responses)), uptake, action, after),
    ensures
        action matches Action::Deliver(Reply::Batch { send_back, result }) && send_back
            == before.batches[Seq::<u64>::empty().to_multiset()].send_back && (result matches Ok(
            values,
        ) && values@.len() == 0),
        after == (ManagerState {
            batches: before.batches.remove(Seq::<u64>::empty().to_multiset()),
            ..before
        }),
{
    assert(reply_ids(responses@) =~= Seq::<u64>::empty());
}

/// Replies that answer no pending batch, or one of which has no number as its
/// ID, end the task.
pub proof fn unknown_batch_ends_the_task(
    before: ManagerState,
    ids: Seq<u64>,
    responses: Vec<Response>,
    uptake: Uptake,
    action: Action,
    after: ManagerState,
)
    requires
        (exists|i: int|
            0 <= i < responses@.len() && !((#[trigger] responses@[i]).id is Number)) || (ids.len()
            == responses@.len() && (forall|i: int|
            0 <= i < ids.len() ==> (#[trigger] responses@[i]).id == Id::Number(ids[i]))
            && !before.batches.contains_key(ids.to_multiset())),
        event_step(before, Event::Message(Incoming::Batch(responses)), uptake, action, after),
    ensures
        action == Action::Terminate(Some(ClientError::InvalidRequestId)),
        after == before,
{
    if forall|i: int| 0 <= i < responses@.len() ==> (#[trigger] responses@[i]).id is Number {
        assert(reply_ids(responses@) =~= ids);
    } else {
        let i = choose|i: int|
            0 <= i < responses@.len() && !((#[trigger] responses@[i]).id is Number);
        assert(responses@[i].id.number() is None);
    }
}

/// A notification of an active subscription is put into the channel of its
/// listener as it came. If the channel takes it, nothing else changes.
pub proof fn notification_goes_to_its_subscription(
    before: ManagerState,
    id: u64,
    response: SubscriptionResponse,
    action: Action,
    after: ManagerState,
)
    requires
        before.subscriptions.contains_key(response.subscription@),
        before.subscriptions[response.subscription@] == id,
        event_step(
            before,
            Event::Message(Incoming::Subscription(response)),
            Uptake::Taken,
            action,
            after,
        ),
    ensures
        action is Wait,
        before.requests.contains_key(id) && before.requests[id] is Subscription,
        after.requests.contains_key(id) && after.requests[id] is Subscription,
        ({
            let a = before.requests[id]->Subscription_0;
            let b = after.requests[id]->Subscription_0;
            &&& a.unsubscribe_id == b.unsubscribe_id
            &&& a.unsubscribe_method == b.unsubscribe_method
            &&& sink_tried(b.sink) == sink_tried(a.sink).push((response.result, Uptake::Taken))
            &&& sink_buffer(b.sink) == sink_buffer(a.sink)
            &&& sink_alone(b.sink) == sink_alone(a.sink)
            &&& forall|notifs: Notifs|
                #![auto]
                sink_feeds(b.sink, notifs) == sink_feeds(a.sink, notifs)
        }),
        after == (ManagerState {
            requests: before.requests.insert(id, after.requests[id]),
            ..before
        }),
{
}

/// A notification that the channel of an active subscription does not take was
/// put into it all the same. The subscription ends: its request ID and its
/// subscription ID are forgotten, and the server is told.
pub proof fn refused_notification_ends_the_subscription(
    before: ManagerState,
    id: u64,
    response: SubscriptionResponse,
    uptake: Uptake,
    action: Action,
    after: ManagerState,
)
    requires
        before.subscriptions.contains_key(response.subscription@),
        before.subscriptions[response.subscription@] == id,
        uptake !is Taken,
        event_step(
            before,
            Event::Message(Incoming::Subscription(response)),
            uptake,
            action,
            after,
        ),
    ensures
        before.requests.contains_key(id) && before.requests[id] is Subscription,
        was_refused(before.requests[id]->Subscription_0.sink, response.result, uptake),
        unsubscribes(before, id, response.subscription, action),
        after == (ManagerState {
            requests: before.requests.remove(id),
            subscriptions: before.subscriptions.remove(response.subscription@),
            ..before
        }),
{
    let sink = before.requests[id]->Subscription_0.sink;
    let tried = choose|tried: Sink| #[trigger]
        offered(sink, response.result, uptake, tried);
    assert(sink_tried(tried) == sink_tried(sink).push((response.result, uptake)));
}

/// Whether `value` was put into the channel of `sink`, which did not take it.
/// Only a channel that has taken more than its buffer size is full.
pub open spec fn was_refused(sink: Sink, value: Value, uptake: Uptake) -> bool {
    &&& exists|tried: Sink| #[trigger]
        sink_tried(tried) == sink_tried(sink).push((value, uptake))
    &&& uptake is Full && sink_alone(sink) ==> sink_taken(sink).len() > sink_buffer(sink)
}

/// Whether the task is to send the request that ends the active subscription
/// `id`: with the ID and the method kept for that, and the subscription ID as
/// the one parameter.
pub open spec fn unsubscribes(
    before: ManagerState,
    id: u64,
    subscription: SubscriptionId,
    action: Action,
) -> bool {
    let active = before.requests[id]->Subscription_0;
    let name = match subscription {
        SubscriptionId::Num(number) => decimal(number as nat),
        SubscriptionId::Str(text) => json_string(text@),
    };
    action matches Action::Send { raw, sent } && raw@ == request_text(
        active.unsubscribe_id,
        active.unsubscribe_method@,
        Some("["@ + name + "]"@),
    ) && sent == Sent::Unsubscribe(active.unsubscribe_id)
}

/// A notification of a subscription that is not active is passed over.
pub proof fn unknown_subscription_is_passed_over(
    before: ManagerState,
    response: SubscriptionResponse,
    uptake: Uptake,
    action: Action,
    after: ManagerState,
)
    requires
        !before.subscriptions.contains_key(response.subscription@),
        event_step(
            before,
            Event::Message(Incoming::Subscription(response)),
            uptake,
            action,
            after,
        ),
    ensures
        action is Wait,
        after == before,
{
}

/// Another notification is put into the channel of the handler of its method
/// as it came. If the channel takes it, nothing else changes; if not, the
/// handler is dropped. Without a handler the notification is passed over.
pub proof fn notification_goes_to_its_handler(
    before: ManagerState,
    notification: Notification,
    uptake: Uptake,
    action: Action,
    after: ManagerState,
)
    requires
        event_step(
            before,
            Event::Message(Incoming::Notification(notification)),
            uptake,
            action,
            after,
        ),
    ensures
        action is Wait,
        !before.handlers.contains_key(notification.method@) ==> after == before,
        before.handlers.contains_key(notification.method@) && uptake is Taken ==> ({
            let method = notification.method@;
            let a = before.handlers[method];
            let b = after.handlers[method];
            &&& sink_tried(b) == sink_tried(a).push((notification.params, Uptake::Taken))
            &&& sink_buffer(b) == sink_buffer(a)
            &&& sink_alone(b) == sink_alone(a)
            &&& forall|notifs: Notifs| #![auto] sink_feeds(b, notifs) == sink_feeds(a, notifs)
            &&& after == (ManagerState { handlers: before.handlers.insert(method, b), ..before })
        }),
        before.handlers.contains_key(notification.method@) && uptake !is Taken ==> was_refused(
            before.handlers[notification.method@],
            notification.params,
            uptake,
        ) && after == (ManagerState {
            handlers: before.handlers.remove(notification.method@),
            ..before
        }),
{
    let method = notification.method@;
    if before.handlers.contains_key(method) && uptake !is Taken {
        let sink = before.handlers[method];
        let tried = choose|tried: Sink| #[trigger]
            offered(sink, notification.params, uptake, tried);
        assert(sink_tried(tried) == sink_tried(sink).push((notification.params, uptake)));
    }
}

/// How the task ends, and that nothing else changes then.
pub proof fn how_the_task_ends(
    before: ManagerState,
    event: Event,
    uptake: Uptake,
    action: Action,
    after: ManagerState,
)
    requires
        event_step(before, event, uptake, action, after),
    ensures
        event is FrontClosed ==> action == Action::Terminate(None) && after == before,
        event matches Event::ReceiveFailed(reason) ==> action == Action::Terminate(
            Some(ClientError::Transport(reason)),
        ) && after == before,
        event is ReceiverClosed ==> (action matches Action::Terminate(
            Some(ClientError::Custom(text)),
        ) && text@ == "WebSocket receiver dropped"@) && after == before,
        event == Event::Message(Incoming::Unparsable) ==> (action matches Action::Terminate(
            Some(ClientError::Custom(text)),
        ) && text@ == "Unparsable response"@) && after == before,
{
}

/// A caller's notification, call or subscription request is sent as it is, and
/// nothing is kept of it before that.
pub proof fn callers_text_is_sent(
    before: ManagerState,
    raw: String,
    request: RequestMessage,
    sub: SubscriptionMessage,
    message: FrontToBack,
    uptake: Uptake,
    action: Action,
    after: ManagerState,
)
    requires
        event_step(before, Event::Front(message), uptake, action, after),
    ensures
        message == FrontToBack::Notification(raw) ==> after == before && action == (Action::Send {
            raw,
            sent: Sent::Notification,
        }),
        message == FrontToBack::Request(request) ==> after == before && action == (Action::Send {
            raw: request.raw,
            sent: Sent::Request { id: request.id, send_back: request.send_back },
        }),
        message == FrontToBack::Subscribe(sub) ==> after == before && action == (Action::Send {
            raw: sub.raw,
            sent: Sent::Subscription {
                id: sub.subscribe_id,
                pending: PendingSubscription {
                    unsubscribe_id: sub.unsubscribe_id,
                    send_back: sub.send_back,
                    unsubscribe_method: sub.unsubscribe_method,
                },
            },
        }),
{
}

/// A caller's batch is sent as it is and kept as pending, with the place of
/// each of its IDs; a batch whose IDs are pending is refused.
pub proof fn callers_batch_is_sent(
    before: ManagerState,
    batch: BatchMessage,
    uptake: Uptake,
    action: Action,
    after: ManagerState,
    place: int,
)
    requires
        event_step(before, Event::Front(FrontToBack::Batch(batch)), uptake, action, after),
    ensures
        before.batches.contains_key(batch.ids@.to_multiset()) ==> after == before && action
            == Action::Deliver(
            Reply::Batch {
                send_back: batch.send_back,
                result: Err(ClientError::InvalidRequestId),
            },
        ),
        !before.batches.contains_key(batch.ids@.to_multiset()) ==> ({
            let key = batch.ids@.to_multiset();
            let state = after.batches[key];
            &&& action == (Action::Send { raw: batch.raw, sent: Sent::Batch(batch.ids) })
            &&& after == (ManagerState { batches: before.batches.insert(key, state), ..before })
            &&& state.send_back == batch.send_back
            &&& 0 <= place < batch.ids@.len() && (forall|i: int|
                place < i < batch.ids@.len() ==> #[trigger] batch.ids@[i] != batch.ids@[place])
                ==> state.order@.contains_key(batch.ids@[place])
                && state.order@[batch.ids@[place]] == place
            &&& forall|id: u64| #[trigger]
                state.order@.contains_key(id) ==> batch.ids@.contains(id)
        }),
{
    let ids = batch.ids@;
    assert(batch.ids.len() == ids.len());
    lemma_places(ids, place);
}

/// Each ID has the last place at which it stands, and no other ID has a place.
proof fn lemma_places(ids: Seq<u64>, place: int)
    requires
        ids.len() <= usize::MAX,
    ensures
        0 <= place < ids.len() && (forall|i: int|
            place < i < ids.len() ==> #[trigger] ids[i] != ids[place])
            ==> positions(ids).contains_key(ids[place])
            && positions(ids)[ids[place]] == place,
        forall|id: u64| #[trigger]
            positions(ids).contains_key(id) ==> ids.contains(id),
    decreases ids.len(),
{
    if ids.len() > 0 {
        let front = ids.drop_last();
        lemma_places(front, place);
        assert forall|id: u64| #[trigger]
            positions(ids).contains_key(id) implies ids.contains(id) by {
            if id == ids.last() {
                assert(ids[ids.len() - 1] == id);
            } else {
                assert(positions(front).contains_key(id));
                let i = choose|i: int| 0 <= i < front.len() && front[i] == id;
                assert(ids[i] == id);
            }
        }
        if 0 <= place < ids.len() - 1 && (forall|i: int|
            place < i < ids.len() ==> #[trigger] ids[i] != ids[place]) {
            assert(ids[ids.len() - 1] != ids[place]);
            assert forall|i: int| place < i < front.len() implies #[trigger] front[i]
                != front[place] by {
                assert(ids[i] != ids[place]);
            }
        }
    }
}

/// A dropped subscription ends, if it is active: it is forgotten and the server
/// is told. If not, nothing happens.
pub proof fn dropped_subscription_ends(
    before: ManagerState,
    subscription: SubscriptionId,
    uptake: Uptake,
    action: Action,
    after: ManagerState,
)
    requires
        event_step(
            before,
            Event::Front(FrontToBack::SubscriptionClosed(subscription)),
            uptake,
            action,
            after,
        ),
    ensures
        !before.subscriptions.contains_key(subscription@) ==> action is Wait && after == before,
        before.subscriptions.contains_key(subscription@) ==> ({
            let id = before.subscriptions[subscription@];
            &&& unsubscribes(before, id, subscription, action)
            &&& after == (ManagerState {
                requests: before.requests.remove(id),
                subscriptions: before.subscriptions.remove(subscription@),
                ..before
            })
        }),
{
}

/// A handler is registered by making its channel, and is gone once it is
/// unregistered.
pub proof fn handlers_come_and_go(
    before: ManagerState,
    register: RegisterNotificationMessage,
    method: String,
    message: FrontToBack,
    uptake: Uptake,
    action: Action,
    after: ManagerState,
)
    requires
        event_step(before, Event::Front(message), uptake, action, after),
    ensures
        message == FrontToBack::RegisterNotification(register) ==> action == Action::OpenHandler(
            register,
        ) && after == before,
        message == FrontToBack::UnregisterNotification(method) ==> action is Wait && after == (
        ManagerState { handlers: before.handlers.remove(method@), ..before }),
{
}

/// What can be entered as pending: a call whose ID is not in use, a
/// subscription request whose two IDs are not in use and differ, and whatever
/// else is sent.
pub proof fn what_can_be_entered(state: ManagerState, sent: Sent)
    ensures
        sent matches Sent::Request { id, .. } ==> (can_be_pending(state, sent)
            <==> !state.requests.contains_key(id)),
        sent matches Sent::Subscription { id, pending } ==> (can_be_pending(state, sent) <==> (
        !state.requests.contains_key(id) && !state.requests.contains_key(pending.unsubscribe_id)
            && id != pending.unsubscribe_id)),
        !(sent is Request) && !(sent is Subscription) ==> can_be_pending(state, sent),
{
}

/// A call or a subscription request that was sent is pending; for a
/// subscription, so is the request that will end it, whose reply nobody waits
/// for. What else was sent is kept as it was.
pub proof fn what_was_sent_is_pending(
    before: ManagerState,
    sent: Sent,
    action: Action,
    after: ManagerState,
)
    requires
        sent_step(before, sent, Ok(()), action, after),
    ensures
        action is Wait,
        sent matches Sent::Request { id, send_back } ==> after == (ManagerState {
            requests: before.requests.insert(id, Kind::PendingMethodCall(send_back)),
            ..before
        }),
        sent matches Sent::Subscription { id, pending } ==> after == (ManagerState {
            requests: before.requests.insert(id, Kind::PendingSubscription(pending)).insert(
                pending.unsubscribe_id,
                Kind::PendingMethodCall(None),
            ),
            ..before
        }),
        !(sent is Request) && !(sent is Subscription) ==> after == before,
{
}

/// What could not be sent is not pending: the caller of a call or a
/// subscription is told why, a batch is forgotten, and so is a request to
/// unsubscribe.
pub proof fn what_was_not_sent_is_not_pending(
    before: ManagerState,
    sent: Sent,
    reason: String,
    action: Action,
    after: ManagerState,
)
    requires
        sent_step(before, sent, Err(reason), action, after),
    ensures
        sent is Notification ==> action is Wait && after == before,
        sent matches Sent::Batch(ids) ==> action is Wait && after == (ManagerState {
            batches: before.batches.remove(ids@.to_multiset()),
            ..before
        }),
        sent matches Sent::Request { send_back, .. } ==> after == before && (send_back is None
            ==> action is Wait) && (send_back matches Some(sender) ==> action == Action::Deliver(
            Reply::Call { send_back: sender, result: Err(ClientError::Transport(reason)) },
        )),
        sent matches Sent::Subscription { pending, .. } ==> after == before && action
            == Action::Deliver(
            Reply::NotSubscribed {
                send_back: pending.send_back,
                error: ClientError::Transport(reason),
            },
        ),
        sent matches Sent::Unsubscribe(id) ==> action is Wait && after == if (
        before.requests.contains_key(id) && before.requests[id] is PendingMethodCall) {
            ManagerState { requests: before.requests.remove(id), ..before }
        } else {
            before
        },
{
}

/// A confirmed subscription becomes active under the ID that the server gave,
/// with an empty channel of the buffer size asked for, whose other end is handed
/// to the subscriber. If that ID, or the request's, is in use, the subscriber is
/// told so and nothing changes.
pub proof fn confirmed_subscription_becomes_active(
    before: ManagerState,
    opening: Opening,
    buffer: usize,
    action: Action,
    after: ManagerState,
)
    requires
        open_subscription_step(before, opening, buffer, action, after),
    ensures
        before.requests.contains_key(opening.id) || before.subscriptions.contains_key(
            opening.subscription@,
        ) ==> after == before && action == Action::Deliver(
            Reply::NotSubscribed {
                send_back: opening.pending.send_back,
                error: ClientError::InvalidSubscriptionId,
            },
        ),
        !before.requests.contains_key(opening.id) && !before.subscriptions.contains_key(
            opening.subscription@,
        ) ==> ({
            let kind = after.requests[opening.id];
            let active = kind->Subscription_0;
            &&& action matches Action::Deliver(
                Reply::Subscribed { send_back, notifs, subscription },
            ) && send_back == opening.pending.send_back && subscription == opening.subscription
                && sink_feeds(active.sink, notifs)
            &&& kind is Subscription
            &&& active.unsubscribe_id == opening.pending.unsubscribe_id
            &&& active.unsubscribe_method == opening.pending.unsubscribe_method
            &&& sink_buffer(active.sink) == buffer
            &&& sink_alone(active.sink)
            &&& sink_tried(active.sink).len() == 0
            &&& after == (ManagerState {
                requests: before.requests.insert(opening.id, kind),
                subscriptions: before.subscriptions.insert(opening.subscription@, opening.id),
                ..before
            })
        }),
{
}

/// A handler that is registered has an empty channel of the buffer size asked
/// for, whose other end is handed to whoever registers it, with the name of the
/// method. If the method has a handler, that is what they are told, and nothing
/// changes.
pub proof fn registered_handler_gets_a_channel(
    before: ManagerState,
    register: RegisterNotificationMessage,
    buffer: usize,
    action: Action,
    after: ManagerState,
)
    requires
        open_handler_step(before, register, buffer, action, after),
    ensures
        before.handlers.contains_key(register.method@) ==> after == before && action
            == Action::Deliver(
            Reply::Method {
                send_back: register.send_back,
                result: Err(ClientError::MethodAlreadyRegistered(register.method)),
            },
        ),
        !before.handlers.contains_key(register.method@) ==> ({
            let sink = after.handlers[register.method@];
            &&& action matches Action::Deliver(Reply::Method { send_back, result }) && send_back
                == register.send_back && (result matches Ok((notifs, method)) && method
                == register.method && sink_feeds(sink, notifs))
            &&& sink_buffer(sink) == buffer
            &&& sink_alone(sink)
            &&& sink_tried(sink).len() == 0
            &&& after == (ManagerState {
                handlers: before.handlers.insert(register.method@, sink),
                ..before
            })
        }),
{
}

/// What a caller is told is what was decided for that caller. Only a
/// subscription whose subscriber is gone is affected by the telling: it ends.
pub proof fn callers_are_told_what_was_decided(
    before: ManagerState,
    reply: Reply,
    taken: bool,
    action: Action,
    after: ManagerState,
)
    requires
        deliver_step(before, reply, taken, action, after),
    ensures
        reply matches Reply::Call { send_back, result } ==> call_carries(send_back) == result
            && call_sent(send_back, result, taken),
        reply matches Reply::Batch { send_back, result } ==> batch_carries(send_back) == result
            && batch_sent(send_back, result, taken),
        reply matches Reply::Method { send_back, result } ==> method_carries(send_back) == result
            && method_sent(send_back, result, taken),
        reply matches Reply::NotSubscribed { send_back, error } ==> subscription_carries(send_back)
            == Err::<(Notifs, SubscriptionId), ClientError>(error) && subscription_sent(
            send_back,
            Err(error),
            taken,
        ),
        reply matches Reply::Subscribed { send_back, notifs, subscription }
            ==> subscription_carries(send_back) == Ok::<(Notifs, SubscriptionId), ClientError>(
            (notifs, subscription),
        ) && subscription_sent(send_back, Ok((notifs, subscription)), taken),
        !(reply is Subscribed) || taken ==> action is Wait && after == before,
        reply matches Reply::Subscribed { subscription, .. } ==> !taken ==> (if (
        before.subscriptions.contains_key(subscription@)) {
            let id = before.subscriptions[subscription@];
            &&& unsubscribes(before, id, subscription, action)
            &&& after == (ManagerState {
                requests: before.requests.remove(id),
                subscriptions: before.subscriptions.remove(subscription@),
                ..before
            })
        } else {
            action is Wait && after == before
        }),
{
}

/// Whether the task is to send the request that ends the subscription just
/// confirmed.
pub open spec fn ends_with_its_request(opening: Opening, next: Action) -> bool {
    let name = match opening.subscription {
        SubscriptionId::Num(number) => decimal(number as nat),
        SubscriptionId::Str(text) => json_string(text@),
    };
    next matches Action::Send { raw, sent } && raw@ == request_text(
        opening.pending.unsubscribe_id,
        opening.pending.unsubscribe_method@,
        Some("["@ + name + "]"@),
    ) && sent == Sent::Unsubscribe(opening.pending.unsubscribe_id)
}

/// Advancing does to the end what can be done at once, and no more: a decided
/// answer is told, a confirmed subscription and a registered handler get their
/// channel and are then told of; what has to be waited for or sent, or ends the
/// task, is left as it is.
pub proof fn advancing_does_what_can_be_done(
    before: ManagerState,
    action: Action,
    buffer: usize,
    next: Action,
    after: ManagerState,
)
    requires
        advance_step(before, action, buffer, next, after),
    ensures
        action is Wait || action is Send || action is Terminate ==> next == action && after
            == before,
        action matches Action::Deliver(reply) ==> exists|taken: bool| #[trigger]
            deliver_step(before, reply, taken, next, after),
        action matches Action::OpenSubscription(opening) ==> (before.requests.contains_key(
            opening.id,
        ) || before.subscriptions.contains_key(opening.subscription@) ==> after == before
            && next is Wait && subscription_carries(opening.pending.send_back) == Err::<
            (Notifs, SubscriptionId),
            ClientError,
        >(ClientError::InvalidSubscriptionId)),
        action matches Action::OpenSubscription(opening) ==> (!before.requests.contains_key(
            opening.id,
        ) && !before.subscriptions.contains_key(opening.subscription@) ==> ({
            let pending = opening.pending;
            let kind = after.requests[opening.id];
            let active = kind->Subscription_0;
            &&& subscription_carries(pending.send_back) matches Ok((notifs, subscription))
                && subscription == opening.subscription && (next is Wait ==> sink_feeds(
                active.sink,
                notifs,
            ))
            &&& next is Wait ==> {
                &&& kind is Subscription
                &&& active.unsubscribe_id == pending.unsubscribe_id
                &&& active.unsubscribe_method == pending.unsubscribe_method
                &&& sink_buffer(active.sink) == buffer
                &&& sink_alone(active.sink)
                &&& sink_tried(active.sink).len() == 0
                &&& after == (ManagerState {
                    requests: before.requests.insert(opening.id, kind),
                    subscriptions: before.subscriptions.insert(opening.subscription@, opening.id),
                    ..before
                })
            }
            &&& !(next is Wait) ==> after == before && ends_with_its_request(opening, next)
        })),
        action matches Action::OpenHandler(register) ==> next is Wait && (
        before.handlers.contains_key(register.method@) ==> after == before && method_carries(
            register.send_back,
        ) == Err::<(Notifs, String), ClientError>(
            ClientError::MethodAlreadyRegistered(register.method),
        )) && (!before.handlers.contains_key(register.method@) ==> (method_carries(
            register.send_back,
        ) matches Ok((notifs, method)) && method == register.method && sink_feeds(
            after.handlers[register.method@],
            notifs,
        )) && sink_buffer(after.handlers[register.method@]) == buffer && sink_alone(
            after.handlers[register.method@],
        ) && sink_tried(after.handlers[register.method@]).len() == 0 && after == (ManagerState {
            handlers: before.handlers.insert(
                register.method@,
                after.handlers[register.method@],
            ),
            ..before
        })),
{
    match action {
        Action::OpenSubscription(opening) => {
            let key = opening.subscription@;
            let (opened, reply, told) = choose|opened: ManagerState, reply: Reply, told: bool|
                open_subscription_step(before, opening, buffer, Action::Deliver(reply), opened)
                    && #[trigger] deliver_step(opened, reply, told, next, after);
            confirmed_subscription_becomes_active(
                before,
                opening,
                buffer,
                Action::Deliver(reply),
                opened,
            );
            callers_are_told_what_was_decided(opened, reply, told, next, after);
            if !before.requests.contains_key(opening.id) && !before.subscriptions.contains_key(key)
                && !told {
                assert(after.requests =~= before.requests);
                assert(after.subscriptions =~= before.subscriptions);
            }
        },
        Action::OpenHandler(register) => {
            let (opened, reply, told) = choose|opened: ManagerState, reply: Reply, told: bool|
                open_handler_step(before, register, buffer, Action::Deliver(reply), opened)
                    && #[trigger] deliver_step(opened, reply, told, next, after);
            registered_handler_gets_a_channel(
                before,
                register,
                buffer,
                Action::Deliver(reply),
                opened,
            );
            callers_are_told_what_was_decided(opened, reply, told, next, after);
        },
        _ => {},
    }
}

/// The largest buffer size of a channel: four more than four times it still
/// fits a `usize`, and one more would not.
pub proof fn largest_buffer(buffer: usize)
    ensures
        buffer_fits(buffer) <==> 4 * buffer + 4 <= usize::MAX,
{
}

/// Nothing has been taken of nothing; each value that is taken is added at the
/// end, and no other.
pub proof fn taken_values_are_kept_in_order(
    tried: Seq<(Value, Uptake)>,
    value: Value,
    uptake: Uptake,
)
    ensures
        taken(seq![]) == Seq::<Value>::empty(),
        uptake is Taken ==> taken(tried.push((value, uptake))) == taken(tried).push(value),
        uptake !is Taken ==> taken(tried.push((value, uptake))) == taken(tried),
        taken(tried).len() <= tried.len(),
    decreases tried.len(),
{
    lemma_taken_push(tried, value, uptake);
    if tried.len() > 0 {
        taken_values_are_kept_in_order(tried.drop_last(), value, uptake);
    }
}

} // verus!

//! What each event leads to, as relations between the state before, the
//! action, and the state after.

use crate::action::{Action, Event, Incoming, Opening, Reply, Sent};
use crate::channel::{sink_alone, sink_buffer, sink_feeds, sink_tried, Uptake};
use crate::error::ClientError;
use crate::frame::unsubscribe_text;
use crate::json::{json_null, json_str, json_u64};
use crate::manager::{offered, positions, Kind, ManagerState, PendingSubscription};
use crate::reply::{
    batch_carries, batch_sent, call_carries, call_sent, method_carries, method_sent,
    subscription_carries, subscription_sent,
};
use crate::types::{
    FrontToBack, Notifs, RegisterNotificationMessage, Response, RpcError, Sink,
    SubscriptionId, SubscriptionKey,
};
use serde_json::Value;
use vstd::prelude::*;

verus! {

/// The subscription ID that a JSON value is, if it is one.
pub open spec fn subscription_key(value: Value) -> Option<SubscriptionKey> {
    if json_u64(value) is Some {
        Some(SubscriptionKey::Num(json_u64(value)->0))
    } else if json_str(value) is Some {
        Some(SubscriptionKey::Str(json_str(value)->0))
    } else {
        None
    }
}

/// The active subscription `id` ends: it is forgotten, and the server is told.
pub open spec fn ends_subscription(
    before: ManagerState,
    id: u64,
    key: SubscriptionKey,
    action: Action,
    after: ManagerState,
) -> bool {
    let active = before.requests[id]->Subscription_0;
    &&& before.is_active(id)
    &&& action matches Action::Send { raw, sent } && raw@ == unsubscribe_text(
        active.unsubscribe_id,
        active.unsubscribe_method@,
        key,
    ) && sent == Sent::Unsubscribe(active.unsubscribe_id)
    &&& after == before.without_subscription(id, key)
}

/// A subscription goes on while its listener is there. Otherwise it ends, if it
/// has not ended before.
pub open spec fn settles(
    before: ManagerState,
    key: SubscriptionKey,
    alive: bool,
    action: Action,
    after: ManagerState,
) -> bool {
    if !alive && before.subscriptions.contains_key(key) {
        ends_subscription(before, before.subscriptions[key], key, action, after)
    } else {
        action is Wait && after == before
    }
}

/// What a message of a caller leads to.
pub open spec fn front_step(
    before: ManagerState,
    message: FrontToBack,
    action: Action,
    after: ManagerState,
) -> bool {
    match message {
        FrontToBack::Batch(batch) => {
            let key = batch.ids@.to_multiset();
            if before.batches.contains_key(key) {
                &&& action matches Action::Deliver(Reply::Batch { send_back, result }) && send_back
                    == batch.send_back && result == Err::<Vec<Value>, ClientError>(
                    ClientError::InvalidRequestId,
                )
                &&& after == before
            } else {
                let state = after.batches[key];
                &&& action == (Action::Send { raw: batch.raw, sent: Sent::Batch(batch.ids) })
                &&& state.order@ == positions(batch.ids@)
                &&& state.send_back == batch.send_back
                &&& after == (ManagerState { batches: before.batches.insert(key, state), ..before })
            }
        },
        FrontToBack::Notification(raw) => {
            &&& action == (Action::Send { raw, sent: Sent::Notification })
            &&& after == before
        },
        FrontToBack::Request(request) => {
            &&& action == (Action::Send {
                raw: request.raw,
                sent: Sent::Request { id: request.id, send_back: request.send_back },
            })
            &&& after == before
        },
        FrontToBack::Subscribe(sub) => {
            &&& action == (Action::Send {
                raw: sub.raw,
                sent: Sent::Subscription {
                    id: sub.subscribe_id,
                    pending: PendingSubscription {
                        unsubscribe_id: sub.unsubscribe_id,
                        send_back: sub.send_back,
                        unsubscribe_method: sub.unsubscribe_method,
                    },
                },
            })
            &&& after == before
        },
        FrontToBack::SubscriptionClosed(subscription) => settles(
            before,
            subscription@,
            false,
            action,
            after,
        ),
        FrontToBack::RegisterNotification(register) => {
            &&& action == Action::OpenHandler(register)
            &&& after == before
        },
        FrontToBack::UnregisterNotification(method) => {
            &&& action is Wait
            &&& after == before.without_handler(method@)
        },
    }
}

/// Whether the IDs of what was sent can be entered as pending.
pub open spec fn can_be_pending(state: ManagerState, sent: Sent) -> bool {
    match sent {
        Sent::Request { id, .. } => !state.requests.contains_key(id),
        Sent::Subscription { id, pending } => state.both_free(id, pending.unsubscribe_id),
        _ => true,
    }
}

/// What the report of the transport on a sent text leads to.
pub open spec fn sent_step(
    before: ManagerState,
    sent: Sent,
    report: Result<(), String>,
    action: Action,
    after: ManagerState,
) -> bool {
    match sent {
        Sent::Notification => action is Wait && after == before,
        Sent::Batch(ids) => {
            &&& action is Wait
            &&& after == if report is Ok {
                before
            } else {
                before.without_batch(ids@.to_multiset())
            }
        },
        Sent::Request { id, send_back } => match report {
            Ok(()) => action is Wait && after == before.with_request(
                id,
                Kind::PendingMethodCall(send_back),
            ),
            Err(reason) => after == before && action == match send_back {
                Some(send_back) => Action::Deliver(
                    Reply::Call { send_back, result: Err(ClientError::Transport(reason)) },
                ),
                None => Action::Wait,
            },
        },
        Sent::Subscription { id, pending } => match report {
            Ok(()) => action is Wait && after == before.with_pending_subscription(id, pending),
            Err(reason) => after == before && action == Action::Deliver(
                Reply::NotSubscribed {
                    send_back: pending.send_back,
                    error: ClientError::Transport(reason),
                },
            ),
        },
        Sent::Unsubscribe(id) => {
            &&& action is Wait
            &&& after == if report is Err && before.requests.contains_key(id)
                && before.requests[id] is PendingMethodCall {
                before.without_request(id)
            } else {
                before
            }
        },
    }
}

/// The task ends because a reply has an ID that nothing is known of.
pub open spec fn rejects(before: ManagerState, action: Action, after: ManagerState) -> bool {
    &&& action == Action::Terminate(Some(ClientError::InvalidRequestId))
    &&& after == before
}

/// What the reply to one request leads to.
pub open spec fn single_step(
    before: ManagerState,
    response: Response,
    action: Action,
    after: ManagerState,
) -> bool {
    match response.id.number() {
        None => rejects(before, action, after),
        Some(id) => if !before.requests.contains_key(id) {
            rejects(before, action, after)
        } else {
            match before.requests[id] {
                Kind::PendingMethodCall(send_back) => {
                    &&& action == match send_back {
                        Some(send_back) => Action::Deliver(
                            Reply::Call { send_back, result: Ok(response.result) },
                        ),
                        None => Action::Wait,
                    }
                    &&& after == before.without_request(id)
                },
                Kind::PendingSubscription(pending) => {
                    &&& match subscription_key(response.result) {
                        Some(key) => action matches Action::OpenSubscription(opening) && opening.id
                            == id && opening.subscription@ == key && opening.pending == pending,
                        None => action == Action::Deliver(
                            Reply::NotSubscribed {
                                send_back: pending.send_back,
                                error: ClientError::InvalidSubscriptionId,
                            },
                        ),
                    }
                    &&& after == before.without_request(id)
                },
                Kind::Subscription(_) => rejects(before, action, after),
            }
        },
    }
}

/// What a notification of a subscription leads to. `uptake` is what
/// became of it at the listener's channel, into which it is put in any case.
pub open spec fn subscription_step(
    before: ManagerState,
    key: SubscriptionKey,
    value: Value,
    uptake: Uptake,
    action: Action,
    after: ManagerState,
) -> bool {
    if !before.subscriptions.contains_key(key) {
        action is Wait && after == before
    } else {
        let id = before.subscriptions[key];
        if uptake is Taken {
            action is Wait && before.pushed(id, value, uptake, after)
        } else {
            let sink = before.requests[id]->Subscription_0.sink;
            &&& exists|tried: Sink| #[trigger] offered(sink, value, uptake, tried)
            &&& ends_subscription(before, id, key, action, after)
        }
    }
}

/// What another notification leads to. `uptake` is what became of it at the
/// handler's channel, into which it is put in any case.
pub open spec fn notification_step(
    before: ManagerState,
    method: Seq<char>,
    value: Value,
    uptake: Uptake,
    action: Action,
    after: ManagerState,
) -> bool {
    &&& action is Wait
    &&& if !before.handlers.contains_key(method) {
        after == before
    } else if uptake is Taken {
        before.notified(method, value, uptake, after)
    } else {
        &&& exists|tried: Sink| #[trigger] offered(before.handlers[method], value, uptake, tried)
        &&& after == before.without_handler(method)
    }
}

/// Whether every reply has a number as its ID.
pub open spec fn all_numbered(responses: Seq<Response>) -> bool {
    forall|i: int| 0 <= i < responses.len() ==> (#[trigger] responses[i]).id.number() is Some
}

/// The numbers that the replies have as their IDs.
pub open spec fn reply_ids(responses: Seq<Response>) -> Seq<u64> {
    Seq::new(responses.len(), |i: int| responses[i].id.number()->0)
}

/// Whether reply `j` is the last one for position `i`.
pub open spec fn is_last_for(
    order: Map<u64, usize>,
    responses: Seq<Response>,
    i: int,
    j: int,
) -> bool {
    &&& 0 <= j < responses.len()
    &&& order[reply_ids(responses)[j]] == i
    &&& forall|k: int| j < k < responses.len() ==> order[#[trigger] reply_ids(responses)[k]] != i
}

/// Whether `values` are the results of the replies, each at the position of its
/// request. A position without a reply holds JSON `null`.
pub open spec fn in_order(
    order: Map<u64, usize>,
    responses: Seq<Response>,
    values: Seq<Value>,
) -> bool {
    &&& values.len() == responses.len()
    &&& forall|i: int, j: int| #[trigger]
        is_last_for(order, responses, i, j) ==> values[i] == responses[j].result
    &&& forall|i: int|
        0 <= i < values.len() && (forall|j: int| !is_last_for(order, responses, i, j))
            ==> json_null(#[trigger] values[i])
}

/// What the replies to a batch lead to.
pub open spec fn batch_step(
    before: ManagerState,
    responses: Seq<Response>,
    action: Action,
    after: ManagerState,
) -> bool {
    let key = reply_ids(responses).to_multiset();
    if !all_numbered(responses) || !before.batches.contains_key(key) {
        rejects(before, action, after)
    } else {
        let state = before.batches[key];
        &&& action matches Action::Deliver(Reply::Batch { send_back, result }) && send_back
            == state.send_back && (result matches Ok(values) && in_order(
            state.order@,
            responses,
            values@,
        ))
        &&& after == before.without_batch(key)
    }
}

/// What the report of a failed request leads to.
pub open spec fn failure_step(
    before: ManagerState,
    error: RpcError,
    action: Action,
    after: ManagerState,
) -> bool {
    match error.id.number() {
        None => rejects(before, action, after),
        Some(id) => if !before.requests.contains_key(id) {
            rejects(before, action, after)
        } else {
            match before.requests[id] {
                Kind::PendingMethodCall(send_back) => {
                    &&& action == match send_back {
                        Some(send_back) => Action::Deliver(
                            Reply::Call {
                                send_back,
                                result: Err(ClientError::Request(error.message)),
                            },
                        ),
                        None => Action::Wait,
                    }
                    &&& after == before.without_request(id)
                },
                Kind::PendingSubscription(pending) => {
                    &&& action == Action::Deliver(
                        Reply::NotSubscribed {
                            send_back: pending.send_back,
                            error: ClientError::Request(error.message),
                        },
                    )
                    &&& after == before.without_request(id)
                },
                Kind::Subscription(_) => rejects(before, action, after),
            }
        },
    }
}

/// The task ends for a reason of its own.
pub open spec fn gives_up(
    before: ManagerState,
    reason: Seq<char>,
    action: Action,
    after: ManagerState,
) -> bool {
    &&& action matches Action::Terminate(Some(ClientError::Custom(text))) && text@ == reason
    &&& after == before
}

/// What a message of the server leads to. `uptake` is what became
/// of what the message holds at the channel of the listener, if one is
/// concerned.
pub open spec fn message_step(
    before: ManagerState,
    message: Incoming,
    uptake: Uptake,
    action: Action,
    after: ManagerState,
) -> bool {
    match message {
        Incoming::Single(response) => single_step(before, response, action, after),
        Incoming::Subscription(response) => subscription_step(
            before,
            response.subscription@,
            response.result,
            uptake,
            action,
            after,
        ),
        Incoming::Notification(notification) => notification_step(
            before,
            notification.method@,
            notification.params,
            uptake,
            action,
            after,
        ),
        Incoming::Batch(responses) => batch_step(before, responses@, action, after),
        Incoming::Failure(error) => failure_step(before, error, action, after),
        Incoming::Unparsable => gives_up(before, "Unparsable response"@, action, after),
    }
}

/// What an event leads to. `uptake` is as in [`message_step`].
pub open spec fn event_step(
    before: ManagerState,
    event: Event,
    uptake: Uptake,
    action: Action,
    after: ManagerState,
) -> bool {
    match event {
        Event::Front(message) => front_step(before, message, action, after),
        Event::FrontClosed => action == Action::Terminate(None) && after == before,
        Event::Message(message) => message_step(before, message, uptake, action, after),
        Event::ReceiveFailed(reason) => action == Action::Terminate(
            Some(ClientError::Transport(reason)),
        ) && after == before,
        Event::ReceiverClosed => gives_up(before, "WebSocket receiver dropped"@, action, after),
    }
}

/// A confirmed subscription gets a channel with the given buffer size and
/// becomes active, unless its subscription ID is in use.
pub open spec fn open_subscription_step(
    before: ManagerState,
    opening: Opening,
    buffer: usize,
    action: Action,
    after: ManagerState,
) -> bool {
    let key = opening.subscription@;
    let pending = opening.pending;
    if before.requests.contains_key(opening.id) || before.subscriptions.contains_key(key) {
        &&& action == Action::Deliver(
            Reply::NotSubscribed {
                send_back: pending.send_back,
                error: ClientError::InvalidSubscriptionId,
            },
        )
        &&& after == before
    } else {
        let active = after.requests[opening.id]->Subscription_0;
        &&& action matches Action::Deliver(Reply::Subscribed { send_back, notifs, subscription })
            && send_back == pending.send_back && subscription == opening.subscription && sink_feeds(
            active.sink,
            notifs,
        )
        &&& active.unsubscribe_id == pending.unsubscribe_id
        &&& active.unsubscribe_method == pending.unsubscribe_method
        &&& sink_buffer(active.sink) == buffer
        &&& sink_tried(active.sink) == Seq::<(Value, Uptake)>::empty()
        &&& sink_alone(active.sink)
        &&& after == before.with_subscription(opening.id, key, active)
    }
}

/// A notification handler gets a channel with the given buffer size, unless the
/// method has a handler already.
pub open spec fn open_handler_step(
    before: ManagerState,
    register: RegisterNotificationMessage,
    buffer: usize,
    action: Action,
    after: ManagerState,
) -> bool {
    let method = register.method@;
    &&& action matches Action::Deliver(Reply::Method { send_back, result }) && send_back
        == register.send_back && if before.handlers.contains_key(method) {
        &&& result == Err::<(Notifs, String), ClientError>(
            ClientError::MethodAlreadyRegistered(register.method),
        )
        &&& after == before
    } else {
        let sink = after.handlers[method];
        &&& result matches Ok((notifs, name)) && name == register.method && sink_feeds(sink, notifs)
        &&& sink_buffer(sink) == buffer
        &&& sink_tried(sink) == Seq::<(Value, Uptake)>::empty()
        &&& sink_alone(sink)
        &&& after == before.with_handler(method, sink)
    }
}

/// Whether the caller's channel carries what the reply says.
pub open spec fn carries(reply: Reply) -> bool {
    match reply {
        Reply::Call { send_back, result } => call_carries(send_back) == result,
        Reply::Batch { send_back, result } => batch_carries(send_back) == result,
        Reply::Subscribed { send_back, notifs, subscription } => subscription_carries(send_back)
            == Ok::<(Notifs, SubscriptionId), ClientError>((notifs, subscription)),
        Reply::NotSubscribed { send_back, error } => subscription_carries(send_back) == Err::<
            (Notifs, SubscriptionId),
            ClientError,
        >(error),
        Reply::Method { send_back, result } => method_carries(send_back) == result,
    }
}

/// Whether what the reply says was sent to the caller, and whether the caller
/// was still there to take it.
pub open spec fn was_sent(reply: Reply, taken: bool) -> bool {
    match reply {
        Reply::Call { send_back, result } => call_sent(send_back, result, taken),
        Reply::Batch { send_back, result } => batch_sent(send_back, result, taken),
        Reply::Subscribed { send_back, notifs, subscription } => subscription_sent(
            send_back,
            Ok((notifs, subscription)),
            taken,
        ),
        Reply::NotSubscribed { send_back, error } => subscription_sent(
            send_back,
            Err(error),
            taken,
        ),
        Reply::Method { send_back, result } => method_sent(send_back, result, taken),
    }
}

/// What telling a caller something leads to. `taken` tells whether the caller
/// was still there: a subscription whose subscriber is gone ends.
pub open spec fn deliver_step(
    before: ManagerState,
    reply: Reply,
    taken: bool,
    action: Action,
    after: ManagerState,
) -> bool {
    &&& carries(reply)
    &&& was_sent(reply, taken)
    &&& match reply {
        Reply::Subscribed { subscription, .. } => settles(
            before,
            subscription@,
            taken,
            action,
            after,
        ),
        _ => action is Wait && after == before,
    }
}

/// What an action leads to that needs neither the transport nor another event:
/// channels are made and callers are told, until there is something to wait
/// for or to send, or the task ends.
pub open spec fn advance_step(
    before: ManagerState,
    action: Action,
    buffer: usize,
    next: Action,
    after: ManagerState,
) -> bool {
    match action {
        Action::Deliver(reply) => exists|taken: bool| #[trigger]
            deliver_step(before, reply, taken, next, after),
        Action::OpenSubscription(opening) => exists|opened: ManagerState, reply: Reply, taken: bool|
            open_subscription_step(before, opening, buffer, Action::Deliver(reply), opened)
                && #[trigger] deliver_step(opened, reply, taken, next, after),
        Action::OpenHandler(register) => exists|opened: ManagerState, reply: Reply, taken: bool|
            open_handler_step(before, register, buffer, Action::Deliver(reply), opened)
                && #[trigger] deliver_step(opened, reply, taken, next, after),
        _ => next == action && after == before,
    }
}

} // verus!

//! How the background task deals with the messages of the server.

use crate::action::{Action, Incoming, Opening, Reply, Sent};
use crate::channel::Uptake;
use crate::error::ClientError;
use crate::frame::{unsubscribe_text, write_unsubscribe};
use crate::json::{json_null, null};
use crate::manager::{fits, offered, RequestManager, RequestStatus};
use crate::step::{
    all_numbered, batch_step, failure_step, in_order, is_last_for, message_step,
    notification_step, reply_ids, settles, single_step, subscription_key, subscription_step,
};
use crate::types::{
    Notification, RequestMessage, Response, RpcError, SubscriptionId, SubscriptionResponse,
};
use serde_json::Value;
use std::collections::HashMap;
use vstd::prelude::*;

verus! {

/// Reads a subscription ID: an unsigned integer or a string.
pub fn read_subscription_id(value: &Value) -> (r: Option<SubscriptionId>)
    ensures
        match r {
            Some(id) => subscription_key(*value) == Some(id@),
            None => subscription_key(*value) is None,
        },
{
    match value.as_u64() {
        Some(n) => Some(SubscriptionId::Num(n)),
        None => match value.as_str() {
            Some(text) => Some(SubscriptionId::Str(text.to_owned())),
            None => None,
        },
    }
}

/// Puts results where their requests stand in the batch.
fn order_results(order: &HashMap<u64, usize>, responses: Vec<Response>) -> (r: Vec<Value>)
    requires
        all_numbered(responses@),
        fits(order@, reply_ids(responses@).to_multiset()),
    ensures
        in_order(order@, responses@, r@),
{
    broadcast use vstd::seq_lib::group_to_multiset_ensures;

    let count: usize = responses.len();
    let mut values: Vec<Value> = Vec::with_capacity(count);
    while values.len() < count
        invariant
            values@.len() <= count,
            forall|i: int| 0 <= i < values@.len() ==> json_null(#[trigger] values@[i]),
        decreases count - values@.len(),
    {
        values.push(null());
    }
    let ghost all = responses@;
    assert forall|k: int| 0 <= k < all.len() implies order@.contains_key(
        #[trigger] reply_ids(all)[k],
    ) && order@[reply_ids(all)[k]] < all.len() by {
        let id = reply_ids(all)[k];
        assert(reply_ids(all).contains(id));
        assert(reply_ids(all).to_multiset().count(id) > 0);
        assert(reply_ids(all).to_multiset().len() == all.len());
        assert(order@.contains_key(id));
    }
    for response in it: responses
        invariant
            it.seq() == all,
            all_numbered(all),
            values@.len() == all.len(),
            forall|k: int|
                0 <= k < all.len() ==> order@.contains_key(#[trigger] reply_ids(all)[k])
                    && order@[reply_ids(all)[k]] < all.len(),
            forall|i: int, j: int| #[trigger]
                is_last_for(order@, all.take(it.index() as int), i, j) ==> values@[i]
                    == all[j].result,
            forall|i: int|
                0 <= i < values@.len() && (forall|j: int|
                    !is_last_for(order@, all.take(it.index() as int), i, j)) ==> json_null(
                    #[trigger] values@[i],
                ),
    {
        let ghost n = it.index() as int;
        let ghost done = all.take(n);
        let ghost more = all.take(n + 1);
        let ghost before = values@;
        assert(response == all[n]);
        if let Some(id) = response.id.as_number() {
            assert(reply_ids(all)[n] == id);
            if let Some(position) = order.get(&id) {
                let at: usize = *position;
                values[at] = response.result;
                proof {
                    lemma_one_more(order@, all, n, at as int);
                    assert forall|i: int, j: int| #[trigger]
                        is_last_for(order@, more, i, j) implies values@[i] == all[j].result by {
                        assert(reply_ids(more)[j] == reply_ids(all)[j]);
                        if i != at {
                            assert(is_last_for(order@, done, i, j));
                        }
                    }
                    assert forall|i: int|
                        0 <= i < values@.len() && (forall|j: int|
                            !is_last_for(order@, more, i, j)) implies json_null(
                        #[trigger] values@[i],
                    ) by {
                        if i == at {
                            assert(is_last_for(order@, more, i, n));
                        } else {
                            assert forall|j: int| !is_last_for(order@, done, i, j) by {
                                assert(!is_last_for(order@, more, i, j));
                            }
                            assert(json_null(before[i]));
                        }
                    }
                }
            }
        }
    }
    assert(all.take(all.len() as int) =~= all);
    values
}

/// Which replies are the last ones for a position, when one more is looked at.
proof fn lemma_one_more(order: Map<u64, usize>, all: Seq<Response>, n: int, at: int)
    requires
        0 <= n < all.len(),
        order[reply_ids(all)[n]] == at,
    ensures
        forall|j: int| #[trigger] is_last_for(order, all.take(n + 1), at, j) <==> j == n,
        forall|i: int, j: int|
            i != at ==> (#[trigger] is_last_for(order, all.take(n + 1), i, j) <==> is_last_for(
                order,
                all.take(n),
                i,
                j,
            )),
{
    let done = all.take(n);
    let more = all.take(n + 1);
    assert forall|k: int| 0 <= k < n implies #[trigger] reply_ids(more)[k] == reply_ids(
        done,
    )[k] by {}
    assert(reply_ids(more)[n] == reply_ids(all)[n]);
    assert forall|j: int| #[trigger] is_last_for(order, more, at, j) <==> j == n by {
        if is_last_for(order, more, at, j) && j < n {
            assert(order[reply_ids(more)[n]] != at);
        }
    }
    assert forall|i: int, j: int| i != at implies (#[trigger] is_last_for(order, more, i, j)
        <==> is_last_for(order, done, i, j)) by {
        if is_last_for(order, more, i, j) {
            assert forall|k: int| j < k < n implies order[#[trigger] reply_ids(done)[k]] != i by {
                assert(reply_ids(more)[k] == reply_ids(done)[k]);
            }
        }
        if is_last_for(order, done, i, j) {
            assert forall|k: int| j < k < n + 1 implies order[#[trigger] reply_ids(more)[k]]
                != i by {
                if k < n {
                    assert(reply_ids(done)[k] == reply_ids(more)[k]);
                }
            }
        }
    }
}

/// Takes an active subscription out and writes the request that tells the
/// server so.
pub fn build_unsubscribe_message(
    manager: &mut RequestManager,
    id: u64,
    subscription: SubscriptionId,
) -> (r: Option<RequestMessage>)
    requires
        old(manager).wf(),
    ensures
        final(manager).wf(),
        ({
            let before = old(manager)@;
            let key = subscription@;
            let found = before.subscriptions.contains_key(key) && before.subscriptions[key] == id;
            let active = before.requests[id]->Subscription_0;
            match r {
                Some(message) => {
                    &&& found
                    &&& before.is_active(id)
                    &&& message.raw@ == unsubscribe_text(
                        active.unsubscribe_id,
                        active.unsubscribe_method@,
                        key,
                    )
                    &&& message.id == active.unsubscribe_id
                    &&& message.send_back is None
                    &&& final(manager)@ == before.without_subscription(id, key)
                },
                None => !found && final(manager)@ == before,
            }
        }),
{
    proof {
        manager.lemma_coherent();
        assert(manager@.subscriptions.contains_key(subscription@) ==> manager@.is_active(
            manager@.subscriptions[subscription@],
        ));
    }
    match manager.remove_subscription(id, &subscription) {
        None => None,
        Some(active) => {
            let method = active.unsubscribe_method.as_str();
            let raw = write_unsubscribe(active.unsubscribe_id, method, &subscription);
            Some(RequestMessage { raw, id: active.unsubscribe_id, send_back: None })
        },
    }
}

/// Ends a subscription whose listener is gone, if it has not ended before.
pub fn settle_subscription(
    manager: &mut RequestManager,
    subscription: SubscriptionId,
    alive: bool,
) -> (r: Action)
    requires
        old(manager).wf(),
    ensures
        final(manager).wf(),
        settles(old(manager)@, subscription@, alive, r, final(manager)@),
{
    if alive {
        return Action::Wait;
    }
    match manager.get_request_id_by_subscription_id(&subscription) {
        None => Action::Wait,
        Some(id) => match build_unsubscribe_message(manager, id, subscription) {
            None => Action::Wait,
            Some(message) => Action::Send {
                raw: message.raw,
                sent: Sent::Unsubscribe(message.id),
            },
        },
    }
}

/// Deals with the reply to one request.
pub fn process_single_response(manager: &mut RequestManager, response: Response) -> (r: Action)
    requires
        old(manager).wf(),
    ensures
        final(manager).wf(),
        single_step(old(manager)@, response, r, final(manager)@),
{
    let id = match response.id.as_number() {
        Some(id) => id,
        None => return Action::Terminate(Some(ClientError::InvalidRequestId)),
    };
    match manager.request_status(id) {
        RequestStatus::PendingMethodCall => match manager.complete_pending_call(id) {
            Some(Some(send_back)) => Action::Deliver(
                Reply::Call { send_back, result: Ok(response.result) },
            ),
            Some(None) => Action::Wait,
            None => Action::Terminate(Some(ClientError::InvalidRequestId)),
        },
        RequestStatus::PendingSubscription => match manager.complete_pending_subscription(id) {
            Some(pending) => match read_subscription_id(&response.result) {
                Some(subscription) => Action::OpenSubscription(
                    Opening { id, subscription, pending },
                ),
                None => Action::Deliver(
                    Reply::NotSubscribed {
                        send_back: pending.send_back,
                        error: ClientError::InvalidSubscriptionId,
                    },
                ),
            },
            None => Action::Terminate(Some(ClientError::InvalidRequestId)),
        },
        RequestStatus::Subscription => Action::Terminate(Some(ClientError::InvalidRequestId)),
        RequestStatus::Invalid => Action::Terminate(Some(ClientError::InvalidRequestId)),
    }
}

/// Passes a notification of a subscription on to its listener. A subscription
/// whose listener is gone, or has fallen behind by more than the buffer of its
/// channel, ends.
pub fn process_subscription_response(
    manager: &mut RequestManager,
    response: SubscriptionResponse,
) -> (r: Action)
    requires
        old(manager).wf(),
    ensures
        final(manager).wf(),
        exists|uptake: Uptake|
            subscription_step(
                old(manager)@,
                response.subscription@,
                response.result,
                uptake,
                r,
                final(manager)@,
            ),
{
    let SubscriptionResponse { subscription, result } = response;
    let ghost key = subscription@;
    let ghost before = manager@;
    match manager.get_request_id_by_subscription_id(&subscription) {
        None => {
            assert(subscription_step(
                before,
                key,
                result,
                Uptake::Gone,
                Action::Wait,
                before,
            ));
            Action::Wait
        },
        Some(id) => {
            let uptake = manager.push_to_subscription(id, result);
            let ghost pushed = manager@;
            let r = settle_subscription(manager, subscription, uptake == Uptake::Taken);
            proof {
                if uptake !is Taken {
                    assert(offered(
                        before.requests[id]->Subscription_0.sink,
                        result,
                        uptake,
                        pushed.requests[id]->Subscription_0.sink,
                    ));
                    assert(pushed.without_subscription(id, key) =~= before.without_subscription(
                        id,
                        key,
                    ));
                }
                assert(subscription_step(before, key, result, uptake, r, manager@));
            }
            r
        },
    }
}

/// Drops a handler that is gone.
pub fn settle_handler(manager: &mut RequestManager, method: &String, alive: bool)
    requires
        old(manager).wf(),
    ensures
        final(manager).wf(),
        final(manager)@ == if alive {
            old(manager)@
        } else {
            old(manager)@.without_handler(method@)
        },
{
    if !alive {
        manager.remove_notification_handler(method);
    }
}

/// Passes another notification on to its handler. A handler that is gone, or
/// has fallen behind by more than the buffer of its channel, is dropped.
pub fn process_notification(manager: &mut RequestManager, notification: Notification) -> (r: Action)
    requires
        old(manager).wf(),
    ensures
        final(manager).wf(),
        exists|uptake: Uptake|
            notification_step(
                old(manager)@,
                notification.method@,
                notification.params,
                uptake,
                r,
                final(manager)@,
            ),
{
    let ghost before = manager@;
    let ghost method = notification.method@;
    let ghost value = notification.params;
    if !manager.has_handler(&notification.method) {
        assert(notification_step(
            before,
            method,
            value,
            Uptake::Gone,
            Action::Wait,
            before,
        ));
        return Action::Wait;
    }
    let uptake = manager.push_to_handler(&notification.method, notification.params);
    let ghost pushed = manager@;
    settle_handler(manager, &notification.method, uptake == Uptake::Taken);
    assert(offered(before.handlers[method], value, uptake, pushed.handlers[method]));
    assert(pushed.without_handler(method) =~= before.without_handler(method));
    assert(notification_step(before, method, value, uptake, Action::Wait, manager@));
    Action::Wait
}

/// Deals with the replies to a batch.
pub fn process_batch_response(manager: &mut RequestManager, responses: Vec<Response>) -> (r: Action)
    requires
        old(manager).wf(),
    ensures
        final(manager).wf(),
        batch_step(old(manager)@, responses@, r, final(manager)@),
{
    let mut ids: Vec<u64> = Vec::with_capacity(responses.len());
    let mut i: usize = 0;
    while i < responses.len()
        invariant
            i <= responses@.len(),
            ids@.len() == i,
            forall|j: int| 0 <= j < i ==> (#[trigger] responses@[j]).id.number() is Some,
            forall|j: int| 0 <= j < i ==> #[trigger] ids@[j] == responses@[j].id.number()->0,
            *manager == *old(manager),
            old(manager).wf(),
        decreases responses@.len() - i,
    {
        match responses[i].id.as_number() {
            Some(id) => ids.push(id),
            None => {
                assert(!all_numbered(responses@));
                return Action::Terminate(Some(ClientError::InvalidRequestId));
            },
        }
        i = i + 1;
    }
    assert(ids@ =~= reply_ids(responses@));
    let ghost before = manager@;
    match manager.complete_pending_batch(&ids) {
        None => {
            assert(manager@ =~= before);
            Action::Terminate(Some(ClientError::InvalidRequestId))
        },
        Some(state) => {
            let values = order_results(&state.order, responses);
            Action::Deliver(Reply::Batch { send_back: state.send_back, result: Ok(values) })
        },
    }
}

/// Deals with the report of a failed request.
pub fn process_error_response(manager: &mut RequestManager, error: RpcError) -> (r: Action)
    requires
        old(manager).wf(),
    ensures
        final(manager).wf(),
        failure_step(old(manager)@, error, r, final(manager)@),
{
    let id = match error.id.as_number() {
        Some(id) => id,
        None => return Action::Terminate(Some(ClientError::InvalidRequestId)),
    };
    match manager.request_status(id) {
        RequestStatus::PendingMethodCall => match manager.complete_pending_call(id) {
            Some(Some(send_back)) => Action::Deliver(
                Reply::Call { send_back, result: Err(ClientError::Request(error.message)) },
            ),
            Some(None) => Action::Wait,
            None => Action::Terminate(Some(ClientError::InvalidRequestId)),
        },
        RequestStatus::PendingSubscription => match manager.complete_pending_subscription(id) {
            Some(pending) => Action::Deliver(
                Reply::NotSubscribed {
                    send_back: pending.send_back,
                    error: ClientError::Request(error.message),
                },
            ),
            None => Action::Terminate(Some(ClientError::InvalidRequestId)),
        },
        RequestStatus::Subscription => Action::Terminate(Some(ClientError::InvalidRequestId)),
        RequestStatus::Invalid => Action::Terminate(Some(ClientError::InvalidRequestId)),
    }
}

/// Deals with a message of the server.
pub fn process_message(manager: &mut RequestManager, message: Incoming) -> (r: Action)
    requires
        old(manager).wf(),
    ensures
        final(manager).wf(),
        exists|uptake: Uptake| message_step(old(manager)@, message, uptake, r, final(manager)@),
{
    let ghost before = manager@;
    match message {
        Incoming::Single(response) => {
            let r = process_single_response(manager, response);
            assert(message_step(before, message, Uptake::Gone, r, manager@));
            r
        },
        Incoming::Subscription(response) => {
            let r = process_subscription_response(manager, response);
            proof {
                let uptake = choose|uptake: Uptake|
                    subscription_step(
                        before,
                        response.subscription@,
                        response.result,
                        uptake,
                        r,
                        manager@,
                    );
                assert(message_step(before, message, uptake, r, manager@));
            }
            r
        },
        Incoming::Notification(notification) => {
            let r = process_notification(manager, notification);
            proof {
                let uptake = choose|uptake: Uptake|
                    notification_step(
                        before,
                        notification.method@,
                        notification.params,
                        uptake,
                        r,
                        manager@,
                    );
                assert(message_step(before, message, uptake, r, manager@));
            }
            r
        },
        Incoming::Batch(responses) => {
            let r = process_batch_response(manager, responses);
            assert(message_step(before, message, Uptake::Gone, r, manager@));
            r
        },
        Incoming::Failure(error) => {
            let r = process_error_response(manager, error);
            assert(message_step(before, message, Uptake::Gone, r, manager@));
            r
        },
        Incoming::Unparsable => {
            let r = Action::Terminate(
                Some(ClientError::Custom("Unparsable response".to_owned())),
            );
            assert(message_step(before, message, Uptake::Gone, r, manager@));
            r
        },
    }
}

} // verus!

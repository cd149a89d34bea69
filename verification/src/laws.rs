//! What holds of a client across several steps.

use crate::action::{Action, Event, Incoming, Opening, Reply, Sent};
use crate::channel::{
    lemma_taken_push, sink_buffer, sink_feeds, sink_taken, sink_tried, taken, Uptake,
};
use crate::client::{reason_text, ClientState, ErrorFromBack, Reading};
use crate::decimal::{decimal, decimal_is_injective};
use crate::effects::{
    callers_are_told_what_was_decided, confirmation_gives_the_subscription_id,
    confirmed_subscription_becomes_active, notification_goes_to_its_handler,
    notification_goes_to_its_subscription, refused_notification_ends_the_subscription,
    registered_handler_gets_a_channel, was_refused,
};
use crate::error::ClientError;
use crate::frame::{message_end, request_text, unsubscribe_text};
use crate::ids::{id_after, ids_do_not_repeat};
use crate::json::{json_str, json_string, json_u64};
use crate::manager::{
    lemma_position_of, offered, Kind, ManagerState, PendingSubscription,
};
use crate::reply::{
    batch_arrives, batch_carries, call_arrives, call_carries, method_arrives, method_carries,
    subscription_arrives, subscription_carries,
};
use crate::run::{
    all_handler_items, all_items, concerns_batch, concerns_request, ends_handler, ends_listening,
    handler_comes_by_registration, handler_stays_in_run, inactive_until_opened,
    not_awaited_until_sent, notifications_stay_in_order, opens_subscription,
    pending_batch_stays_in_run, pending_request_stays_in_run, run_keeps_coherence, sends_request,
    sink_of, step_keeps_coherence, Run, Step,
};
use crate::step::{
    all_numbered, batch_step, can_be_pending, deliver_step, event_step, failure_step, front_step,
    is_last_for, open_handler_step, open_subscription_step, reply_ids, sent_step, settles,
    single_step, subscription_key, subscription_step,
};
use crate::types::{
    BatchAnswer, BatchMessage, CallAnswer, CallReply, FrontToBack, Id, MethodAnswer, Notification,
    Notifs, RegisterNotificationMessage, Response, RpcError, Sink, SubscriptionAnswer,
    SubscriptionId, SubscriptionKey, SubscriptionResponse,
};
use futures_channel::oneshot;
use serde_json::Value;
use vstd::prelude::*;

verus! {

/// A call that was sent is answered with the result in the server's reply,
/// whatever else happens before the reply: that result is what arrives at a
/// caller who waits for it. Then nothing of the call is kept.
pub proof fn reply_reaches_the_caller(
    start: ManagerState,
    id: u64,
    send_back: CallReply,
    receiver: oneshot::Receiver<CallAnswer>,
    on_sent: Action,
    run: Run,
    response: Response,
    replied: ManagerState,
    on_reply: Action,
    taken: bool,
    end: ManagerState,
    on_delivery: Action,
)
    requires
        can_be_pending(start, Sent::Request { id, send_back: Some(send_back) }),
        call_carries(send_back) == call_arrives(receiver),
        sent_step(
            start,
            Sent::Request { id, send_back: Some(send_back) },
            Ok(()),
            on_sent,
            run.first(),
        ),
        run.wf(),
        forall|i: int| 0 <= i < run.steps.len() ==> !concerns_request(#[trigger] run.steps[i], id),
        response.id.number() == Some(id),
        single_step(run.last(), response, on_reply, replied),
        deliver_step(replied, on_reply->Deliver_0, taken, on_delivery, end),
    ensures
        on_reply == Action::Deliver(Reply::Call { send_back, result: Ok(response.result) }),
        call_arrives(receiver) == Ok::<Value, ClientError>(response.result),
        on_delivery is Wait,
        end == run.last().without_request(id),
        run.steps.len() == 0 ==> end == start,
{
    pending_request_stays_in_run(run, id);
    assert(start.requests.insert(id, Kind::PendingMethodCall(Some(send_back))).remove(id)
        =~= start.requests);
}

/// A call that the server reports as failed ends with that report, whatever
/// else happens before the report: it is what arrives at the caller. Then
/// nothing of the call is kept.
pub proof fn failure_reaches_the_caller(
    start: ManagerState,
    id: u64,
    send_back: CallReply,
    receiver: oneshot::Receiver<CallAnswer>,
    on_sent: Action,
    run: Run,
    error: RpcError,
    failed: ManagerState,
    on_failure: Action,
    taken: bool,
    end: ManagerState,
    on_delivery: Action,
)
    requires
        can_be_pending(start, Sent::Request { id, send_back: Some(send_back) }),
        call_carries(send_back) == call_arrives(receiver),
        sent_step(
            start,
            Sent::Request { id, send_back: Some(send_back) },
            Ok(()),
            on_sent,
            run.first(),
        ),
        run.wf(),
        forall|i: int| 0 <= i < run.steps.len() ==> !concerns_request(#[trigger] run.steps[i], id),
        error.id.number() == Some(id),
        failure_step(run.last(), error, on_failure, failed),
        deliver_step(failed, on_failure->Deliver_0, taken, on_delivery, end),
    ensures
        on_failure is Deliver,
        call_arrives(receiver) == Err::<Value, ClientError>(ClientError::Request(error.message)),
        on_delivery is Wait,
        end == run.last().without_request(id),
        run.steps.len() == 0 ==> end == start,
{
    pending_request_stays_in_run(run, id);
    assert(start.requests.insert(id, Kind::PendingMethodCall(Some(send_back))).remove(id)
        =~= start.requests);
}

/// A request is answered once: unless its ID is sent again, a second reply or
/// failure with that ID, at whatever time, ends the task and changes nothing.
pub proof fn second_reply_is_rejected(
    before: ManagerState,
    id: u64,
    first: Response,
    on_first: Action,
    run: Run,
    second: Incoming,
    uptake: Uptake,
    on_second: Action,
    after: ManagerState,
)
    requires
        first.id.number() == Some(id),
        single_step(before, first, on_first, run.first()),
        on_first !is Terminate,
        run.wf(),
        forall|i: int| 0 <= i < run.steps.len() ==> !sends_request(#[trigger] run.steps[i], id),
        second matches Incoming::Single(response) ==> response.id.number() == Some(id),
        second matches Incoming::Failure(error) ==> error.id.number() == Some(id),
        second is Single || second is Failure,
        event_step(run.last(), Event::Message(second), uptake, on_second, after),
    ensures
        on_second == Action::Terminate(Some(ClientError::InvalidRequestId)),
        after == run.last(),
{
    not_awaited_until_sent(run, id);
}

/// A request that the transport fails to send is not kept, and its caller is
/// told why.
pub proof fn failed_request_leaves_no_trace(
    start: ManagerState,
    id: u64,
    send_back: CallReply,
    receiver: oneshot::Receiver<CallAnswer>,
    reason: String,
    on_report: Action,
    reported: ManagerState,
    taken: bool,
    on_delivery: Action,
    end: ManagerState,
)
    requires
        call_carries(send_back) == call_arrives(receiver),
        sent_step(
            start,
            Sent::Request { id, send_back: Some(send_back) },
            Err(reason),
            on_report,
            reported,
        ),
        deliver_step(reported, on_report->Deliver_0, taken, on_delivery, end),
    ensures
        on_report is Deliver,
        call_arrives(receiver) == Err::<Value, ClientError>(ClientError::Transport(reason)),
        end == start,
{
}

/// A subscription request that the transport fails to send is not kept, and the
/// subscriber is told why.
pub proof fn failed_subscription_leaves_no_trace(
    start: ManagerState,
    id: u64,
    pending: PendingSubscription,
    receiver: oneshot::Receiver<SubscriptionAnswer>,
    reason: String,
    on_report: Action,
    reported: ManagerState,
    taken: bool,
    on_delivery: Action,
    end: ManagerState,
)
    requires
        subscription_carries(pending.send_back) == subscription_arrives(receiver),
        sent_step(start, Sent::Subscription { id, pending }, Err(reason), on_report, reported),
        deliver_step(reported, on_report->Deliver_0, taken, on_delivery, end),
    ensures
        on_report is Deliver,
        subscription_arrives(receiver) == Err::<(Notifs, SubscriptionId), ClientError>(
            ClientError::Transport(reason),
        ),
        on_delivery is Wait,
        end == start,
{
}

/// A batch that the transport fails to send is not kept.
pub proof fn failed_batch_leaves_no_trace(
    start: ManagerState,
    batch: BatchMessage,
    reason: String,
    on_front: Action,
    pending: ManagerState,
    on_report: Action,
    end: ManagerState,
)
    requires
        front_step(start, FrontToBack::Batch(batch), on_front, pending),
        on_front is Send,
        sent_step(pending, on_front->sent, Err(reason), on_report, end),
    ensures
        on_report is Wait,
        end == start,
{
    let key = batch.ids@.to_multiset();
    assert(start.batches.insert(key, pending.batches[key]).remove(key) =~= start.batches);
}

/// While a batch is pending, whatever else happens, another with the same IDs,
/// in whatever order, is refused: its caller is told so, its text is not sent,
/// and the pending batch stays.
pub proof fn pending_batch_refuses_its_ids(
    start: ManagerState,
    batch: BatchMessage,
    on_front: Action,
    run: Run,
    again: BatchMessage,
    receiver: oneshot::Receiver<BatchAnswer>,
    on_again: Action,
    refused: ManagerState,
    taken: bool,
    on_delivery: Action,
    after: ManagerState,
)
    requires
        front_step(start, FrontToBack::Batch(batch), on_front, run.first()),
        run.wf(),
        forall|i: int|
            0 <= i < run.steps.len() ==> !concerns_batch(
                #[trigger] run.steps[i],
                batch.ids@.to_multiset(),
            ),
        again.ids@.to_multiset() == batch.ids@.to_multiset(),
        batch_carries(again.send_back) == batch_arrives(receiver),
        front_step(run.last(), FrontToBack::Batch(again), on_again, refused),
        deliver_step(refused, on_again->Deliver_0, taken, on_delivery, after),
    ensures
        on_again is Deliver,
        batch_arrives(receiver) == Err::<Vec<Value>, ClientError>(ClientError::InvalidRequestId),
        on_delivery is Wait,
        after == run.last(),
        after.batches.contains_key(batch.ids@.to_multiset()),
{
    pending_batch_stays_in_run(run, batch.ids@.to_multiset());
}

/// The replies to a batch may come in any order, and whatever else may happen
/// before. The caller gets the results in the order of the calls: the result at
/// position `k` is that of the reply with the ID of call `k`. Then nothing of
/// the batch is kept.
pub proof fn batch_results_are_in_call_order(
    start: ManagerState,
    batch: BatchMessage,
    receiver: oneshot::Receiver<BatchAnswer>,
    on_front: Action,
    run: Run,
    responses: Seq<Response>,
    on_reply: Action,
    replied: ManagerState,
    taken: bool,
    on_delivery: Action,
    end: ManagerState,
    k: int,
    j: int,
)
    requires
        batch_carries(batch.send_back) == batch_arrives(receiver),
        batch.ids@.no_duplicates(),
        front_step(start, FrontToBack::Batch(batch), on_front, run.first()),
        on_front is Send,
        run.wf(),
        forall|i: int|
            0 <= i < run.steps.len() ==> !concerns_batch(
                #[trigger] run.steps[i],
                batch.ids@.to_multiset(),
            ),
        all_numbered(responses),
        reply_ids(responses).to_multiset() == batch.ids@.to_multiset(),
        batch_step(run.last(), responses, on_reply, replied),
        deliver_step(replied, on_reply->Deliver_0, taken, on_delivery, end),
        0 <= k < batch.ids@.len(),
        0 <= j < responses.len(),
        responses[j].id.number() == Some(batch.ids@[k]),
    ensures
        batch_arrives(receiver) matches Ok(values) && values@.len() == batch.ids@.len()
            && values@[k] == responses[j].result,
        on_delivery is Wait,
        end == run.last().without_batch(batch.ids@.to_multiset()),
        run.steps.len() == 0 ==> end == start,
{
    broadcast use vstd::seq_lib::group_to_multiset_ensures;

    let ids = batch.ids@;
    let replies = reply_ids(responses);
    let key = ids.to_multiset();
    let state = run.first().batches[key];
    let order = state.order@;
    pending_batch_stays_in_run(run, key);
    assert(start.batches.insert(key, state).remove(key) =~= start.batches);
    assert(replies.to_multiset().len() == replies.len());
    assert(ids.to_multiset().len() == ids.len());
    assert(batch.ids.len() == ids.len());
    ids.lemma_multiset_has_no_duplicates();
    replies.lemma_multiset_has_no_duplicates_conv();
    lemma_position_of(ids, k);
    assert(replies[j] == ids[k]);
    assert forall|m: int| j < m < responses.len() implies order[#[trigger] replies[m]] != k by {
        assert(replies.contains(replies[m]));
        assert(key.count(replies[m]) > 0);
        assert(ids.contains(replies[m]));
        let n = choose|n: int| 0 <= n < ids.len() && ids[n] == replies[m];
        lemma_position_of(ids, n);
        assert(replies[m] != replies[j]);
    }
    assert(is_last_for(order, responses, k, j));
}

/// A subscription runs its course, whatever else happens meanwhile: the request
/// is sent, the server confirms it, the subscriber takes it and later drops it,
/// the server is told with the ID reserved for that, and confirms. When the
/// subscription ends, its request ID and its subscription ID are free; when the
/// server confirms, so is the reserved ID.
pub proof fn finished_subscription_leaves_no_trace(
    start: ManagerState,
    id: u64,
    pending: PendingSubscription,
    buffer: usize,
    on_sent: Action,
    until_confirmed: Run,
    confirmation: Response,
    confirmed: ManagerState,
    on_confirmation: Action,
    opened: ManagerState,
    on_opening: Action,
    on_delivery: Action,
    until_closed: Run,
    closing: FrontToBack,
    closed: ManagerState,
    on_closing: Action,
    on_told: Action,
    until_goodbye: Run,
    goodbye: Response,
    end: ManagerState,
    on_goodbye: Action,
)
    requires
        start.coherent(),
        can_be_pending(start, Sent::Subscription { id, pending }),
        sent_step(
            start,
            Sent::Subscription { id, pending },
            Ok(()),
            on_sent,
            until_confirmed.first(),
        ),
        until_confirmed.wf(),
        forall|i: int|
            0 <= i < until_confirmed.steps.len() ==> !concerns_request(
                #[trigger] until_confirmed.steps[i],
                id,
            ) && !concerns_request(until_confirmed.steps[i], pending.unsubscribe_id),
        confirmation.id.number() == Some(id),
        subscription_key(confirmation.result) is Some,
        !until_confirmed.last().subscriptions.contains_key(
            subscription_key(confirmation.result)->0,
        ),
        single_step(until_confirmed.last(), confirmation, on_confirmation, confirmed),
        open_subscription_step(
            confirmed,
            on_confirmation->OpenSubscription_0,
            buffer,
            on_opening,
            opened,
        ),
        deliver_step(opened, on_opening->Deliver_0, true, on_delivery, until_closed.first()),
        until_closed.wf(),
        forall|i: int|
            0 <= i < until_closed.steps.len() ==> !ends_listening(
                #[trigger] until_closed.steps[i],
                subscription_key(confirmation.result)->0,
            ) && !concerns_request(until_closed.steps[i], pending.unsubscribe_id),
        closing matches FrontToBack::SubscriptionClosed(subscription) && Some(subscription@)
            == subscription_key(confirmation.result),
        front_step(until_closed.last(), closing, on_closing, closed),
        sent_step(closed, on_closing->sent, Ok(()), on_told, until_goodbye.first()),
        until_goodbye.wf(),
        forall|i: int|
            0 <= i < until_goodbye.steps.len() ==> !concerns_request(
                #[trigger] until_goodbye.steps[i],
                pending.unsubscribe_id,
            ),
        goodbye.id.number() == Some(pending.unsubscribe_id),
        single_step(until_goodbye.last(), goodbye, on_goodbye, end),
    ensures
        on_confirmation is OpenSubscription,
        on_delivery is Wait,
        on_closing matches Action::Send { raw, sent } && raw@ == unsubscribe_text(
            pending.unsubscribe_id,
            pending.unsubscribe_method@,
            subscription_key(confirmation.result)->0,
        ) && sent == Sent::Unsubscribe(pending.unsubscribe_id),
        !closed.requests.contains_key(id),
        !closed.subscriptions.contains_key(subscription_key(confirmation.result)->0),
        on_told is Wait,
        on_goodbye is Wait,
        end == until_goodbye.last().without_request(pending.unsubscribe_id),
        until_confirmed.steps.len() == 0 && until_closed.steps.len() == 0
            && until_goodbye.steps.len() == 0 ==> end == start,
{
    let key = subscription_key(confirmation.result)->0;
    let other = pending.unsubscribe_id;
    let sent = Sent::Subscription { id, pending };
    step_keeps_coherence(start, Step::Learn(sent, Ok(())), on_sent, until_confirmed.first());
    pending_request_stays_in_run(until_confirmed, id);
    pending_request_stays_in_run(until_confirmed, other);
    run_keeps_coherence(until_confirmed);
    let reply = Event::Message(Incoming::Single(confirmation));
    let opening = on_confirmation->OpenSubscription_0;
    step_keeps_coherence(
        until_confirmed.last(),
        Step::Meet(reply, Uptake::Gone),
        on_confirmation,
        confirmed,
    );
    step_keeps_coherence(confirmed, Step::OpenSubscription(opening, buffer), on_opening, opened);
    assert(until_closed.first() == opened);
    assert(opened.requests[other] == Kind::PendingMethodCall(None));
    pending_request_stays_in_run(until_closed, other);
    notifications_stay_in_order(until_closed, key);
    assert(until_goodbye.first() == closed);
    assert(closed.requests[other] == Kind::PendingMethodCall(None));
    pending_request_stays_in_run(until_goodbye, other);
    if until_confirmed.steps.len() == 0 && until_closed.steps.len() == 0
        && until_goodbye.steps.len() == 0 {
        assert(end.requests =~= start.requests);
        assert(end.subscriptions =~= start.subscriptions);
    }
}

/// A subscriber who is gone when the server confirms does not keep the
/// subscription alive: the server is told that it has ended, and the
/// subscription ID is free.
pub proof fn absent_subscriber_ends_the_subscription(
    before: ManagerState,
    opening: Opening,
    buffer: usize,
    opened: ManagerState,
    on_opening: Action,
    after: ManagerState,
    on_delivery: Action,
)
    requires
        !before.requests.contains_key(opening.id),
        !before.subscriptions.contains_key(opening.subscription@),
        open_subscription_step(before, opening, buffer, on_opening, opened),
        deliver_step(opened, on_opening->Deliver_0, false, on_delivery, after),
    ensures
        on_delivery matches Action::Send { raw, sent } && raw@ == unsubscribe_text(
            opening.pending.unsubscribe_id,
            opening.pending.unsubscribe_method@,
            opening.subscription@,
        ) && sent == Sent::Unsubscribe(opening.pending.unsubscribe_id),
        after == before,
{
    assert(after.requests =~= before.requests);
    assert(after.subscriptions =~= before.subscriptions);
}

/// Once a subscription has ended, for whatever reason, ending it again does
/// nothing, unless it was opened anew.
pub proof fn subscription_ends_once(
    before: ManagerState,
    key: SubscriptionKey,
    on_first: Action,
    run: Run,
    alive: bool,
    on_second: Action,
    after: ManagerState,
)
    requires
        settles(before, key, false, on_first, run.first()),
        run.wf(),
        forall|i: int|
            0 <= i < run.steps.len() ==> !opens_subscription(#[trigger] run.steps[i], key),
        settles(run.last(), key, alive, on_second, after),
    ensures
        on_second is Wait,
        after == run.last(),
{
    inactive_until_opened(run, key);
}

/// A listener whose channel does not take a notification loses the subscription
/// and nothing else: the task goes on, and every other request, subscription,
/// batch and handler stays as it was. The same subscription ID can then be
/// registered again, and what comes later goes into the new channel.
pub proof fn slow_listener_loses_only_the_subscription(
    before: ManagerState,
    key: SubscriptionKey,
    value: Value,
    uptake: Uptake,
    action: Action,
    run: Run,
    opening: Opening,
    buffer: usize,
    on_opening: Action,
    opened: ManagerState,
    later: Value,
    on_later: Action,
    end: ManagerState,
)
    requires
        before.subscriptions.contains_key(key),
        uptake !is Taken,
        subscription_step(before, key, value, uptake, action, run.first()),
        run.wf(),
        forall|i: int|
            0 <= i < run.steps.len() ==> !opens_subscription(#[trigger] run.steps[i], key),
        opening.subscription@ == key,
        !run.last().requests.contains_key(opening.id),
        open_subscription_step(run.last(), opening, buffer, on_opening, opened),
        subscription_step(opened, key, later, Uptake::Taken, on_later, end),
    ensures
        action is Send,
        !run.first().subscriptions.contains_key(key),
        forall|other: SubscriptionKey|
            other != key ==> run.first().subscriptions.contains_key(other)
                == before.subscriptions.contains_key(other)
                && #[trigger] run.first().subscriptions[other] == before.subscriptions[other],
        forall|id: u64|
            id != before.subscriptions[key] ==> run.first().requests.contains_key(id)
                == before.requests.contains_key(id) && #[trigger] run.first().requests[id]
                == before.requests[id],
        run.first().batches == before.batches,
        run.first().handlers == before.handlers,
        on_opening matches Action::Deliver(Reply::Subscribed { notifs, .. }) && sink_feeds(
            sink_of(end, key),
            notifs,
        ),
        on_later is Wait,
        sink_taken(sink_of(end, key)) == seq![later],
{
    inactive_until_opened(run, key);
    let sink = sink_of(opened, key);
    assert(opened.subscriptions[key] == opening.id);
    lemma_taken_push(sink_tried(sink), later, Uptake::Taken);
    assert(taken(sink_tried(sink)) =~= Seq::<Value>::empty());
    assert(Seq::<Value>::empty().push(later) =~= seq![later]);
}

/// A channel that has taken no more notifications than its buffer size takes
/// another, as long as the listener is there and whatever else happens
/// meanwhile. Only a listener who falls behind by more, or is gone, loses the
/// subscription.
pub proof fn channel_takes_more_than_its_buffer(
    before: ManagerState,
    opening: Opening,
    buffer: usize,
    on_opening: Action,
    run: Run,
    value: Value,
    uptake: Uptake,
    action: Action,
    after: ManagerState,
)
    requires
        before.coherent(),
        !before.requests.contains_key(opening.id),
        !before.subscriptions.contains_key(opening.subscription@),
        open_subscription_step(before, opening, buffer, on_opening, run.first()),
        run.wf(),
        forall|i: int|
            0 <= i < run.steps.len() ==> !ends_listening(
                #[trigger] run.steps[i],
                opening.subscription@,
            ),
        all_items(run.steps, opening.subscription@).len() <= buffer,
        subscription_step(run.last(), opening.subscription@, value, uptake, action, after),
    ensures
        uptake !is Full,
        uptake !is Gone ==> action is Wait && sink_taken(sink_of(after, opening.subscription@))
            == all_items(run.steps, opening.subscription@).push(value),
        uptake is Gone ==> action is Send,
{
    let key = opening.subscription@;
    let first = sink_of(run.first(), key);
    let last = sink_of(run.last(), key);
    step_keeps_coherence(before, Step::OpenSubscription(opening, buffer), on_opening, run.first());
    notifications_stay_in_order(run, key);
    assert(taken(sink_tried(first)) =~= Seq::<Value>::empty());
    assert(sink_taken(last) =~= all_items(run.steps, key));
    lemma_taken_push(sink_tried(last), value, uptake);
    if uptake !is Taken {
        let tried = choose|tried: Sink| #[trigger] offered(last, value, uptake, tried);
        assert(offered(last, value, uptake, tried));
    }
}

/// The subscription that the server confirms is the subscriber's: the
/// subscriber is handed the very ID that the server gave, and whatever else
/// happens meanwhile, a later notification that carries this ID is put into the
/// channel whose other end the subscriber holds.
pub proof fn confirmed_id_leads_to_the_subscriber(
    before: ManagerState,
    id: u64,
    pending: PendingSubscription,
    receiver: oneshot::Receiver<SubscriptionAnswer>,
    given: SubscriptionId,
    confirmation: Response,
    first_uptake: Uptake,
    on_confirmation: Action,
    confirmed: ManagerState,
    buffer: usize,
    on_opening: Action,
    opened: ManagerState,
    on_delivery: Action,
    run: Run,
    response: SubscriptionResponse,
    uptake: Uptake,
    action: Action,
    after: ManagerState,
)
    requires
        before.coherent(),
        before.requests.contains_key(id),
        before.requests[id] == Kind::PendingSubscription(pending),
        !before.subscriptions.contains_key(given@),
        subscription_carries(pending.send_back) == subscription_arrives(receiver),
        confirmation.id == Id::Number(id),
        given matches SubscriptionId::Num(number) ==> json_u64(confirmation.result) == Some(number),
        given matches SubscriptionId::Str(text) ==> json_u64(confirmation.result) is None
            && json_str(confirmation.result) == Some(text@),
        event_step(
            before,
            Event::Message(Incoming::Single(confirmation)),
            first_uptake,
            on_confirmation,
            confirmed,
        ),
        open_subscription_step(
            confirmed,
            on_confirmation->OpenSubscription_0,
            buffer,
            on_opening,
            opened,
        ),
        deliver_step(opened, on_opening->Deliver_0, true, on_delivery, run.first()),
        run.wf(),
        forall|i: int|
            0 <= i < run.steps.len() ==> !ends_listening(#[trigger] run.steps[i], given@),
        response.subscription@ == given@,
        event_step(
            run.last(),
            Event::Message(Incoming::Subscription(response)),
            uptake,
            action,
            after,
        ),
    ensures
        subscription_arrives(receiver) matches Ok((notifs, subscription)) && subscription@ == given@
            && sink_feeds(sink_of(run.last(), given@), notifs) && (uptake is Taken ==> sink_feeds(
            sink_of(after, given@),
            notifs,
        )),
        uptake is Taken ==> sink_taken(sink_of(after, given@)) == all_items(run.steps, given@).push(
            response.result,
        ),
        uptake !is Taken ==> was_refused(
            sink_of(run.last(), given@),
            response.result,
            uptake,
        ),
{
    let key = given@;
    confirmation_gives_the_subscription_id(
        before,
        id,
        pending,
        confirmation,
        first_uptake,
        on_confirmation,
        confirmed,
    );
    let opening = on_confirmation->OpenSubscription_0;
    assert(opening.subscription@ == key);
    let met = Step::Meet(Event::Message(Incoming::Single(confirmation)), first_uptake);
    step_keeps_coherence(before, met, on_confirmation, confirmed);
    confirmed_subscription_becomes_active(confirmed, opening, buffer, on_opening, opened);
    step_keeps_coherence(confirmed, Step::OpenSubscription(opening, buffer), on_opening, opened);
    callers_are_told_what_was_decided(
        opened,
        on_opening->Deliver_0,
        true,
        on_delivery,
        run.first(),
    );
    assert(run.first() == opened);
    notifications_stay_in_order(run, key);
    let first = sink_of(run.first(), key);
    let last = sink_of(run.last(), key);
    assert(sink_tried(first) =~= seq![]);
    assert(sink_taken(first) =~= Seq::<Value>::empty());
    assert(sink_taken(last) =~= all_items(run.steps, key));
    lemma_taken_push(sink_tried(last), response.result, uptake);
    let request = run.last().subscriptions[key];
    if uptake is Taken {
        notification_goes_to_its_subscription(run.last(), request, response, action, after);
    } else {
        refused_notification_ends_the_subscription(
            run.last(),
            request,
            response,
            uptake,
            action,
            after,
        );
    }
}

/// The channel of a registered handler that has taken no more notifications
/// than the buffer size of the settings takes another, as long as its listener
/// is there and whatever else happens meanwhile. It goes to whoever registered
/// the handler.
pub proof fn handler_channel_takes_more_than_its_buffer(
    before: ManagerState,
    register: RegisterNotificationMessage,
    receiver: oneshot::Receiver<MethodAnswer>,
    buffer: usize,
    on_opening: Action,
    opened: ManagerState,
    told: bool,
    on_delivery: Action,
    run: Run,
    notification: Notification,
    uptake: Uptake,
    action: Action,
    after: ManagerState,
)
    requires
        !before.handlers.contains_key(register.method@),
        method_carries(register.send_back) == method_arrives(receiver),
        open_handler_step(before, register, buffer, on_opening, opened),
        deliver_step(opened, on_opening->Deliver_0, told, on_delivery, run.first()),
        run.wf(),
        forall|i: int|
            0 <= i < run.steps.len() ==> !ends_handler(#[trigger] run.steps[i], register.method@),
        all_handler_items(run.steps, register.method@).len() <= buffer,
        notification.method@ == register.method@,
        event_step(
            run.last(),
            Event::Message(Incoming::Notification(notification)),
            uptake,
            action,
            after,
        ),
    ensures
        uptake !is Full,
        uptake is Taken ==> after.handlers.contains_key(register.method@) && sink_taken(
            after.handlers[register.method@],
        ) == all_handler_items(run.steps, register.method@).push(notification.params) && (
        method_arrives(receiver) matches Ok((notifs, method)) && method == register.method
            && sink_feeds(after.handlers[register.method@], notifs)),
        uptake is Gone ==> !after.handlers.contains_key(register.method@),
{
    let method = register.method@;
    registered_handler_gets_a_channel(before, register, buffer, on_opening, opened);
    callers_are_told_what_was_decided(
        opened,
        on_opening->Deliver_0,
        told,
        on_delivery,
        run.first(),
    );
    handler_stays_in_run(run, method);
    let first = run.first().handlers[method];
    let last = run.last().handlers[method];
    assert(sink_tried(first) =~= seq![]);
    assert(sink_taken(first) =~= Seq::<Value>::empty());
    assert(sink_taken(last) =~= all_handler_items(run.steps, method));
    lemma_taken_push(sink_tried(last), notification.params, uptake);
    notification_goes_to_its_handler(run.last(), notification, uptake, action, after);
}

/// A method has one handler at a time, whatever else happens: while there is
/// one, whoever registers another is told so, and the first stays; once it is
/// unregistered, another is accepted. Whoever is accepted gets the other end of
/// the handler's channel.
pub proof fn one_handler_at_a_time(
    start: ManagerState,
    buffer: usize,
    first: RegisterNotificationMessage,
    first_receiver: oneshot::Receiver<MethodAnswer>,
    on_first: Action,
    registered: ManagerState,
    first_taken: bool,
    after_first: Action,
    meanwhile: Run,
    second: RegisterNotificationMessage,
    second_receiver: oneshot::Receiver<MethodAnswer>,
    on_second: Action,
    refused: ManagerState,
    second_taken: bool,
    after_second: Action,
    kept: ManagerState,
    unregister: FrontToBack,
    on_unregister: Action,
    later: Run,
    third: RegisterNotificationMessage,
    third_receiver: oneshot::Receiver<MethodAnswer>,
    on_third: Action,
    opened: ManagerState,
    third_taken: bool,
    after_third: Action,
    end: ManagerState,
)
    requires
        !start.handlers.contains_key(first.method@),
        method_carries(first.send_back) == method_arrives(first_receiver),
        method_carries(second.send_back) == method_arrives(second_receiver),
        method_carries(third.send_back) == method_arrives(third_receiver),
        open_handler_step(start, first, buffer, on_first, registered),
        deliver_step(registered, on_first->Deliver_0, first_taken, after_first, meanwhile.first()),
        meanwhile.wf(),
        forall|i: int|
            0 <= i < meanwhile.steps.len() ==> !ends_handler(
                #[trigger] meanwhile.steps[i],
                first.method@,
            ),
        second.method@ == first.method@,
        open_handler_step(meanwhile.last(), second, buffer, on_second, refused),
        deliver_step(refused, on_second->Deliver_0, second_taken, after_second, kept),
        unregister matches FrontToBack::UnregisterNotification(method) && method@ == first.method@,
        front_step(kept, unregister, on_unregister, later.first()),
        later.wf(),
        forall|i: int|
            0 <= i < later.steps.len() ==> !((#[trigger] later.steps[i]) matches Step::OpenHandler(
                register,
                _,
            ) && register.method@ == first.method@),
        third.method@ == first.method@,
        open_handler_step(later.last(), third, buffer, on_third, opened),
        deliver_step(opened, on_third->Deliver_0, third_taken, after_third, end),
    ensures
        method_arrives(first_receiver) matches Ok((notifs, method)) && method == first.method
            && sink_feeds(meanwhile.last().handlers[first.method@], notifs),
        method_arrives(second_receiver) == Err::<(Notifs, String), ClientError>(
            ClientError::MethodAlreadyRegistered(second.method),
        ),
        kept == meanwhile.last(),
        later.first() == kept.without_handler(first.method@),
        meanwhile.steps.len() == 0 ==> later.first() == start,
        method_arrives(third_receiver) matches Ok((notifs, method)) && method == third.method
            && sink_feeds(end.handlers[first.method@], notifs),
{
    handler_stays_in_run(meanwhile, first.method@);
    handler_comes_by_registration(later, first.method@);
    if meanwhile.steps.len() == 0 {
        assert(later.first().handlers =~= start.handlers);
    }
}

/// The text that a message of a caller hands to the transport, unless it is a
/// batch whose IDs are pending.
pub open spec fn text_of(state: ManagerState, message: FrontToBack) -> Seq<String> {
    match message {
        FrontToBack::Batch(batch) => if state.batches.contains_key(batch.ids@.to_multiset()) {
            seq![]
        } else {
            seq![batch.raw]
        },
        FrontToBack::Notification(raw) => seq![raw],
        FrontToBack::Request(request) => seq![request.raw],
        FrontToBack::Subscribe(sub) => seq![sub.raw],
        _ => seq![],
    }
}

/// The texts that messages of callers hand to the transport, each met in the
/// state at its place.
pub open spec fn texts_of(states: Seq<ManagerState>, messages: Seq<FrontToBack>) -> Seq<String>
    decreases messages.len(),
{
    if messages.len() == 0 {
        seq![]
    } else {
        let n = messages.len() - 1;
        texts_of(states, messages.drop_last()) + text_of(states[n], messages[n])
    }
}

/// The callers' texts among the actions. The request that ends a subscription
/// is the task's own.
pub open spec fn texts_sent(actions: Seq<Action>) -> Seq<String>
    decreases actions.len(),
{
    if actions.len() == 0 {
        seq![]
    } else {
        texts_sent(actions.drop_last()) + match actions.last() {
            Action::Send { raw, sent } => if sent is Unsubscribe {
                seq![]
            } else {
                seq![raw]
            },
            _ => seq![],
        }
    }
}

/// The texts of the callers are handed to the transport unchanged, once each,
/// in the order in which the callers' messages come, whatever the task meets in
/// between.
pub proof fn texts_are_sent_in_order(
    states: Seq<ManagerState>,
    messages: Seq<FrontToBack>,
    actions: Seq<Action>,
    after: Seq<ManagerState>,
)
    requires
        states.len() == messages.len(),
        actions.len() == messages.len(),
        after.len() == messages.len(),
        forall|i: int|
            0 <= i < messages.len() ==> front_step(
                #[trigger] states[i],
                messages[i],
                actions[i],
                after[i],
            ),
    ensures
        texts_sent(actions) == texts_of(states, messages),
    decreases messages.len(),
{
    if messages.len() > 0 {
        let n = messages.len() - 1;
        let front = messages.drop_last();
        texts_are_sent_in_order(
            states.drop_last(),
            front,
            actions.drop_last(),
            after.drop_last(),
        );
        lemma_texts_of_prefix(states, front);
        assert(front_step(states[n], messages[n], actions[n], after[n]));
        assert(actions.last() == actions[n]);
    }
}

/// The texts of some messages depend on no later state.
proof fn lemma_texts_of_prefix(states: Seq<ManagerState>, messages: Seq<FrontToBack>)
    requires
        messages.len() < states.len(),
    ensures
        texts_of(states.drop_last(), messages) == texts_of(states, messages),
    decreases messages.len(),
{
    if messages.len() > 0 {
        lemma_texts_of_prefix(states, messages.drop_last());
    }
}

/// A subscriber gets the other end of the channel into which the task puts the
/// notifications, empty so far, with the buffer size asked for. For a subscriber
/// who takes it, the subscription stays active.
pub proof fn subscriber_gets_the_channel(
    before: ManagerState,
    opening: Opening,
    receiver: oneshot::Receiver<SubscriptionAnswer>,
    buffer: usize,
    opened: ManagerState,
    on_opening: Action,
    taken: bool,
    after: ManagerState,
    on_delivery: Action,
)
    requires
        subscription_carries(opening.pending.send_back) == subscription_arrives(receiver),
        !before.requests.contains_key(opening.id),
        !before.subscriptions.contains_key(opening.subscription@),
        open_subscription_step(before, opening, buffer, on_opening, opened),
        deliver_step(opened, on_opening->Deliver_0, taken, on_delivery, after),
    ensures
        subscription_arrives(receiver) matches Ok((notifs, subscription)) && subscription
            == opening.subscription && sink_feeds(sink_of(opened, subscription@), notifs),
        sink_taken(sink_of(opened, opening.subscription@)) == Seq::<Value>::empty(),
        sink_buffer(sink_of(opened, opening.subscription@)) == buffer,
        taken ==> on_delivery is Wait && after == opened,
{
    assert(sink_taken(sink_of(opened, opening.subscription@)) =~= Seq::<Value>::empty());
}

/// What ends the task leaves its state alone.
pub proof fn ending_changes_nothing(
    before: ManagerState,
    event: Event,
    uptake: Uptake,
    action: Action,
    after: ManagerState,
)
    requires
        event_step(before, event, uptake, action, after),
        action is Terminate,
    ensures
        after == before,
{
}

/// Nothing that a caller asks for ends the task, and neither does a
/// notification of the server. Only the end of all callers is no error.
pub proof fn who_can_end_the_task(
    before: ManagerState,
    event: Event,
    uptake: Uptake,
    action: Action,
    after: ManagerState,
)
    requires
        event_step(before, event, uptake, action, after),
    ensures
        event is Front ==> action !is Terminate,
        event matches Event::Message(message) && (message is Subscription
            || message is Notification) ==> action !is Terminate,
        action == Action::Terminate(None) <==> event is FrontClosed,
{
}

/// Whether every request ID in use is one of `entered`.
pub open spec fn uses_only(state: ManagerState, entered: Set<u64>) -> bool {
    forall|id: u64| #[trigger] state.requests.contains_key(id) ==> entered.contains(id)
}

/// The request IDs that what was sent puts to use.
pub open spec fn entering(sent: Sent) -> Set<u64> {
    match sent {
        Sent::Request { id, .. } => set![id],
        Sent::Subscription { id, pending } => set![id, pending.unsubscribe_id],
        _ => Set::empty(),
    }
}

/// A request ID comes into use only by being sent: no event and no delivery
/// brings one in.
pub proof fn events_bring_no_ids(
    before: ManagerState,
    entered: Set<u64>,
    event: Event,
    uptake: Uptake,
    reply: Reply,
    taken: bool,
    action: Action,
    after: ManagerState,
)
    requires
        uses_only(before, entered),
        event_step(before, event, uptake, action, after) || deliver_step(
            before,
            reply,
            taken,
            action,
            after,
        ),
    ensures
        uses_only(after, entered),
{
}

/// A confirmed subscription goes on with the ID that its request had.
pub proof fn opening_brings_no_other_id(
    before: ManagerState,
    entered: Set<u64>,
    opening: Opening,
    buffer: usize,
    action: Action,
    after: ManagerState,
)
    requires
        uses_only(before, entered),
        entered.contains(opening.id),
        open_subscription_step(before, opening, buffer, action, after),
    ensures
        uses_only(after, entered),
{
}

/// The ID of a subscription that awaits its channel has been in use.
pub proof fn confirmed_id_was_in_use(
    before: ManagerState,
    entered: Set<u64>,
    response: Response,
    action: Action,
    after: ManagerState,
)
    requires
        uses_only(before, entered),
        single_step(before, response, action, after),
        action is OpenSubscription,
    ensures
        entered.contains(action->OpenSubscription_0.id),
{
}

/// IDs that were never in use before can be entered as pending, and then are
/// the only ones that have come into use.
pub proof fn new_ids_can_be_entered(
    before: ManagerState,
    entered: Set<u64>,
    sent: Sent,
    report: Result<(), String>,
    action: Action,
    after: ManagerState,
)
    requires
        uses_only(before, entered),
        entered.disjoint(entering(sent)),
        sent matches Sent::Subscription { id, pending } ==> id != pending.unsubscribe_id,
        sent_step(before, sent, report, action, after),
    ensures
        can_be_pending(before, sent),
        uses_only(after, entered.union(entering(sent))),
{
    match sent {
        Sent::Request { id, .. } => {
            assert(entering(sent).contains(id));
        },
        Sent::Subscription { id, pending } => {
            assert(entering(sent).contains(id));
            assert(entering(sent).contains(pending.unsubscribe_id));
        },
        _ => {},
    }
}

/// The IDs at some of the places in the order in which a client hands IDs out.
pub open spec fn ids_at(first: u64, places: Set<nat>) -> Set<u64> {
    Set::new(|id: u64| exists|k: nat| #[trigger] places.contains(k) && id == id_after(first, k))
}

/// The IDs that a client has handed out and not sent yet are none of those that
/// it has sent, as long as it hands out at most 2^64 of them. So what is sent
/// can always be entered as pending.
pub proof fn unsent_ids_are_new(first: u64, total: nat, sent: Set<nat>, unsent: Set<nat>)
    requires
        total <= 0x1_0000_0000_0000_0000,
        forall|k: nat| #[trigger] sent.contains(k) ==> k < total,
        forall|k: nat| #[trigger] unsent.contains(k) ==> k < total,
        sent.disjoint(unsent),
    ensures
        ids_at(first, sent).disjoint(ids_at(first, unsent)),
        ids_at(first, sent).union(ids_at(first, unsent)) == ids_at(first, sent.union(unsent)),
{
    let old_ids = ids_at(first, sent);
    let new_ids = ids_at(first, unsent);
    let all_ids = ids_at(first, sent.union(unsent));
    assert forall|id: u64| !(old_ids.contains(id) && #[trigger] new_ids.contains(id)) by {
        if old_ids.contains(id) && new_ids.contains(id) {
            let i = choose|k: nat| #[trigger] sent.contains(k) && id == id_after(first, k);
            let j = choose|k: nat| #[trigger] unsent.contains(k) && id == id_after(first, k);
            if i < j {
                ids_do_not_repeat(first, i, j);
            } else if j < i {
                ids_do_not_repeat(first, j, i);
            }
        }
    }
    assert forall|id: u64| #[trigger]
        old_ids.union(new_ids).contains(id) == all_ids.contains(id) by {
        if old_ids.contains(id) {
            let k = choose|k: nat| #[trigger] sent.contains(k) && id == id_after(first, k);
            assert(sent.union(unsent).contains(k));
        }
        if new_ids.contains(id) {
            let k = choose|k: nat| #[trigger] unsent.contains(k) && id == id_after(first, k);
            assert(sent.union(unsent).contains(k));
        }
        if all_ids.contains(id) {
            let k = choose|k: nat| #[trigger]
                sent.union(unsent).contains(k) && id == id_after(first, k);
            assert(sent.contains(k) || unsent.contains(k));
        }
    }
    assert(old_ids.union(new_ids) =~= all_ids);
}

/// Once the reason has been taken, every later caller gets the same error, and
/// the same text is kept.
pub proof fn every_reading_gives_the_same_error(
    kept: ErrorFromBack,
    error: ClientError,
    reason: Option<ClientError>,
)
    requires
        ErrorFromBack::tells(kept, error, reason),
    ensures
        kept.reading() == Reading::Done(kept, error),
        error.describe() == "The background task been terminated because: "@ + reason_text(reason)
            + "; restart required"@,
{
}

/// A call gets a slot if and only if fewer requests are under way than allowed.
/// Then one more is under way, and the next ID has moved on; a call that gets no
/// slot is told so and changes nothing. Nothing else of the client changes.
pub proof fn call_takes_one_slot(
    before: ClientState,
    n: nat,
    error: ClientError,
    after: ClientState,
)
    ensures
        before.accepts(n, after) ==> before.ids.pending < before.ids.limit && after.ids.pending
            == before.ids.pending + 1 && after.ids.limit == before.ids.limit && after.ids.next_id
            == id_after(before.ids.next_id, n) && after.to_back == before.to_back
            && after.request_timeout == before.request_timeout,
        before.refuses(error, after) ==> before.ids.pending >= before.ids.limit && error
            == ClientError::MaxSlotsExceeded && after == before,
{
}

/// Why the task has ended is asked of the task once; the answer is kept, and
/// every caller gets it, word for word.
pub proof fn end_reason_is_read_once(
    text: String,
    receiver: oneshot::Receiver<ClientError>,
    kept: ErrorFromBack,
    error: ClientError,
    reason: Option<ClientError>,
)
    ensures
        ErrorFromBack::Read(text).reading() == Reading::Done(
            ErrorFromBack::Read(text),
            ClientError::RestartNeeded(text),
        ),
        ErrorFromBack::Unread(receiver).reading() == Reading::Pending(receiver),
        ErrorFromBack::tells(kept, error, reason) ==> (error matches ClientError::RestartNeeded(
            told,
        ) && kept == ErrorFromBack::Read(told) && told@ == match reason {
            Some(cause) => cause.describe(),
            None => "Error reason could not be found. This is a bug. Please open an issue."@,
        }),
{
}

/// A call that has given its slot back leaves as many slots free as there were
/// before, and so does a call that is refused.
pub proof fn slots_are_given_back(
    before: ClientState,
    n: nat,
    error: ClientError,
    accepted: ClientState,
    after: ClientState,
)
    requires
        before.refuses(error, after) || (before.accepts(n, accepted) && after
            == accepted.with_ids(accepted.ids.release())),
    ensures
        after.ids.pending == before.ids.pending,
        after.ids.limit == before.ids.limit,
        after.ids.has_slot() == before.ids.has_slot(),
{
}

/// No decimal notation holds a comma.
proof fn lemma_digits_only(n: nat, i: int)
    requires
        0 <= i < decimal(n).len(),
    ensures
        decimal(n)[i] != ',',
    decreases n,
{
    if n >= 10 && i < decimal(n / 10).len() {
        lemma_digits_only(n / 10, i);
    }
}

/// The text of a request shows its ID: requests with different IDs have
/// different texts, whatever they call.
pub proof fn request_text_shows_the_id(
    a: u64,
    method_a: Seq<char>,
    params_a: Option<Seq<char>>,
    b: u64,
    method_b: Seq<char>,
    params_b: Option<Seq<char>>,
)
    requires
        request_text(a, method_a, params_a) == request_text(b, method_b, params_b),
    ensures
        a == b,
{
    reveal_strlit(",\"method\":");
    let head = "{\"jsonrpc\":\"2.0\",\"id\":"@;
    let digits_a = decimal(a as nat);
    let digits_b = decimal(b as nat);
    let tail_a = ",\"method\":"@ + json_string(method_a) + message_end(params_a);
    let tail_b = ",\"method\":"@ + json_string(method_b) + message_end(params_b);
    let text = request_text(a, method_a, params_a);
    let n = head.len() as int;
    assert(text =~= head + (digits_a + tail_a));
    assert(request_text(b, method_b, params_b) =~= head + (digits_b + tail_b));
    assert(text[n + digits_a.len()] == tail_a[0]);
    assert(text[n + digits_b.len()] == tail_b[0]);
    assert(tail_a[0] == ',' && tail_b[0] == ',');
    if digits_a.len() < digits_b.len() {
        assert(text[n + digits_a.len()] == digits_b[digits_a.len() as int]);
        lemma_digits_only(b as nat, digits_a.len() as int);
    }
    if digits_b.len() < digits_a.len() {
        assert(text[n + digits_b.len()] == digits_a[digits_b.len() as int]);
        lemma_digits_only(a as nat, digits_b.len() as int);
    }
    assert forall|i: int| 0 <= i < digits_a.len() implies digits_a[i] == digits_b[i] by {
        assert(text[n + i] == digits_a[i]);
        assert(text[n + i] == digits_b[i]);
    }
    assert(digits_a =~= digits_b);
    decimal_is_injective(a as nat, b as nat);
}

} // verus!

//! Runs of the background task: any number of steps of any kind, one after
//! another, and what such a run leaves as it was.

use crate::action::{Action, Event, Incoming, Opening, Reply, Sent};
use crate::channel::{lemma_taken_push, sink_alone, sink_taken, sink_tried, Uptake};
use crate::manager::{
    lemma_positions_fit, lemma_same_subscriptions, lemma_with_subscription,
    lemma_without_subscription, same_channel, ActiveSubscription, ManagerState,
};
use crate::step::{
    all_numbered, can_be_pending, deliver_step, event_step, open_handler_step,
    open_subscription_step, reply_ids, sent_step,
};
use crate::types::{FrontToBack, RegisterNotificationMessage, Sink, SubscriptionKey};
use serde_json::Value;
use vstd::multiset::Multiset;
use vstd::prelude::*;

verus! {

/// What the task does in one step, with how the world outside responds.
pub enum Step {
    /// It meets an event. The second part is what became of a notification at
    /// the channel of its listener, if there was one.
    Meet(Event, Uptake),
    /// It learns how sending went.
    Learn(Sent, Result<(), String>),
    /// It makes the channel of a subscription, with this buffer size.
    OpenSubscription(Opening, usize),
    /// It makes the channel of a notification handler, with this buffer size.
    OpenHandler(RegisterNotificationMessage, usize),
    /// It tells a caller something. The second part says whether the caller
    /// was still there.
    Tell(Reply, bool),
}

/// What a step leads to.
pub open spec fn task_step(
    before: ManagerState,
    step: Step,
    action: Action,
    after: ManagerState,
) -> bool {
    match step {
        Step::Meet(event, uptake) => event_step(before, event, uptake, action, after),
        Step::Learn(sent, report) => {
            &&& report is Ok ==> can_be_pending(before, sent)
            &&& sent_step(before, sent, report, action, after)
        },
        Step::OpenSubscription(opening, buffer) => open_subscription_step(
            before,
            opening,
            buffer,
            action,
            after,
        ),
        Step::OpenHandler(register, buffer) => open_handler_step(
            before,
            register,
            buffer,
            action,
            after,
        ),
        Step::Tell(reply, taken) => deliver_step(before, reply, taken, action, after),
    }
}

/// Steps one after another: step `i` leads from state `i` to state `i + 1`.
pub struct Run {
    /// The states.
    pub states: Seq<ManagerState>,
    /// The steps.
    pub steps: Seq<Step>,
    /// What each step says to do next.
    pub actions: Seq<Action>,
}

impl Run {
    /// Each step leads from its state to the next.
    pub open spec fn wf(self) -> bool {
        &&& self.states.len() == self.steps.len() + 1
        &&& self.actions.len() == self.steps.len()
        &&& forall|i: int|
            0 <= i < self.steps.len() ==> task_step(
                #[trigger] self.states[i],
                self.steps[i],
                self.actions[i],
                self.states[i + 1],
            )
    }

    /// The state before the first step.
    pub open spec fn first(self) -> ManagerState {
        self.states[0]
    }

    /// The state after the last step.
    pub open spec fn last(self) -> ManagerState {
        self.states.last()
    }

    /// The run without its last step.
    pub open spec fn front(self) -> Run {
        Run {
            states: self.states.drop_last(),
            steps: self.steps.drop_last(),
            actions: self.actions.drop_last(),
        }
    }
}

/// A run without its last step is a run, and the last step leads on from it.
proof fn lemma_front(run: Run)
    requires
        run.wf(),
        run.steps.len() > 0,
    ensures
        run.front().wf(),
        run.front().first() == run.first(),
        task_step(run.front().last(), run.steps.last(), run.actions.last(), run.last()),
{
    let front = run.front();
    let n = front.steps.len() as int;
    assert forall|i: int| 0 <= i < front.steps.len() implies task_step(
        #[trigger] front.states[i],
        front.steps[i],
        front.actions[i],
        front.states[i + 1],
    ) by {
        assert(front.states[i] == run.states[i]);
    }
    assert(task_step(run.states[n], run.steps[n], run.actions[n], run.states[n + 1]));
}

/// Every step keeps the state coherent.
pub proof fn step_keeps_coherence(
    before: ManagerState,
    step: Step,
    action: Action,
    after: ManagerState,
)
    requires
        before.coherent(),
        task_step(before, step, action, after),
    ensures
        after.coherent(),
{
    match step {
        Step::Meet(Event::Front(FrontToBack::Batch(batch)), _) => {
            assert(batch.ids.len() == batch.ids@.len());
            lemma_positions_fit(batch.ids@);
            lemma_same_subscriptions(before, after);
        },
        Step::Meet(Event::Front(FrontToBack::SubscriptionClosed(subscription)), _) => {
            lemma_ends_coherently(before, subscription@, after);
        },
        Step::Meet(Event::Message(Incoming::Subscription(response)), uptake) => {
            let key = response.subscription@;
            if before.subscriptions.contains_key(key) && uptake is Taken {
                lemma_same_subscriptions(before, after);
            } else {
                lemma_ends_coherently(before, key, after);
            }
        },
        Step::OpenSubscription(opening, _) => {
            let key = opening.subscription@;
            if !before.requests.contains_key(opening.id) && !before.subscriptions.contains_key(
                key,
            ) {
                let active = after.requests[opening.id]->Subscription_0;
                lemma_with_subscription(before, opening.id, key, active);
            }
        },
        Step::Tell(Reply::Subscribed { subscription, .. }, _) => {
            lemma_ends_coherently(before, subscription@, after);
        },
        _ => {
            lemma_same_subscriptions(before, after);
        },
    }
}

proof fn lemma_ends_coherently(before: ManagerState, key: SubscriptionKey, after: ManagerState)
    requires
        before.coherent(),
        after == before || (before.subscriptions.contains_key(key) && after
            == before.without_subscription(before.subscriptions[key], key)),
    ensures
        after.coherent(),
{
    if after != before {
        lemma_without_subscription(before, before.subscriptions[key], key);
    }
}

/// A run keeps the state coherent.
pub proof fn run_keeps_coherence(run: Run)
    requires
        run.wf(),
        run.first().coherent(),
    ensures
        run.last().coherent(),
    decreases run.steps.len(),
{
    if run.steps.len() > 0 {
        lemma_front(run);
        run_keeps_coherence(run.front());
        step_keeps_coherence(
            run.front().last(),
            run.steps.last(),
            run.actions.last(),
            run.last(),
        );
    }
}

/// Whether the step is about the request `id`: the server answers it, or it
/// asks to unsubscribe and cannot be sent.
pub open spec fn concerns_request(step: Step, id: u64) -> bool {
    match step {
        Step::Meet(Event::Message(Incoming::Single(response)), _) => response.id.number() == Some(
            id,
        ),
        Step::Meet(Event::Message(Incoming::Failure(error)), _) => error.id.number() == Some(id),
        Step::Learn(Sent::Unsubscribe(other), report) => other == id && report is Err,
        _ => false,
    }
}

/// A call or a subscription request that awaits its answer goes on waiting,
/// whatever happens that is not about it.
pub proof fn pending_request_stays(
    before: ManagerState,
    step: Step,
    action: Action,
    after: ManagerState,
    id: u64,
)
    requires
        task_step(before, step, action, after),
        before.requests.contains_key(id),
        before.requests[id] !is Subscription,
        !concerns_request(step, id),
    ensures
        after.requests.contains_key(id),
        after.requests[id] == before.requests[id],
{
}

/// The same over a run.
pub proof fn pending_request_stays_in_run(run: Run, id: u64)
    requires
        run.wf(),
        run.first().requests.contains_key(id),
        run.first().requests[id] !is Subscription,
        forall|i: int| 0 <= i < run.steps.len() ==> !concerns_request(#[trigger] run.steps[i], id),
    ensures
        run.last().requests.contains_key(id),
        run.last().requests[id] == run.first().requests[id],
    decreases run.steps.len(),
{
    if run.steps.len() > 0 {
        let front = run.front();
        lemma_front(run);
        assert forall|i: int| 0 <= i < front.steps.len() implies !concerns_request(
            #[trigger] front.steps[i],
            id,
        ) by {
            assert(front.steps[i] == run.steps[i]);
        }
        pending_request_stays_in_run(front, id);
        let last = run.steps.len() - 1;
        assert(run.steps[last] == run.steps.last());
        pending_request_stays(front.last(), run.steps.last(), run.actions.last(), run.last(), id);
    }
}

/// Whether the step is about the batch with these IDs: the server answers it,
/// or it cannot be sent.
pub open spec fn concerns_batch(step: Step, ids: Multiset<u64>) -> bool {
    match step {
        Step::Meet(Event::Message(Incoming::Batch(responses)), _) => all_numbered(responses@)
            && reply_ids(responses@).to_multiset() == ids,
        Step::Learn(Sent::Batch(sent), report) => sent@.to_multiset() == ids && report is Err,
        _ => false,
    }
}

/// A batch that awaits its answer goes on waiting, whatever happens that is not
/// about it.
pub proof fn pending_batch_stays(
    before: ManagerState,
    step: Step,
    action: Action,
    after: ManagerState,
    ids: Multiset<u64>,
)
    requires
        task_step(before, step, action, after),
        before.batches.contains_key(ids),
        !concerns_batch(step, ids),
    ensures
        after.batches.contains_key(ids),
        after.batches[ids] == before.batches[ids],
{
}

/// The same over a run.
pub proof fn pending_batch_stays_in_run(run: Run, ids: Multiset<u64>)
    requires
        run.wf(),
        run.first().batches.contains_key(ids),
        forall|i: int| 0 <= i < run.steps.len() ==> !concerns_batch(#[trigger] run.steps[i], ids),
    ensures
        run.last().batches.contains_key(ids),
        run.last().batches[ids] == run.first().batches[ids],
    decreases run.steps.len(),
{
    if run.steps.len() > 0 {
        let front = run.front();
        lemma_front(run);
        assert forall|i: int| 0 <= i < front.steps.len() implies !concerns_batch(
            #[trigger] front.steps[i],
            ids,
        ) by {
            assert(front.steps[i] == run.steps[i]);
        }
        pending_batch_stays_in_run(front, ids);
        let last = run.steps.len() - 1;
        assert(run.steps[last] == run.steps.last());
        pending_batch_stays(front.last(), run.steps.last(), run.actions.last(), run.last(), ids);
    }
}

/// What the step puts into the channel of the handler of `method`.
pub open spec fn handler_items(step: Step, method: Seq<char>) -> Seq<Value> {
    match step {
        Step::Meet(Event::Message(Incoming::Notification(notification)), _) => if
            notification.method@ == method {
            seq![notification.params]
        } else {
            seq![]
        },
        _ => seq![],
    }
}

/// Whether the step ends the handler of `method`: it is unregistered, or its
/// channel does not take a notification.
pub open spec fn ends_handler(step: Step, method: Seq<char>) -> bool {
    match step {
        Step::Meet(Event::Front(FrontToBack::UnregisterNotification(name)), _) => name@ == method,
        Step::Meet(Event::Message(Incoming::Notification(notification)), uptake) =>
            notification.method@ == method && uptake !is Taken,
        _ => false,
    }
}

/// A handler stays until it is ended, and only the notifications with its name
/// go into its channel.
pub proof fn handler_stays(
    before: ManagerState,
    step: Step,
    action: Action,
    after: ManagerState,
    method: Seq<char>,
)
    requires
        task_step(before, step, action, after),
        before.handlers.contains_key(method),
        !ends_handler(step, method),
    ensures
        after.handlers.contains_key(method),
        same_channel(before.handlers[method], after.handlers[method]),
        sink_alone(before.handlers[method]) == sink_alone(after.handlers[method]),
        sink_taken(after.handlers[method]) == sink_taken(before.handlers[method]) + handler_items(
            step,
            method,
        ),
{
    let sink = before.handlers[method];
    match step {
        Step::Meet(Event::Message(Incoming::Notification(notification)), uptake) => {
            lemma_taken_push(sink_tried(sink), notification.params, uptake);
        },
        _ => {},
    }
    assert(sink_taken(sink) + Seq::<Value>::empty() =~= sink_taken(sink));
    assert(sink_taken(after.handlers[method]) =~= sink_taken(sink) + handler_items(step, method));
}

/// What the steps put into the channel of the handler of `method`, in order.
pub open spec fn all_handler_items(steps: Seq<Step>, method: Seq<char>) -> Seq<Value>
    decreases steps.len(),
{
    if steps.len() == 0 {
        seq![]
    } else {
        all_handler_items(steps.drop_last(), method) + handler_items(steps.last(), method)
    }
}

/// The same over a run: the notifications go into the handler's channel in the
/// order in which the server sends them, none twice, none left out.
pub proof fn handler_stays_in_run(run: Run, method: Seq<char>)
    requires
        run.wf(),
        run.first().handlers.contains_key(method),
        forall|i: int| 0 <= i < run.steps.len() ==> !ends_handler(#[trigger] run.steps[i], method),
    ensures
        run.last().handlers.contains_key(method),
        same_channel(run.first().handlers[method], run.last().handlers[method]),
        sink_alone(run.first().handlers[method]) == sink_alone(run.last().handlers[method]),
        sink_taken(run.last().handlers[method]) == sink_taken(run.first().handlers[method])
            + all_handler_items(run.steps, method),
    decreases run.steps.len(),
{
    let start = sink_taken(run.first().handlers[method]);
    if run.steps.len() == 0 {
        assert(start + all_handler_items(run.steps, method) =~= start);
    } else {
        let front = run.front();
        lemma_front(run);
        assert forall|i: int| 0 <= i < front.steps.len() implies !ends_handler(
            #[trigger] front.steps[i],
            method,
        ) by {
            assert(front.steps[i] == run.steps[i]);
        }
        handler_stays_in_run(front, method);
        let last = run.steps.len() - 1;
        assert(run.steps[last] == run.steps.last());
        handler_stays(front.last(), run.steps.last(), run.actions.last(), run.last(), method);
        assert(start + all_handler_items(run.steps, method) =~= (start + all_handler_items(
            front.steps,
            method,
        )) + handler_items(run.steps.last(), method));
    }
}

/// A method without a handler gets one only by registration.
pub proof fn handler_comes_by_registration(run: Run, method: Seq<char>)
    requires
        run.wf(),
        !run.first().handlers.contains_key(method),
        forall|i: int|
            0 <= i < run.steps.len() ==> !((#[trigger] run.steps[i]) matches Step::OpenHandler(
                register,
                _,
            ) && register.method@ == method),
    ensures
        !run.last().handlers.contains_key(method),
    decreases run.steps.len(),
{
    if run.steps.len() > 0 {
        let front = run.front();
        lemma_front(run);
        assert forall|i: int| 0 <= i < front.steps.len() implies !((
        #[trigger] front.steps[i]) matches Step::OpenHandler(register, _) && register.method@
            == method) by {
            assert(front.steps[i] == run.steps[i]);
        }
        handler_comes_by_registration(front, method);
        let last = run.steps.len() - 1;
        assert(run.steps[last] == run.steps.last());
    }
}

/// The active subscription `key`.
pub open spec fn active_of(state: ManagerState, key: SubscriptionKey) -> ActiveSubscription {
    state.requests[state.subscriptions[key]]->Subscription_0
}

/// The sink of the subscription `key`.
pub open spec fn sink_of(state: ManagerState, key: SubscriptionKey) -> Sink {
    active_of(state, key).sink
}

/// What the step puts into the channel of the subscription `key`.
pub open spec fn items(step: Step, key: SubscriptionKey) -> Seq<Value> {
    match step {
        Step::Meet(Event::Message(Incoming::Subscription(response)), _) => if
            response.subscription@ == key {
            seq![response.result]
        } else {
            seq![]
        },
        _ => seq![],
    }
}

/// Whether the step ends the subscription `key`: its stream is dropped, its
/// channel does not take a notification, or its subscriber is gone when told.
pub open spec fn ends_listening(step: Step, key: SubscriptionKey) -> bool {
    match step {
        Step::Meet(Event::Front(FrontToBack::SubscriptionClosed(subscription)), _) => subscription@
            == key,
        Step::Meet(Event::Message(Incoming::Subscription(response)), uptake) =>
            response.subscription@ == key && uptake !is Taken,
        Step::Tell(Reply::Subscribed { subscription, .. }, taken) => subscription@ == key
            && !taken,
        _ => false,
    }
}

/// Whether the subscription `key` has gone on from one state to the other, and
/// its channel has taken the values in between.
pub open spec fn listens_on(
    before: ManagerState,
    key: SubscriptionKey,
    values: Seq<Value>,
    after: ManagerState,
) -> bool {
    let a = active_of(before, key);
    let b = active_of(after, key);
    &&& after.subscriptions.contains_key(key)
    &&& after.subscriptions[key] == before.subscriptions[key]
    &&& after.is_active(after.subscriptions[key])
    &&& a.unsubscribe_id == b.unsubscribe_id
    &&& a.unsubscribe_method == b.unsubscribe_method
    &&& same_channel(a.sink, b.sink)
    &&& sink_alone(a.sink) == sink_alone(b.sink)
    &&& sink_taken(b.sink) == sink_taken(a.sink) + values
}

/// A subscription stays active until it is ended, and only its own
/// notifications go into its channel.
pub proof fn subscription_stays(
    before: ManagerState,
    step: Step,
    action: Action,
    after: ManagerState,
    key: SubscriptionKey,
)
    requires
        before.coherent(),
        task_step(before, step, action, after),
        before.subscriptions.contains_key(key),
        !ends_listening(step, key),
    ensures
        listens_on(before, key, items(step, key), after),
{
    let id = before.subscriptions[key];
    let sink = sink_of(before, key);
    assert(before.is_active(id));
    assert(forall|other: SubscriptionKey| #[trigger]
        before.subscriptions.contains_key(other) && other != key ==> before.subscriptions[other]
            != id);
    match step {
        Step::Meet(Event::Message(Incoming::Subscription(response)), uptake) => {
            lemma_taken_push(sink_tried(sink), response.result, uptake);
        },
        _ => {},
    }
    assert(sink_taken(sink) + Seq::<Value>::empty() =~= sink_taken(sink));
    assert(sink_taken(sink_of(after, key)) =~= sink_taken(sink) + items(step, key));
}

/// A step that ends a subscription leaves it inactive.
pub proof fn ended_subscription_is_gone(
    before: ManagerState,
    step: Step,
    action: Action,
    after: ManagerState,
    key: SubscriptionKey,
)
    requires
        task_step(before, step, action, after),
        ends_listening(step, key),
    ensures
        !after.subscriptions.contains_key(key),
{
}

/// What the steps put into the channel of the subscription `key`, in order.
pub open spec fn all_items(steps: Seq<Step>, key: SubscriptionKey) -> Seq<Value>
    decreases steps.len(),
{
    if steps.len() == 0 {
        seq![]
    } else {
        all_items(steps.drop_last(), key) + items(steps.last(), key)
    }
}

/// Whatever else happens while a subscription is active, its notifications go
/// into the channel of its listener in the order in which the server sends
/// them, none twice, none left out, and nothing else goes into it.
pub proof fn notifications_stay_in_order(run: Run, key: SubscriptionKey)
    requires
        run.wf(),
        run.first().coherent(),
        run.first().subscriptions.contains_key(key),
        forall|i: int| 0 <= i < run.steps.len() ==> !ends_listening(#[trigger] run.steps[i], key),
    ensures
        listens_on(run.first(), key, all_items(run.steps, key), run.last()),
    decreases run.steps.len(),
{
    let start = sink_taken(sink_of(run.first(), key));
    if run.steps.len() == 0 {
        assert(run.first().is_active(run.first().subscriptions[key]));
        assert(start + all_items(run.steps, key) =~= start);
    } else {
        let front = run.front();
        lemma_front(run);
        assert forall|i: int| 0 <= i < front.steps.len() implies !ends_listening(
            #[trigger] front.steps[i],
            key,
        ) by {
            assert(front.steps[i] == run.steps[i]);
        }
        notifications_stay_in_order(front, key);
        run_keeps_coherence(front);
        let last = run.steps.len() - 1;
        assert(run.steps[last] == run.steps.last());
        subscription_stays(front.last(), run.steps.last(), run.actions.last(), run.last(), key);
        assert(start + all_items(run.steps, key) =~= (start + all_items(front.steps, key)) + items(
            run.steps.last(),
            key,
        ));
    }
}

/// Whether a reply with the ID `id` is not awaited: the ID is not in use, or
/// belongs to an active subscription.
pub open spec fn not_awaited(state: ManagerState, id: u64) -> bool {
    !state.requests.contains_key(id) || state.requests[id] is Subscription
}

/// Whether the step puts the request ID `id` to use.
pub open spec fn sends_request(step: Step, id: u64) -> bool {
    match step {
        Step::Learn(Sent::Request { id: sent, .. }, _) => sent == id,
        Step::Learn(Sent::Subscription { id: sent, pending }, _) => sent == id
            || pending.unsubscribe_id == id,
        _ => false,
    }
}

/// A reply that is not awaited is awaited again only once a request with its ID
/// is sent.
pub proof fn not_awaited_until_sent(run: Run, id: u64)
    requires
        run.wf(),
        not_awaited(run.first(), id),
        forall|i: int| 0 <= i < run.steps.len() ==> !sends_request(#[trigger] run.steps[i], id),
    ensures
        not_awaited(run.last(), id),
    decreases run.steps.len(),
{
    if run.steps.len() > 0 {
        let front = run.front();
        lemma_front(run);
        assert forall|i: int| 0 <= i < front.steps.len() implies !sends_request(
            #[trigger] front.steps[i],
            id,
        ) by {
            assert(front.steps[i] == run.steps[i]);
        }
        not_awaited_until_sent(front, id);
        let last = run.steps.len() - 1;
        assert(run.steps[last] == run.steps.last());
    }
}

/// Whether the step makes a channel for the subscription `key`.
pub open spec fn opens_subscription(step: Step, key: SubscriptionKey) -> bool {
    step matches Step::OpenSubscription(opening, _) && opening.subscription@ == key
}

/// A subscription that is not active becomes active only by being opened.
pub proof fn inactive_until_opened(run: Run, key: SubscriptionKey)
    requires
        run.wf(),
        !run.first().subscriptions.contains_key(key),
        forall|i: int|
            0 <= i < run.steps.len() ==> !opens_subscription(#[trigger] run.steps[i], key),
    ensures
        !run.last().subscriptions.contains_key(key),
    decreases run.steps.len(),
{
    if run.steps.len() > 0 {
        let front = run.front();
        lemma_front(run);
        assert forall|i: int| 0 <= i < front.steps.len() implies !opens_subscription(
            #[trigger] front.steps[i],
            key,
        ) by {
            assert(front.steps[i] == run.steps[i]);
        }
        inactive_until_opened(front, key);
        let last = run.steps.len() - 1;
        assert(run.steps[last] == run.steps.last());
    }
}

} // verus!

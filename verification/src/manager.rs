//! Keeps track of what was asked of the server and not answered yet, and of
//! the subscriptions that are active.

use crate::assoc::AssocList;
use crate::channel::{
    push, sink_alone, sink_buffer, sink_feeds, sink_taken, sink_tried, Uptake,
};
use crate::digest::Digest;
use crate::error::ClientError;
use crate::index::SubscriptionIndex;
use crate::types::{
    BatchReply, CallReply, Notifs, Sink, SubscriptionId, SubscriptionKey, SubscriptionReply,
};
use serde_json::Value;
use std::collections::HashMap;
use vstd::multiset::Multiset;
use vstd::prelude::*;

verus! {

/// A subscription request that the server has not answered.
#[derive(Debug)]
pub struct PendingSubscription {
    /// The ID reserved for the request to unsubscribe.
    pub unsubscribe_id: u64,
    /// Takes the reply.
    pub send_back: SubscriptionReply,
    /// The method that ends the subscription.
    pub unsubscribe_method: String,
}

/// A subscription that the server has confirmed.
#[derive(Debug)]
pub struct ActiveSubscription {
    /// The ID reserved for the request to unsubscribe.
    pub unsubscribe_id: u64,
    /// Takes the notifications.
    pub sink: Sink,
    /// The method that ends the subscription.
    pub unsubscribe_method: String,
}

/// What a request ID is used for.
#[derive(Debug)]
pub enum Kind {
    /// A method call without a reply so far. Nobody waits for the reply to a
    /// request to unsubscribe.
    PendingMethodCall(Option<CallReply>),
    /// A subscription request without a reply so far.
    PendingSubscription(PendingSubscription),
    /// An active subscription.
    Subscription(ActiveSubscription),
}

/// What a request ID is used for, without the details.
#[derive(Debug, Clone, Copy, PartialEq, Eq, Structural)]
pub enum RequestStatus {
    /// A method call without a reply so far.
    PendingMethodCall,
    /// A subscription request without a reply so far.
    PendingSubscription,
    /// An active subscription.
    Subscription,
    /// Nothing.
    Invalid,
}

/// A batch without a reply so far.
#[derive(Debug)]
pub struct BatchState {
    /// The position of each request in the batch.
    pub order: HashMap<u64, usize>,
    /// Takes the replies.
    pub send_back: BatchReply,
}

/// The position of each ID. Of equal IDs the last one counts.
pub open spec fn positions(ids: Seq<u64>) -> Map<u64, usize>
    decreases ids.len(),
{
    if ids.len() == 0 {
        Map::empty()
    } else {
        positions(ids.drop_last()).insert(ids.last(), (ids.len() - 1) as usize)
    }
}

/// Whether the two are the sending end of one channel.
pub open spec fn same_channel(a: Sink, b: Sink) -> bool {
    &&& sink_buffer(a) == sink_buffer(b)
    &&& forall|notifs: Notifs| #![auto] sink_feeds(a, notifs) == sink_feeds(b, notifs)
}

/// Whether `after` is the sink `before` once `value` was put into it, and
/// `uptake` what became of the value. A channel is full only once it has taken
/// more values than its buffer size.
pub open spec fn offered(before: Sink, value: Value, uptake: Uptake, after: Sink) -> bool {
    &&& same_channel(before, after)
    &&& sink_tried(after) == sink_tried(before).push((value, uptake))
    &&& sink_alone(after) == sink_alone(before)
    &&& uptake is Full && sink_alone(before) ==> sink_taken(before).len() > sink_buffer(before)
}

/// What a [`RequestManager`] holds.
#[verifier::ext_equal]
pub struct ManagerState {
    /// The request IDs in use.
    pub requests: Map<u64, Kind>,
    /// For each active subscription, the ID of the request that it began with.
    pub subscriptions: Map<SubscriptionKey, u64>,
    /// The pending batches, known by their IDs in any order.
    pub batches: Map<Multiset<u64>, BatchState>,
    /// The notification handlers.
    pub handlers: Map<Seq<char>, Sink>,
}

impl ManagerState {
    /// Nothing pending, nothing active.
    pub open spec fn empty() -> ManagerState {
        ManagerState {
            requests: Map::empty(),
            subscriptions: Map::empty(),
            batches: Map::empty(),
            handlers: Map::empty(),
        }
    }

    /// Whether `id` belongs to an active subscription.
    pub open spec fn is_active(self, id: u64) -> bool {
        self.requests.contains_key(id) && self.requests[id] is Subscription
    }

    /// Subscription IDs and the requests of active subscriptions belong
    /// together one to one, and each batch has a position for each of its IDs.
    pub open spec fn coherent(self) -> bool {
        &&& forall|key: SubscriptionKey| #[trigger]
            self.subscriptions.contains_key(key) ==> self.is_active(self.subscriptions[key])
        &&& forall|a: SubscriptionKey, b: SubscriptionKey|
            #![trigger self.subscriptions.contains_key(a), self.subscriptions.contains_key(b)]
            self.subscriptions.contains_key(a) && self.subscriptions.contains_key(b)
                && self.subscriptions[a] == self.subscriptions[b] ==> a == b
        &&& forall|id: u64| #[trigger]
            self.is_active(id) ==> exists|key: SubscriptionKey| #[trigger]
                self.subscriptions.contains_key(key) && self.subscriptions[key] == id
        &&& forall|ids: Multiset<u64>| #[trigger]
            self.batches.contains_key(ids) ==> fits(self.batches[ids].order@, ids)
    }

    /// Whether the two request IDs of a subscription can be used.
    pub open spec fn both_free(self, subscribe_id: u64, unsubscribe_id: u64) -> bool {
        &&& !self.requests.contains_key(subscribe_id)
        &&& !self.requests.contains_key(unsubscribe_id)
        &&& subscribe_id != unsubscribe_id
    }

    /// The state with a request added.
    pub open spec fn with_request(self, id: u64, kind: Kind) -> ManagerState {
        ManagerState { requests: self.requests.insert(id, kind), ..self }
    }

    /// The state without a request.
    pub open spec fn without_request(self, id: u64) -> ManagerState {
        ManagerState { requests: self.requests.remove(id), ..self }
    }

    /// The state with a pending subscription added, and with its request to
    /// unsubscribe, whose reply nobody waits for.
    pub open spec fn with_pending_subscription(
        self,
        subscribe_id: u64,
        pending: PendingSubscription,
    ) -> ManagerState {
        self.with_request(subscribe_id, Kind::PendingSubscription(pending)).with_request(
            pending.unsubscribe_id,
            Kind::PendingMethodCall(None),
        )
    }

    /// The state with an active subscription added.
    pub open spec fn with_subscription(
        self,
        id: u64,
        key: SubscriptionKey,
        active: ActiveSubscription,
    ) -> ManagerState {
        ManagerState {
            requests: self.requests.insert(id, Kind::Subscription(active)),
            subscriptions: self.subscriptions.insert(key, id),
            ..self
        }
    }

    /// The state without an active subscription.
    pub open spec fn without_subscription(self, id: u64, key: SubscriptionKey) -> ManagerState {
        ManagerState {
            requests: self.requests.remove(id),
            subscriptions: self.subscriptions.remove(key),
            ..self
        }
    }

    /// The state without a batch.
    pub open spec fn without_batch(self, ids: Multiset<u64>) -> ManagerState {
        ManagerState { batches: self.batches.remove(ids), ..self }
    }

    /// The state with a notification handler added.
    pub open spec fn with_handler(self, method: Seq<char>, sink: Sink) -> ManagerState {
        ManagerState { handlers: self.handlers.insert(method, sink), ..self }
    }

    /// The state without a notification handler.
    pub open spec fn without_handler(self, method: Seq<char>) -> ManagerState {
        ManagerState { handlers: self.handlers.remove(method), ..self }
    }

    /// Whether `after` is this state once `value` was put into the sink of the
    /// active subscription `id`.
    pub open spec fn pushed(
        self,
        id: u64,
        value: Value,
        uptake: Uptake,
        after: ManagerState,
    ) -> bool {
        &&& self.is_active(id)
        &&& after.is_active(id)
        &&& ({
            let a = self.requests[id]->Subscription_0;
            let b = after.requests[id]->Subscription_0;
            &&& a.unsubscribe_id == b.unsubscribe_id
            &&& a.unsubscribe_method == b.unsubscribe_method
            &&& offered(a.sink, value, uptake, b.sink)
        })
        &&& after == self.with_request(id, after.requests[id])
    }

    /// Whether `after` is this state once `value` was put into the sink of the
    /// handler of `method`.
    pub open spec fn notified(
        self,
        method: Seq<char>,
        value: Value,
        uptake: Uptake,
        after: ManagerState,
    ) -> bool {
        &&& self.handlers.contains_key(method)
        &&& after.handlers.contains_key(method)
        &&& offered(self.handlers[method], value, uptake, after.handlers[method])
        &&& after == self.with_handler(method, after.handlers[method])
    }
}

/// Whether `order` has a position below their number for each of the IDs, and
/// none for any other.
pub open spec fn fits(order: Map<u64, usize>, ids: Multiset<u64>) -> bool {
    &&& forall|id: u64| #[trigger] order.contains_key(id) <==> ids.count(id) > 0
    &&& forall|id: u64| #[trigger] order.contains_key(id) ==> order[id] < ids.len()
}

/// The positions of some IDs fit those IDs.
pub proof fn lemma_positions_fit(ids: Seq<u64>)
    requires
        ids.len() <= usize::MAX,
    ensures
        fits(positions(ids), ids.to_multiset()),
    decreases ids.len(),
{
    broadcast use vstd::seq_lib::group_to_multiset_ensures;

    if ids.len() > 0 {
        let front = ids.drop_last();
        lemma_positions_fit(front);
        assert(ids =~= front.push(ids.last()));
    }
}

/// Without repetition, each ID has the position at which it stands.
pub proof fn lemma_position_of(ids: Seq<u64>, i: int)
    requires
        ids.len() <= usize::MAX,
        ids.no_duplicates(),
        0 <= i < ids.len(),
    ensures
        positions(ids).contains_key(ids[i]),
        positions(ids)[ids[i]] == i,
    decreases ids.len(),
{
    if i < ids.len() - 1 {
        lemma_position_of(ids.drop_last(), i);
    }
}

/// Keeps track of requests, batches, subscriptions and notification handlers.
pub struct RequestManager {
    requests: HashMap<u64, Kind>,
    subscriptions: SubscriptionIndex,
    batches: AssocList<Digest, BatchState>,
    handlers: AssocList<String, Sink>,
}

impl View for RequestManager {
    type V = ManagerState;

    closed spec fn view(&self) -> ManagerState {
        ManagerState {
            requests: self.requests@,
            subscriptions: self.subscriptions@,
            batches: self.batches@,
            handlers: self.handlers@,
        }
    }
}

impl RequestManager {
    /// What the manager holds is coherent.
    pub closed spec fn wf(&self) -> bool {
        &&& self.batches.wf()
        &&& self.handlers.wf()
        &&& self@.coherent()
    }

    /// A well-formed manager is in a coherent state.
    pub proof fn lemma_coherent(&self)
        requires
            self.wf(),
        ensures
            self@.coherent(),
    {
    }

    /// A manager with nothing to keep track of.
    pub fn new() -> (r: Self)
        ensures
            r.wf(),
            r@ == ManagerState::empty(),
    {
        let r = RequestManager {
            requests: HashMap::new(),
            subscriptions: SubscriptionIndex::new(),
            batches: AssocList::new(),
            handlers: AssocList::new(),
        };
        assert(r@ =~= ManagerState::empty());
        r
    }

    /// What a request ID is used for.
    pub fn request_status(&self, id: u64) -> (r: RequestStatus)
        requires
            self.wf(),
        ensures
            r == (if !self@.requests.contains_key(id) {
                RequestStatus::Invalid
            } else {
                match self@.requests[id] {
                    Kind::PendingMethodCall(_) => RequestStatus::PendingMethodCall,
                    Kind::PendingSubscription(_) => RequestStatus::PendingSubscription,
                    Kind::Subscription(_) => RequestStatus::Subscription,
                }
            }),
    {
        match self.requests.get(&id) {
            None => RequestStatus::Invalid,
            Some(Kind::PendingMethodCall(_)) => RequestStatus::PendingMethodCall,
            Some(Kind::PendingSubscription(_)) => RequestStatus::PendingSubscription,
            Some(Kind::Subscription(_)) => RequestStatus::Subscription,
        }
    }

    /// Adds a method call, or gives the reply channel back when the ID is in
    /// use.
    pub fn insert_pending_call(&mut self, id: u64, send_back: Option<CallReply>) -> (r: Result<
        (),
        Option<CallReply>,
    >)
        requires
            old(self).wf(),
        ensures
            final(self).wf(),
            match r {
                Ok(()) => {
                    &&& !old(self)@.requests.contains_key(id)
                    &&& final(self)@ == old(self)@.with_request(
                        id,
                        Kind::PendingMethodCall(send_back),
                    )
                },
                Err(back) => {
                    &&& old(self)@.requests.contains_key(id)
                    &&& back == send_back
                    &&& final(self)@ == old(self)@
                },
            },
    {
        if self.requests.contains_key(&id) {
            return Err(send_back);
        }
        let ghost before = self@;
        self.requests.insert(id, Kind::PendingMethodCall(send_back));
        proof {
            let after = self@;
            assert(after =~= before.with_request(id, Kind::PendingMethodCall(send_back)));
            lemma_same_subscriptions(before, after);
        }
        Ok(())
    }

    /// Adds a batch, or gives the reply channel back when a batch with the
    /// same IDs is pending.
    pub fn insert_pending_batch(&mut self, ids: &Vec<u64>, send_back: BatchReply) -> (r: Result<
        (),
        BatchReply,
    >)
        requires
            old(self).wf(),
        ensures
            final(self).wf(),
            match r {
                Ok(()) => {
                    let key = ids@.to_multiset();
                    let state = final(self)@.batches[key];
                    &&& !old(self)@.batches.contains_key(key)
                    &&& state.order@ == positions(ids@)
                    &&& state.send_back == send_back
                    &&& final(self)@ == (ManagerState {
                        batches: old(self)@.batches.insert(key, state),
                        ..old(self)@
                    })
                },
                Err(back) => old(self)@.batches.contains_key(ids@.to_multiset()) && back
                    == send_back && final(self)@ == old(self)@,
            },
    {
        let digest = Digest::new(ids);
        if self.batches.contains_key(&digest) {
            return Err(send_back);
        }
        let mut order: HashMap<u64, usize> = HashMap::new();
        let mut i: usize = 0;
        assert(ids@.take(0) =~= seq![]);
        while i < ids.len()
            invariant
                i <= ids@.len(),
                order@ == positions(ids@.take(i as int)),
            decreases ids@.len() - i,
        {
            order.insert(ids[i], i);
            proof {
                let next = ids@.take(i + 1);
                assert(next.drop_last() =~= ids@.take(i as int));
            }
            i = i + 1;
        }
        let ghost before = self@;
        assert(ids@.take(i as int) =~= ids@);
        let state = BatchState { order, send_back };
        self.batches.insert(digest, state);
        proof {
            lemma_positions_fit(ids@);
            let after = self@;
            assert(after.batches[ids@.to_multiset()] == state);
            lemma_same_subscriptions(before, after);
        }
        Ok(())
    }

    /// Adds a subscription request and reserves the ID of the request to
    /// unsubscribe, or gives the reply channel back when either ID cannot be
    /// used.
    pub fn insert_pending_subscription(
        &mut self,
        subscribe_id: u64,
        unsubscribe_id: u64,
        send_back: SubscriptionReply,
        unsubscribe_method: String,
    ) -> (r: Result<(), SubscriptionReply>)
        requires
            old(self).wf(),
        ensures
            final(self).wf(),
            match r {
                Ok(()) => {
                    &&& old(self)@.both_free(subscribe_id, unsubscribe_id)
                    &&& final(self)@ == old(self)@.with_pending_subscription(
                        subscribe_id,
                        PendingSubscription { unsubscribe_id, send_back, unsubscribe_method },
                    )
                },
                Err(back) => !old(self)@.both_free(subscribe_id, unsubscribe_id) && back
                    == send_back && final(self)@ == old(self)@,
            },
    {
        if self.requests.contains_key(&subscribe_id) || self.requests.contains_key(&unsubscribe_id)
            || subscribe_id == unsubscribe_id {
            return Err(send_back);
        }
        let ghost before = self@;
        let pending = PendingSubscription { unsubscribe_id, send_back, unsubscribe_method };
        self.requests.insert(subscribe_id, Kind::PendingSubscription(pending));
        self.requests.insert(unsubscribe_id, Kind::PendingMethodCall(None));
        proof {
            let after = self@;
            assert(after =~= before.with_pending_subscription(subscribe_id, pending));
            lemma_same_subscriptions(before, after);
        }
        Ok(())
    }

    /// Adds an active subscription, or gives the sink back when the request ID
    /// or the subscription ID is in use.
    pub fn insert_subscription(
        &mut self,
        id: u64,
        subscription: SubscriptionId,
        active: ActiveSubscription,
    ) -> (r: Result<(), Sink>)
        requires
            old(self).wf(),
        ensures
            final(self).wf(),
            ({
                let before = old(self)@;
                let free = !before.requests.contains_key(id)
                    && !before.subscriptions.contains_key(subscription@);
                match r {
                    Ok(()) => free && final(self)@ == old(self)@.with_subscription(
                        id,
                        subscription@,
                        active,
                    ),
                    Err(back) => !free && back == active.sink && final(self)@ == old(self)@,
                }
            }),
    {
        if self.requests.contains_key(&id) || self.subscriptions.get(&subscription).is_some() {
            return Err(active.sink);
        }
        let ghost before = self@;
        let ghost key = subscription@;
        self.requests.insert(id, Kind::Subscription(active));
        self.subscriptions.insert(subscription, id);
        proof {
            let after = self@;
            assert(after =~= before.with_subscription(id, key, active));
            lemma_with_subscription(before, id, key, active);
        }
        Ok(())
    }

    /// Adds a notification handler, or fails when the method has one.
    pub fn insert_notification_handler(&mut self, method: &str, sink: Sink) -> (r: Result<
        (),
        ClientError,
    >)
        requires
            old(self).wf(),
        ensures
            final(self).wf(),
            match r {
                Ok(()) => {
                    &&& !old(self)@.handlers.contains_key(method@)
                    &&& final(self)@ == old(self)@.with_handler(method@, sink)
                },
                Err(error) => old(self)@.handlers.contains_key(method@) && (error matches
                    ClientError::MethodAlreadyRegistered(name) && name@ == method@) && final(self)@
                    == old(self)@,
            },
    {
        let name = method.to_owned();
        if self.handlers.contains_key(&name) {
            return Err(ClientError::MethodAlreadyRegistered(name));
        }
        let ghost before = self@;
        self.handlers.insert(name, sink);
        proof {
            let after = self@;
            assert(after =~= before.with_handler(method@, sink));
            lemma_same_subscriptions(before, after);
        }
        Ok(())
    }

    /// Drops a notification handler. Says whether there was one.
    pub fn remove_notification_handler(&mut self, method: &String) -> (r: bool)
        requires
            old(self).wf(),
        ensures
            final(self).wf(),
            r == old(self)@.handlers.contains_key(method@),
            final(self)@ == old(self)@.without_handler(method@),
    {
        let ghost before = self@;
        let removed = self.handlers.remove(method);
        proof {
            let after = self@;
            assert(after =~= before.without_handler(method@));
            lemma_same_subscriptions(before, after);
        }
        removed.is_some()
    }

    /// Takes out a pending subscription.
    pub fn complete_pending_subscription(&mut self, id: u64) -> (r: Option<PendingSubscription>)
        requires
            old(self).wf(),
        ensures
            final(self).wf(),
            match r {
                Some(pending) => {
                    &&& old(self)@.requests.contains_key(id)
                    &&& old(self)@.requests[id] == Kind::PendingSubscription(pending)
                    &&& final(self)@ == old(self)@.without_request(id)
                },
                None => {
                    &&& !(old(self)@.requests.contains_key(id)
                        && old(self)@.requests[id] is PendingSubscription)
                    &&& final(self)@ == old(self)@
                },
            },
    {
        if self.request_status(id) != RequestStatus::PendingSubscription {
            return None;
        }
        let ghost before = self@;
        let removed = self.requests.remove(&id);
        proof {
            let after = self@;
            assert(after =~= before.without_request(id));
            lemma_same_subscriptions(before, after);
        }
        match removed {
            Some(Kind::PendingSubscription(pending)) => Some(pending),
            _ => None,
        }
    }

    /// Takes out a pending method call.
    pub fn complete_pending_call(&mut self, id: u64) -> (r: Option<Option<CallReply>>)
        requires
            old(self).wf(),
        ensures
            final(self).wf(),
            match r {
                Some(send_back) => {
                    &&& old(self)@.requests.contains_key(id)
                    &&& old(self)@.requests[id] == Kind::PendingMethodCall(send_back)
                    &&& final(self)@ == old(self)@.without_request(id)
                },
                None => {
                    &&& !(old(self)@.requests.contains_key(id)
                        && old(self)@.requests[id] is PendingMethodCall)
                    &&& final(self)@ == old(self)@
                },
            },
    {
        if self.request_status(id) != RequestStatus::PendingMethodCall {
            return None;
        }
        let ghost before = self@;
        let removed = self.requests.remove(&id);
        proof {
            let after = self@;
            assert(after =~= before.without_request(id));
            lemma_same_subscriptions(before, after);
        }
        match removed {
            Some(Kind::PendingMethodCall(send_back)) => Some(send_back),
            _ => None,
        }
    }

    /// Takes out the pending batch with these IDs, in whatever order they are
    /// given.
    pub fn complete_pending_batch(&mut self, ids: &Vec<u64>) -> (r: Option<BatchState>)
        requires
            old(self).wf(),
        ensures
            final(self).wf(),
            final(self)@ == old(self)@.without_batch(ids@.to_multiset()),
            match r {
                Some(state) => {
                    let key = ids@.to_multiset();
                    &&& old(self)@.batches.contains_key(key)
                    &&& state == old(self)@.batches[key]
                    &&& fits(state.order@, key)
                },
                None => !old(self)@.batches.contains_key(ids@.to_multiset()),
            },
    {
        let ghost before = self@;
        let removed = self.batches.remove(&Digest::new(ids));
        proof {
            let after = self@;
            assert(after =~= before.without_batch(ids@.to_multiset()));
            lemma_same_subscriptions(before, after);
        }
        removed
    }

    /// Takes out an active subscription, given its request ID and its
    /// subscription ID.
    pub fn remove_subscription(&mut self, id: u64, subscription: &SubscriptionId) -> (r: Option<
        ActiveSubscription,
    >)
        requires
            old(self).wf(),
        ensures
            final(self).wf(),
            ({
                let before = old(self)@;
                let found = before.subscriptions.contains_key(subscription@)
                    && before.subscriptions[subscription@] == id;
                match r {
                    Some(active) => found && old(self)@.requests[id] == Kind::Subscription(active)
                        && final(self)@ == old(self)@.without_subscription(id, subscription@),
                    None => !found && final(self)@ == old(self)@,
                }
            }),
    {
        match self.subscriptions.get(subscription) {
            Some(found) => if found != id {
                return None;
            },
            None => return None,
        }
        let ghost before = self@;
        let ghost key = subscription@;
        assert(before.subscriptions.contains_key(key));
        assert(before.is_active(id));
        let removed = self.requests.remove(&id);
        self.subscriptions.remove(subscription);
        proof {
            let after = self@;
            assert(after =~= before.without_subscription(id, key));
            lemma_without_subscription(before, id, key);
        }
        match removed {
            Some(Kind::Subscription(active)) => Some(active),
            _ => None,
        }
    }

    /// The ID of the request that an active subscription began with.
    pub fn get_request_id_by_subscription_id(&self, subscription: &SubscriptionId) -> (r: Option<
        u64,
    >)
        requires
            self.wf(),
        ensures
            match r {
                Some(id) => self@.subscriptions.contains_key(subscription@) && id
                    == self@.subscriptions[subscription@] && self@.is_active(id),
                None => !self@.subscriptions.contains_key(subscription@),
            },
    {
        self.subscriptions.get(subscription)
    }

    /// Puts a value into the channel of an active subscription.
    pub fn push_to_subscription(&mut self, id: u64, value: Value) -> (r: Uptake)
        requires
            old(self).wf(),
            old(self)@.is_active(id),
        ensures
            final(self).wf(),
            old(self)@.pushed(id, value, r, final(self)@),
    {
        let ghost before = self@;
        match self.requests.remove(&id) {
            Some(Kind::Subscription(active)) => {
                let mut sink = active.sink;
                let r = push(&mut sink, value);
                self.requests.insert(
                    id,
                    Kind::Subscription(
                        ActiveSubscription {
                            unsubscribe_id: active.unsubscribe_id,
                            sink,
                            unsubscribe_method: active.unsubscribe_method,
                        },
                    ),
                );
                proof {
                    let after = self@;
                    assert(after.requests =~= before.requests.insert(id, after.requests[id]));
                    assert(after =~= before.with_request(id, after.requests[id]));
                    lemma_same_subscriptions(before, after);
                }
                r
            },
            _ => Uptake::Gone,
        }
    }

    /// Puts a value into the channel of the handler of a notification.
    pub fn push_to_handler(&mut self, method: &String, value: Value) -> (r: Uptake)
        requires
            old(self).wf(),
            old(self)@.handlers.contains_key(method@),
        ensures
            final(self).wf(),
            old(self)@.notified(method@, value, r, final(self)@),
    {
        let ghost before = self@;
        match self.handlers.remove(method) {
            Some(sink) => {
                let mut sink = sink;
                let r = push(&mut sink, value);
                self.handlers.insert(method.clone(), sink);
                proof {
                    let after = self@;
                    assert(after.handlers =~= before.handlers.insert(method@, sink));
                    assert(after =~= before.with_handler(method@, after.handlers[method@]));
                    lemma_same_subscriptions(before, after);
                }
                r
            },
            None => Uptake::Gone,
        }
    }

    /// Whether a notification has a handler.
    pub fn has_handler(&self, method: &String) -> (r: bool)
        requires
            self.wf(),
        ensures
            r == self@.handlers.contains_key(method@),
    {
        self.handlers.contains_key(method)
    }
}

/// A change that leaves alone which requests are active subscriptions, and
/// whose new batches have the positions they need, keeps the state coherent.
pub proof fn lemma_same_subscriptions(before: ManagerState, after: ManagerState)
    requires
        before.coherent(),
        after.subscriptions == before.subscriptions,
        forall|id: u64| #[trigger] after.is_active(id) == before.is_active(id),
        forall|ids: Multiset<u64>| #[trigger]
            after.batches.contains_key(ids) ==> (before.batches.contains_key(ids)
                && after.batches[ids] == before.batches[ids]) || fits(
                after.batches[ids].order@,
                ids,
            ),
    ensures
        after.coherent(),
{
    assert forall|key: SubscriptionKey| #[trigger]
        after.subscriptions.contains_key(key) implies after.is_active(
        after.subscriptions[key],
    ) by {
        assert(before.is_active(before.subscriptions[key]));
    }
    assert forall|id: u64| #[trigger] after.is_active(id) implies exists|key: SubscriptionKey|
        #[trigger] after.subscriptions.contains_key(key) && after.subscriptions[key] == id by {
        assert(before.is_active(id));
    }
}

/// A new active subscription keeps the state coherent.
pub proof fn lemma_with_subscription(
    before: ManagerState,
    id: u64,
    key: SubscriptionKey,
    active: ActiveSubscription,
)
    requires
        before.coherent(),
        !before.requests.contains_key(id),
        !before.subscriptions.contains_key(key),
    ensures
        before.with_subscription(id, key, active).coherent(),
{
    let after = before.with_subscription(id, key, active);
    assert forall|k: SubscriptionKey| #[trigger]
        after.subscriptions.contains_key(k) implies after.is_active(
        after.subscriptions[k],
    ) by {
        if k != key {
            assert(before.subscriptions.contains_key(k));
            assert(before.is_active(before.subscriptions[k]));
        }
    }
    assert forall|a: SubscriptionKey, b: SubscriptionKey|
        #![trigger after.subscriptions.contains_key(a), after.subscriptions.contains_key(b)]
        after.subscriptions.contains_key(a) && after.subscriptions.contains_key(b)
            && after.subscriptions[a] == after.subscriptions[b] implies a == b by {
        if a != key {
            assert(before.subscriptions.contains_key(a));
            assert(before.is_active(before.subscriptions[a]));
        }
        if b != key {
            assert(before.subscriptions.contains_key(b));
            assert(before.is_active(before.subscriptions[b]));
        }
    }
    assert forall|i: u64| #[trigger] after.is_active(i) implies exists|k: SubscriptionKey|
        #[trigger] after.subscriptions.contains_key(k) && after.subscriptions[k] == i by {
        if i == id {
            assert(after.subscriptions.contains_key(key));
        } else {
            assert(before.is_active(i));
            let k = choose|k: SubscriptionKey| #[trigger]
                before.subscriptions.contains_key(k) && before.subscriptions[k] == i;
            assert(after.subscriptions.contains_key(k));
        }
    }
}

/// The end of an active subscription keeps the state coherent.
pub proof fn lemma_without_subscription(before: ManagerState, id: u64, key: SubscriptionKey)
    requires
        before.coherent(),
        before.subscriptions.contains_key(key),
        before.subscriptions[key] == id,
    ensures
        before.without_subscription(id, key).coherent(),
{
    let after = before.without_subscription(id, key);
    assert forall|k: SubscriptionKey| #[trigger]
        after.subscriptions.contains_key(k) implies after.is_active(
        after.subscriptions[k],
    ) by {
        assert(before.subscriptions.contains_key(k));
        assert(before.is_active(before.subscriptions[k]));
    }
    assert forall|a: SubscriptionKey, b: SubscriptionKey|
        #![trigger after.subscriptions.contains_key(a), after.subscriptions.contains_key(b)]
        after.subscriptions.contains_key(a) && after.subscriptions.contains_key(b)
            && after.subscriptions[a] == after.subscriptions[b] implies a == b by {
        assert(before.subscriptions.contains_key(a));
        assert(before.subscriptions.contains_key(b));
    }
    assert forall|i: u64| #[trigger] after.is_active(i) implies exists|k: SubscriptionKey|
        #[trigger] after.subscriptions.contains_key(k) && after.subscriptions[k] == i by {
        assert(before.is_active(i));
        let k = choose|k: SubscriptionKey| #[trigger]
            before.subscriptions.contains_key(k) && before.subscriptions[k] == i;
        assert(after.subscriptions.contains_key(k));
    }
}

} // verus!

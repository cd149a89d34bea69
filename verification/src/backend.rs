//! The background task of a client, as a state machine.
//!
//! An [`Event`] leads to an [`Action`]; what the transport or a caller makes of
//! the action leads to the next one, until the task waits for another event or
//! ends. The task itself only moves text and waits.

use crate::action::{Action, Event, Opening, Reply, Sent};
use crate::channel::{buffer_fits, notification_channel, Uptake};
use crate::error::ClientError;
use crate::helpers::{process_message, settle_subscription};
use crate::manager::{
    ActiveSubscription, ManagerState, PendingSubscription, RequestManager, RequestStatus,
};
use crate::reply::{give_batch, give_call, give_registration, give_subscription};
use crate::step::{
    advance_step, can_be_pending, deliver_step, event_step, front_step, message_step,
    open_handler_step, open_subscription_step, sent_step,
};
use crate::types::{FrontToBack, RegisterNotificationMessage};
use vstd::prelude::*;

verus! {

/// The state of the background task.
pub struct Backend {
    manager: RequestManager,
    max_notifs_per_subscription: usize,
}

/// What a [`Backend`] holds.
#[verifier::ext_equal]
pub struct BackendState {
    /// What is pending and what is active.
    pub manager: ManagerState,
    /// The buffer size of the channels for notifications.
    pub max_notifs_per_subscription: usize,
}

impl View for Backend {
    type V = BackendState;

    closed spec fn view(&self) -> BackendState {
        BackendState {
            manager: self.manager@,
            max_notifs_per_subscription: self.max_notifs_per_subscription,
        }
    }
}

/// Deals with a message of a caller.
fn process_front(manager: &mut RequestManager, message: FrontToBack) -> (r: Action)
    requires
        old(manager).wf(),
    ensures
        final(manager).wf(),
        front_step(old(manager)@, message, r, final(manager)@),
{
    match message {
        FrontToBack::Batch(batch) => match manager.insert_pending_batch(
            &batch.ids,
            batch.send_back,
        ) {
            Ok(()) => Action::Send { raw: batch.raw, sent: Sent::Batch(batch.ids) },
            Err(send_back) => Action::Deliver(
                Reply::Batch { send_back, result: Err(ClientError::InvalidRequestId) },
            ),
        },
        FrontToBack::Notification(raw) => Action::Send { raw, sent: Sent::Notification },
        FrontToBack::Request(request) => Action::Send {
            raw: request.raw,
            sent: Sent::Request { id: request.id, send_back: request.send_back },
        },
        FrontToBack::Subscribe(sub) => Action::Send {
            raw: sub.raw,
            sent: Sent::Subscription {
                id: sub.subscribe_id,
                pending: PendingSubscription {
                    unsubscribe_id: sub.unsubscribe_id,
                    send_back: sub.send_back,
                    unsubscribe_method: sub.unsubscribe_method,
                },
            },
        },
        FrontToBack::SubscriptionClosed(subscription) => settle_subscription(
            manager,
            subscription,
            false,
        ),
        FrontToBack::RegisterNotification(register) => Action::OpenHandler(register),
        FrontToBack::UnregisterNotification(method) => {
            manager.remove_notification_handler(&method);
            Action::Wait
        },
    }
}

impl Backend {
    /// What the task keeps track of is coherent.
    pub closed spec fn wf(&self) -> bool {
        self.manager.wf()
    }

    /// A well-formed task is in a coherent state.
    pub proof fn lemma_coherent(&self)
        requires
            self.wf(),
        ensures
            self@.manager.coherent(),
    {
        self.manager.lemma_coherent();
    }

    /// A task that has met nothing yet.
    pub fn new(max_notifs_per_subscription: usize) -> (r: Self)
        ensures
            r.wf(),
            r@ == (BackendState { manager: ManagerState::empty(), max_notifs_per_subscription }),
    {
        Backend { manager: RequestManager::new(), max_notifs_per_subscription }
    }

    /// The buffer size of the channels for notifications.
    pub fn max_notifs_per_subscription(&self) -> (r: usize)
        ensures
            r == self@.max_notifs_per_subscription,
    {
        self.max_notifs_per_subscription
    }

    /// Meets an event, and says what to do next.
    pub fn on_event(&mut self, event: Event) -> (r: Action)
        requires
            old(self).wf(),
        ensures
            final(self).wf(),
            final(self)@.max_notifs_per_subscription == old(self)@.max_notifs_per_subscription,
            exists|uptake: Uptake|
                event_step(old(self)@.manager, event, uptake, r, final(self)@.manager),
    {
        let ghost before = self@.manager;
        match event {
            Event::Front(message) => {
                let r = process_front(&mut self.manager, message);
                assert(event_step(before, event, Uptake::Gone, r, self@.manager));
                r
            },
            Event::FrontClosed => {
                let r = Action::Terminate(None);
                assert(event_step(before, event, Uptake::Gone, r, self@.manager));
                r
            },
            Event::Message(message) => {
                let r = process_message(&mut self.manager, message);
                proof {
                    let uptake = choose|uptake: Uptake|
                        message_step(before, message, uptake, r, self@.manager);
                    assert(event_step(before, event, uptake, r, self@.manager));
                }
                r
            },
            Event::ReceiveFailed(reason) => {
                let r = Action::Terminate(Some(ClientError::Transport(reason)));
                assert(event_step(before, event, Uptake::Gone, r, self@.manager));
                r
            },
            Event::ReceiverClosed => {
                let r = Action::Terminate(
                    Some(ClientError::Custom("WebSocket receiver dropped".to_owned())),
                );
                assert(event_step(before, event, Uptake::Gone, r, self@.manager));
                r
            },
        }
    }

    /// Whether the IDs of what was sent can be entered as pending.
    pub fn can_enter(&self, sent: &Sent) -> (r: bool)
        requires
            self.wf(),
        ensures
            r == can_be_pending(self@.manager, *sent),
    {
        match sent {
            Sent::Request { id, .. } => self.manager.request_status(*id) == RequestStatus::Invalid,
            Sent::Subscription { id, pending } => self.manager.request_status(*id)
                == RequestStatus::Invalid && self.manager.request_status(pending.unsubscribe_id)
                == RequestStatus::Invalid && *id != pending.unsubscribe_id,
            _ => true,
        }
    }

    /// Learns from the transport how sending went, and says what to do next.
    pub fn on_sent(&mut self, sent: Sent, report: Result<(), String>) -> (r: Action)
        requires
            old(self).wf(),
            report is Ok ==> can_be_pending(old(self)@.manager, sent),
        ensures
            final(self).wf(),
            final(self)@.max_notifs_per_subscription == old(self)@.max_notifs_per_subscription,
            sent_step(old(self)@.manager, sent, report, r, final(self)@.manager),
    {
        match sent {
            Sent::Notification => Action::Wait,
            Sent::Batch(ids) => {
                if report.is_err() {
                    self.manager.complete_pending_batch(&ids);
                }
                Action::Wait
            },
            Sent::Request { id, send_back } => match report {
                Ok(()) => {
                    let _ = self.manager.insert_pending_call(id, send_back);
                    Action::Wait
                },
                Err(reason) => match send_back {
                    Some(send_back) => Action::Deliver(
                        Reply::Call { send_back, result: Err(ClientError::Transport(reason)) },
                    ),
                    None => Action::Wait,
                },
            },
            Sent::Subscription { id, pending } => match report {
                Ok(()) => {
                    let _ = self.manager.insert_pending_subscription(
                        id,
                        pending.unsubscribe_id,
                        pending.send_back,
                        pending.unsubscribe_method,
                    );
                    Action::Wait
                },
                Err(reason) => Action::Deliver(
                    Reply::NotSubscribed {
                        send_back: pending.send_back,
                        error: ClientError::Transport(reason),
                    },
                ),
            },
            Sent::Unsubscribe(id) => {
                if report.is_err() {
                    let _ = self.manager.complete_pending_call(id);
                }
                Action::Wait
            },
        }
    }

    /// Makes the channel of a subscription that the server has confirmed.
    pub fn open_subscription(&mut self, opening: Opening) -> (r: Action)
        requires
            old(self).wf(),
            buffer_fits(old(self)@.max_notifs_per_subscription),
        ensures
            final(self).wf(),
            final(self)@.max_notifs_per_subscription == old(self)@.max_notifs_per_subscription,
            open_subscription_step(
                old(self)@.manager,
                opening,
                old(self)@.max_notifs_per_subscription,
                r,
                final(self)@.manager,
            ),
    {
        let Opening { id, subscription, pending } = opening;
        let PendingSubscription { unsubscribe_id, send_back, unsubscribe_method } = pending;
        let (sink, notifs) = notification_channel(self.max_notifs_per_subscription);
        let active = ActiveSubscription { unsubscribe_id, sink, unsubscribe_method };
        match self.manager.insert_subscription(id, subscription.clone(), active) {
            Ok(()) => Action::Deliver(Reply::Subscribed { send_back, notifs, subscription }),
            Err(_) => Action::Deliver(
                Reply::NotSubscribed { send_back, error: ClientError::InvalidSubscriptionId },
            ),
        }
    }

    /// Makes the channel of a notification handler.
    pub fn open_handler(&mut self, register: RegisterNotificationMessage) -> (r: Action)
        requires
            old(self).wf(),
            buffer_fits(old(self)@.max_notifs_per_subscription),
        ensures
            final(self).wf(),
            final(self)@.max_notifs_per_subscription == old(self)@.max_notifs_per_subscription,
            open_handler_step(
                old(self)@.manager,
                register,
                old(self)@.max_notifs_per_subscription,
                r,
                final(self)@.manager,
            ),
    {
        let RegisterNotificationMessage { method, send_back } = register;
        let (sink, notifs) = notification_channel(self.max_notifs_per_subscription);
        match self.manager.insert_notification_handler(method.as_str(), sink) {
            Ok(()) => Action::Deliver(Reply::Method { send_back, result: Ok((notifs, method)) }),
            Err(_) => {
                let error = ClientError::MethodAlreadyRegistered(method);
                Action::Deliver(Reply::Method { send_back, result: Err(error) })
            },
        }
    }

    /// Tells a caller something, and says what to do next.
    pub fn deliver(&mut self, reply: Reply) -> (r: Action)
        requires
            old(self).wf(),
        ensures
            final(self).wf(),
            final(self)@.max_notifs_per_subscription == old(self)@.max_notifs_per_subscription,
            exists|taken: bool|
                deliver_step(old(self)@.manager, reply, taken, r, final(self)@.manager),
    {
        let ghost before = self@.manager;
        let (r, taken) = match reply {
            Reply::Call { send_back, result } => (Action::Wait, give_call(send_back, result)),
            Reply::Batch { send_back, result } => (Action::Wait, give_batch(send_back, result)),
            Reply::Subscribed { send_back, notifs, subscription } => {
                let taken = give_subscription(send_back, Ok((notifs, subscription.clone())));
                (settle_subscription(&mut self.manager, subscription, taken), taken)
            },
            Reply::NotSubscribed { send_back, error } => {
                (Action::Wait, give_subscription(send_back, Err(error)))
            },
            Reply::Method { send_back, result } => {
                (Action::Wait, give_registration(send_back, result))
            },
        };
        assert(deliver_step(before, reply, taken, r, self@.manager));
        r
    }

    /// Does what needs neither the transport nor another event: makes channels
    /// and tells callers, until there is something to wait for or to send, or
    /// the task ends.
    pub fn advance(&mut self, action: Action) -> (r: Action)
        requires
            old(self).wf(),
            action is OpenSubscription || action is OpenHandler ==> buffer_fits(
                old(self)@.max_notifs_per_subscription,
            ),
        ensures
            final(self).wf(),
            final(self)@.max_notifs_per_subscription == old(self)@.max_notifs_per_subscription,
            r is Wait || r is Send || r is Terminate,
            advance_step(
                old(self)@.manager,
                action,
                old(self)@.max_notifs_per_subscription,
                r,
                final(self)@.manager,
            ),
    {
        match action {
            Action::Deliver(reply) => self.deliver(reply),
            Action::OpenSubscription(opening) => match self.open_subscription(opening) {
                Action::Deliver(reply) => self.deliver(reply),
                other => other,
            },
            Action::OpenHandler(register) => match self.open_handler(register) {
                Action::Deliver(reply) => self.deliver(reply),
                other => other,
            },
            other => other,
        }
    }
}

} // verus!

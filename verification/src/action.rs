//! What the background task meets, and what it then does.

use crate::error::ClientError;
use crate::manager::PendingSubscription;
use crate::types::{
    BatchAnswer, BatchReply, CallAnswer, CallReply, FrontToBack, MethodAnswer, MethodReply,
    Notification, Notifs, RegisterNotificationMessage, Response, RpcError, SubscriptionId,
    SubscriptionReply, SubscriptionResponse,
};
use vstd::prelude::*;

verus! {

/// A message of the server, read as far as each shape of message allows.
#[derive(Debug)]
pub struct Decoded {
    /// The message read as the reply to one request.
    pub single: Option<Response>,
    /// The message read as a notification that belongs to a subscription.
    pub subscription: Option<SubscriptionResponse>,
    /// The message read as another notification.
    pub notification: Option<Notification>,
    /// The message read as the replies to a batch.
    pub batch: Option<Vec<Response>>,
    /// The message read as the report of a failed request.
    pub error: Option<RpcError>,
}

/// What a message of the server is.
#[derive(Debug)]
pub enum Incoming {
    /// The reply to one request.
    Single(Response),
    /// A notification that belongs to a subscription.
    Subscription(SubscriptionResponse),
    /// Another notification.
    Notification(Notification),
    /// The replies to a batch.
    Batch(Vec<Response>),
    /// The report of a failed request.
    Failure(RpcError),
    /// None of these.
    Unparsable,
}

impl Decoded {
    /// A message counts as the first of the shapes that it can be read as: a
    /// single reply, a subscription's notification, another notification, a
    /// batch of replies, a failure.
    pub open spec fn shape(self) -> Incoming {
        if self.single is Some {
            Incoming::Single(self.single->0)
        } else if self.subscription is Some {
            Incoming::Subscription(self.subscription->0)
        } else if self.notification is Some {
            Incoming::Notification(self.notification->0)
        } else if self.batch is Some {
            Incoming::Batch(self.batch->0)
        } else if self.error is Some {
            Incoming::Failure(self.error->0)
        } else {
            Incoming::Unparsable
        }
    }

    /// Says what the message is.
    pub fn classify(self) -> (r: Incoming)
        ensures
            r == self.shape(),
            self.single matches Some(response) ==> r == Incoming::Single(response),
            r is Unparsable <==> (self.single is None && self.subscription is None
                && self.notification is None && self.batch is None && self.error is None),
    {
        if let Some(response) = self.single {
            Incoming::Single(response)
        } else if let Some(response) = self.subscription {
            Incoming::Subscription(response)
        } else if let Some(notification) = self.notification {
            Incoming::Notification(notification)
        } else if let Some(responses) = self.batch {
            Incoming::Batch(responses)
        } else if let Some(error) = self.error {
            Incoming::Failure(error)
        } else {
            Incoming::Unparsable
        }
    }
}

/// What the background task meets.
#[derive(Debug)]
pub enum Event {
    /// A message of a caller.
    Front(FrontToBack),
    /// All callers are gone.
    FrontClosed,
    /// A message of the server.
    Message(Incoming),
    /// The transport failed to receive, for the reason given.
    ReceiveFailed(String),
    /// The transport has nothing more to receive.
    ReceiverClosed,
}

/// What was handed to the transport, for when the transport is done with it.
#[derive(Debug)]
pub enum Sent {
    /// A notification.
    Notification,
    /// A batch with these IDs.
    Batch(Vec<u64>),
    /// A method call.
    Request {
        /// Its ID.
        id: u64,
        /// Takes the reply.
        send_back: Option<CallReply>,
    },
    /// A subscription request.
    Subscription {
        /// Its ID.
        id: u64,
        /// What else is known of it.
        pending: PendingSubscription,
    },
    /// A request to unsubscribe with this ID.
    Unsubscribe(u64),
}

/// What a caller is told.
#[allow(inconsistent_fields)]
#[derive(Debug)]
pub enum Reply {
    /// The outcome of a method call.
    Call {
        /// Takes the reply.
        send_back: CallReply,
        /// The outcome.
        result: CallAnswer,
    },
    /// The outcome of a batch.
    Batch {
        /// Takes the reply.
        send_back: BatchReply,
        /// The outcome.
        result: BatchAnswer,
    },
    /// A subscription has become active.
    Subscribed {
        /// Takes the reply.
        send_back: SubscriptionReply,
        /// Where its notifications come out.
        notifs: Notifs,
        /// The ID of the subscription.
        subscription: SubscriptionId,
    },
    /// A subscription request failed.
    NotSubscribed {
        /// Takes the reply.
        send_back: SubscriptionReply,
        /// The reason.
        error: ClientError,
    },
    /// The outcome of the registration of a notification handler.
    Method {
        /// Takes the reply.
        send_back: MethodReply,
        /// The outcome.
        result: MethodAnswer,
    },
}

/// A subscription that the server has confirmed and that needs a channel.
#[derive(Debug)]
pub struct Opening {
    /// The ID of the subscription request.
    pub id: u64,
    /// The ID of the subscription.
    pub subscription: SubscriptionId,
    /// What was kept of the request.
    pub pending: PendingSubscription,
}

/// What the background task does next.
#[derive(Debug)]
pub enum Action {
    /// Wait for the next event.
    Wait,
    /// Hand a text to the transport, and report how that went.
    Send {
        /// The text.
        raw: String,
        /// What the text is, to be given back with the report.
        sent: Sent,
    },
    /// Tell a caller something.
    Deliver(Reply),
    /// Make the channel of a subscription.
    OpenSubscription(Opening),
    /// Make the channel of a notification handler.
    OpenHandler(RegisterNotificationMessage),
    /// End, and leave the reason, if there is one, to the callers.
    Terminate(Option<ClientError>),
}

} // verus!

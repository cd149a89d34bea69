//! The messages that travel between the server, the background task and the
//! callers of a client.

use crate::error::ClientError;
use futures_channel::{mpsc, oneshot};
use serde_json::Value;
use vstd::prelude::*;

verus! {

/// Where notifications are put for whoever listens to them.
pub type Sink = mpsc::Sender<Value>;

/// Where the listener takes them from.
pub type Notifs = mpsc::Receiver<Value>;

/// The answer to a method call.
pub type CallAnswer = Result<Value, ClientError>;

/// The answers to a batch, in the order of its calls.
pub type BatchAnswer = Result<Vec<Value>, ClientError>;

/// The answer to a subscription request.
pub type SubscriptionAnswer = Result<(Notifs, SubscriptionId), ClientError>;

/// The answer to the registration of a notification handler.
pub type MethodAnswer = Result<(Notifs, String), ClientError>;

/// Takes the answer to a method call.
pub type CallReply = oneshot::Sender<CallAnswer>;

/// Takes the answers to a batch.
pub type BatchReply = oneshot::Sender<BatchAnswer>;

/// Takes the answer to a subscription request.
pub type SubscriptionReply = oneshot::Sender<SubscriptionAnswer>;

/// Takes the answer to the registration of a notification handler.
pub type MethodReply = oneshot::Sender<MethodAnswer>;

/// The ID in a message of the server.
#[derive(Debug)]
pub enum Id {
    /// JSON `null`.
    Null,
    /// A number.
    Number(u64),
    /// A string.
    Str(String),
}

impl Id {
    /// The number, if the ID is one.
    pub open spec fn number(&self) -> Option<u64> {
        match self {
            Id::Number(n) => Some(*n),
            _ => None,
        }
    }

    /// The number, if the ID is one.
    pub fn as_number(&self) -> (r: Option<u64>)
        ensures
            r == self.number(),
    {
        match self {
            Id::Number(n) => Some(*n),
            _ => None,
        }
    }
}

/// The ID that a server gave to a subscription.
#[derive(Debug)]
pub enum SubscriptionId {
    /// A number.
    Num(u64),
    /// A string.
    Str(String),
}

/// What a [`SubscriptionId`] is, with the text of a string in place of the
/// string.
pub enum SubscriptionKey {
    /// A number.
    Num(u64),
    /// A string.
    Str(Seq<char>),
}

impl View for SubscriptionId {
    type V = SubscriptionKey;

    open spec fn view(&self) -> SubscriptionKey {
        match self {
            SubscriptionId::Num(n) => SubscriptionKey::Num(*n),
            SubscriptionId::Str(text) => SubscriptionKey::Str(text@),
        }
    }
}

impl Clone for SubscriptionId {
    fn clone(&self) -> (r: Self)
        ensures
            r == *self,
    {
        match self {
            SubscriptionId::Num(n) => SubscriptionId::Num(*n),
            SubscriptionId::Str(text) => SubscriptionId::Str(text.clone()),
        }
    }
}

/// The server's reply to one request.
#[derive(Debug)]
pub struct Response {
    /// The ID of the request.
    pub id: Id,
    /// The result.
    pub result: Value,
}

/// A notification of the server that belongs to a subscription.
#[derive(Debug)]
pub struct SubscriptionResponse {
    /// The subscription.
    pub subscription: SubscriptionId,
    /// What the subscription yields.
    pub result: Value,
}

/// A notification of the server that belongs to no subscription.
#[derive(Debug)]
pub struct Notification {
    /// The name of the notification.
    pub method: String,
    /// Its parameters.
    pub params: Value,
}

/// The server's report that a request failed.
#[derive(Debug)]
pub struct RpcError {
    /// The ID of the request.
    pub id: Id,
    /// The report as text.
    pub message: String,
}

/// The parameters of a call.
#[derive(Debug)]
pub enum ParamsSer {
    /// By position.
    Array(Vec<Value>),
    /// By name, in the order in which they are written.
    Object(Vec<(String, Value)>),
}

/// A method call on its way to the server.
#[derive(Debug)]
pub struct RequestMessage {
    /// The text to send.
    pub raw: String,
    /// The ID of the request.
    pub id: u64,
    /// Takes the reply, if anybody waits for it.
    pub send_back: Option<CallReply>,
}

/// A batch of method calls on its way to the server.
#[derive(Debug)]
pub struct BatchMessage {
    /// The text to send.
    pub raw: String,
    /// The IDs of the requests, in the order of the calls.
    pub ids: Vec<u64>,
    /// Takes the replies.
    pub send_back: BatchReply,
}

/// A subscription request on its way to the server.
#[derive(Debug)]
pub struct SubscriptionMessage {
    /// The text to send.
    pub raw: String,
    /// The ID of the subscription request.
    pub subscribe_id: u64,
    /// The ID that the later request to unsubscribe will have.
    pub unsubscribe_id: u64,
    /// The method that ends the subscription.
    pub unsubscribe_method: String,
    /// Takes the reply.
    pub send_back: SubscriptionReply,
}

/// The registration of a notification handler.
#[derive(Debug)]
pub struct RegisterNotificationMessage {
    /// The name of the notification.
    pub method: String,
    /// Takes the reply.
    pub send_back: MethodReply,
}

/// What the callers of a client tell the background task.
#[derive(Debug)]
pub enum FrontToBack {
    /// Send a batch of calls.
    Batch(BatchMessage),
    /// Send a notification; the text is ready.
    Notification(String),
    /// Send a method call.
    Request(RequestMessage),
    /// Send a subscription request.
    Subscribe(SubscriptionMessage),
    /// Register a notification handler.
    RegisterNotification(RegisterNotificationMessage),
    /// Drop the handler of this notification.
    UnregisterNotification(String),
    /// The listener of this subscription is gone.
    SubscriptionClosed(SubscriptionId),
}

/// What a stream of notifications is attached to.
#[derive(Debug)]
pub enum SubscriptionKind {
    /// A subscription.
    Subscription(SubscriptionId),
    /// The handler of a notification.
    Method(String),
}

impl SubscriptionKind {
    /// What the background task is told when the stream is dropped.
    pub fn close_message(self) -> (r: FrontToBack)
        ensures
            r == (match self {
                SubscriptionKind::Subscription(id) => FrontToBack::SubscriptionClosed(id),
                SubscriptionKind::Method(method) => FrontToBack::UnregisterNotification(method),
            }),
    {
        match self {
            SubscriptionKind::Subscription(id) => FrontToBack::SubscriptionClosed(id),
            SubscriptionKind::Method(method) => FrontToBack::UnregisterNotification(method),
        }
    }
}

} // verus!

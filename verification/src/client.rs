//! The callers' side of a client.
//!
//! A call comes in two halves. The first takes a request slot, writes the text
//! and makes the message for the background task, together with the end of the
//! channel at which the answer arrives. The second, once the answer has been
//! waited for, says what the caller gets.

use crate::backend::{Backend, BackendState};
use crate::channel::{
    ask_closed, buffer_fits, front_buffer, front_channel, front_feeds, front_shut, is_buffer_size,
    said_closed, shut,
};
use crate::error::ClientError;
use crate::frame::{
    batch_text, notification_text, params_text, request_text, write_batch, write_notification,
    write_request,
};
use crate::ids::{IdState, RequestIdManager};
use crate::manager::ManagerState;
use crate::reply::{
    batch_arrives, batch_carries, batch_channel, call_arrives, call_carries, call_channel,
    give_reason, method_arrives, method_carries, method_channel, reason_arrives, reason_carries,
    reason_channel, reason_sent, subscription_arrives, subscription_carries, subscription_channel,
};
use crate::types::{
    BatchAnswer, BatchMessage, CallAnswer, FrontToBack, MethodAnswer, ParamsSer,
    RegisterNotificationMessage, RequestMessage, SubscriptionAnswer, SubscriptionMessage,
};
use futures_channel::{mpsc, oneshot};
use std::time::Duration;
use vstd::prelude::*;

verus! {

/// The length of a duration in nanoseconds: what `Duration::as_nanos` returns.
pub uninterp spec fn duration_nanos(duration: Duration) -> nat;

/// `Duration::from_secs`: a duration of that many whole seconds.
pub assume_specification[ Duration::from_secs ](secs: u64) -> (r: Duration)
    ensures
        duration_nanos(r) == secs * 1_000_000_000,
;

/// Where a caller finds out why the background task has ended. The reason is
/// taken from the task once and kept as text for later callers.
#[derive(Debug)]
pub enum ErrorFromBack {
    /// The reason has been taken.
    Read(String),
    /// The reason has not been taken.
    Unread(oneshot::Receiver<ClientError>),
}

/// How far the reading of the reason has come.
#[derive(Debug)]
pub enum Reading {
    /// It is done: what to keep, and the error for the caller.
    Done(ErrorFromBack, ClientError),
    /// The reason has to be waited for at this end of the channel.
    Pending(oneshot::Receiver<ClientError>),
}

/// The text of the reason, or of its absence.
pub open spec fn reason_text(reason: Option<ClientError>) -> Seq<char> {
    match reason {
        Some(error) => error.describe(),
        None => "Error reason could not be found. This is a bug. Please open an issue."@,
    }
}

impl ErrorFromBack {
    /// How the reading of the reason begins.
    pub open spec fn reading(self) -> Reading {
        match self {
            ErrorFromBack::Read(text) => Reading::Done(
                ErrorFromBack::Read(text),
                ClientError::RestartNeeded(text),
            ),
            ErrorFromBack::Unread(receiver) => Reading::Pending(receiver),
        }
    }

    /// Whether `kept` is what is kept of a reason, and `error` what the caller
    /// gets.
    pub open spec fn tells(
        kept: ErrorFromBack,
        error: ClientError,
        reason: Option<ClientError>,
    ) -> bool {
        &&& kept matches ErrorFromBack::Read(text) && text@ == reason_text(reason)
        &&& error == ClientError::RestartNeeded(kept->Read_0)
    }

    /// Begins to read the reason.
    pub fn read_error(self) -> (r: Reading)
        ensures
            r == self.reading(),
    {
        match self {
            ErrorFromBack::Read(text) => Reading::Done(
                ErrorFromBack::Read(text.clone()),
                ClientError::RestartNeeded(text),
            ),
            ErrorFromBack::Unread(receiver) => Reading::Pending(receiver),
        }
    }

    /// Ends the reading with what came out of the channel, which is nothing
    /// when the task has ended without a reason.
    pub fn finish(reason: Option<ClientError>) -> (r: (ErrorFromBack, ClientError))
        ensures
            ErrorFromBack::tells(r.0, r.1, reason),
    {
        let text = match reason {
            Some(error) => error.message(),
            None => {
                "Error reason could not be found. This is a bug. Please open an issue.".to_owned()
            },
        };
        (ErrorFromBack::Read(text.clone()), ClientError::RestartNeeded(text))
    }
}

/// Leaves the reason why the task ends to the callers. A reason that no caller
/// can take any more is given back.
pub fn leave_reason(front_error: oneshot::Sender<ClientError>, reason: ClientError) -> (r: Result<
    (),
    ClientError,
>)
    ensures
        reason_carries(front_error) == reason,
        reason_sent(front_error, reason, r is Ok),
        r matches Err(back) ==> back == reason,
{
    give_reason(front_error, reason)
}

/// How the wait for an answer ended.
#[derive(Debug)]
pub enum Waited<T> {
    /// The background task has answered.
    Answered(Result<T, ClientError>),
    /// The background task has ended without an answer.
    Canceled,
    /// The time allowed for a request is over.
    TimedOut,
}

/// What a caller gets.
#[derive(Debug)]
pub enum Outcome<T> {
    /// The value asked for.
    Value(T),
    /// An error.
    Failed(ClientError),
    /// The error that tells why the background task has ended.
    BackendError,
}

/// Says what a caller gets, given how the wait for the answer ended.
pub fn settle<T>(waited: Waited<T>) -> (r: Outcome<T>)
    ensures
        r == (match waited {
            Waited::Answered(Ok(value)) => Outcome::Value(value),
            Waited::Answered(Err(error)) => Outcome::Failed(error),
            Waited::Canceled => Outcome::BackendError,
            Waited::TimedOut => Outcome::Failed(ClientError::RequestTimeout),
        }),
{
    match waited {
        Waited::Answered(Ok(value)) => Outcome::Value(value),
        Waited::Answered(Err(error)) => Outcome::Failed(error),
        Waited::Canceled => Outcome::BackendError,
        Waited::TimedOut => Outcome::Failed(ClientError::RequestTimeout),
    }
}

/// Says what a caller gets whose result could be read as the type asked for, or
/// could not, for the reason given.
pub fn settle_read<R>(read: Result<R, String>) -> (r: Result<R, ClientError>)
    ensures
        r == (match read {
            Ok(value) => Ok::<R, ClientError>(value),
            Err(reason) => Err(ClientError::ParseError(reason)),
        }),
{
    match read {
        Ok(value) => Ok(value),
        Err(reason) => Err(ClientError::ParseError(reason)),
    }
}

/// Says what a caller gets for a batch whose results were read: all of them in
/// their order, or the error of the first that could not be read.
pub fn collect_reads<R>(reads: Vec<Result<R, String>>) -> (r: Result<
    Vec<R>,
    ClientError,
>)
    ensures
        match r {
            Ok(values) => {
                &&& values@.len() == reads@.len()
                &&& forall|i: int|
                    0 <= i < reads@.len() ==> #[trigger] reads@[i] == Ok::<R, String>(
                        values@[i],
                    )
            },
            Err(error) => exists|i: int|
                {
                    &&& 0 <= i < reads@.len()
                    &&& #[trigger] reads@[i] is Err
                    &&& error == ClientError::ParseError(reads@[i]->Err_0)
                    &&& forall|j: int| 0 <= j < i ==> #[trigger] reads@[j] is Ok
                },
        },
{
    let ghost all = reads@;
    let mut values: Vec<R> = Vec::new();
    for read in it: reads
        invariant
            it.seq() == all,
            values@.len() == it.index(),
            forall|i: int|
                0 <= i < it.index() ==> #[trigger] all[i] == Ok::<R, String>(values@[i]),
    {
        assert(read == all[it.index() as int]);
        match settle_read(read) {
            Ok(value) => values.push(value),
            Err(error) => return Err(error),
        }
    }
    Ok(values)
}

/// Builds a [`Client`].
#[derive(Debug)]
pub struct ClientBuilder {
    request_timeout: Duration,
    max_concurrent_requests: usize,
    max_notifs_per_subscription: usize,
}

/// What a [`ClientBuilder`] holds.
pub struct Settings {
    /// The time allowed for a request.
    pub request_timeout: Duration,
    /// How many requests may be under way at once.
    pub max_concurrent_requests: usize,
    /// The buffer size of the channels for notifications.
    pub max_notifs_per_subscription: usize,
}

impl View for ClientBuilder {
    type V = Settings;

    closed spec fn view(&self) -> Settings {
        Settings {
            request_timeout: self.request_timeout,
            max_concurrent_requests: self.max_concurrent_requests,
            max_notifs_per_subscription: self.max_notifs_per_subscription,
        }
    }
}

impl Clone for ClientBuilder {
    fn clone(&self) -> (r: Self)
        ensures
            r == *self,
    {
        ClientBuilder {
            request_timeout: self.request_timeout,
            max_concurrent_requests: self.max_concurrent_requests,
            max_notifs_per_subscription: self.max_notifs_per_subscription,
        }
    }
}

impl Default for ClientBuilder {
    fn default() -> (r: Self)
        ensures
            duration_nanos(r@.request_timeout) == 60_000_000_000,
            r@.max_concurrent_requests == 256,
            r@.max_notifs_per_subscription == 1024,
    {
        ClientBuilder {
            request_timeout: Duration::from_secs(60),
            max_concurrent_requests: 256,
            max_notifs_per_subscription: 1024,
        }
    }
}

/// What the background task starts with.
pub struct Task {
    /// Where the messages of the callers come out.
    pub from_front: mpsc::Receiver<FrontToBack>,
    /// Takes the reason why the task ends.
    pub front_error: oneshot::Sender<ClientError>,
    /// The state of the task.
    pub backend: Backend,
}

impl ClientBuilder {
    /// Sets the time allowed for a request (60 seconds by default).
    pub fn request_timeout(self, timeout: Duration) -> (r: Self)
        ensures
            r@ == (Settings { request_timeout: timeout, ..self@ }),
    {
        ClientBuilder { request_timeout: timeout, ..self }
    }

    /// Sets how many requests may be under way at once (256 by default).
    pub fn max_concurrent_requests(self, max: usize) -> (r: Self)
        ensures
            r@ == (Settings { max_concurrent_requests: max, ..self@ }),
    {
        ClientBuilder { max_concurrent_requests: max, ..self }
    }

    /// Sets how many notifications may wait for the listener of a subscription
    /// (1024 by default). A listener that falls behind by more loses the
    /// subscription.
    ///
    /// A channel takes one notification more than its buffer size, because
    /// each sender has a place of its own.
    pub fn max_notifs_per_subscription(self, max: usize) -> (r: Self)
        ensures
            r@ == (Settings { max_notifs_per_subscription: max, ..self@ }),
    {
        ClientBuilder { max_notifs_per_subscription: max, ..self }
    }

    /// Whether a client can be built: there is a largest buffer size.
    pub fn can_build(&self) -> (r: bool)
        ensures
            r == buffer_fits(self@.max_concurrent_requests),
    {
        is_buffer_size(self.max_concurrent_requests)
    }

    /// Builds a client, what its background task starts with, and where the
    /// callers find out why the task has ended.
    pub fn build(self) -> (r: (Client, Task, ErrorFromBack))
        requires
            buffer_fits(self@.max_concurrent_requests),
        ensures
            ({
                let (client, task, error) = r;
                &&& client.wf()
                &&& client@.request_timeout == self@.request_timeout
                &&& client@.ids == (IdState {
                    next_id: 0,
                    pending: 0,
                    limit: self@.max_concurrent_requests as nat,
                })
                &&& front_buffer(client@.to_back) == self@.max_concurrent_requests
                &&& front_feeds(client@.to_back, task.from_front)
                &&& !front_shut(client@.to_back)
                &&& task.backend.wf()
                &&& task.backend@ == (BackendState {
                    manager: ManagerState::empty(),
                    max_notifs_per_subscription: self@.max_notifs_per_subscription,
                })
                &&& error matches ErrorFromBack::Unread(receiver) && reason_carries(
                    task.front_error,
                ) == reason_arrives(receiver)
            }),
    {
        let (to_back, from_front) = front_channel(self.max_concurrent_requests);
        let (front_error, receiver) = reason_channel();
        let client = Client {
            to_back,
            request_timeout: self.request_timeout,
            id_manager: RequestIdManager::new(self.max_concurrent_requests),
        };
        let backend = Backend::new(self.max_notifs_per_subscription);
        (client, Task { from_front, front_error, backend }, ErrorFromBack::Unread(receiver))
    }
}

/// The callers' side of a client.
#[derive(Debug)]
pub struct Client {
    to_back: mpsc::Sender<FrontToBack>,
    request_timeout: Duration,
    id_manager: RequestIdManager,
}

/// What a [`Client`] holds.
pub struct ClientState {
    /// Takes the messages for the background task.
    pub to_back: mpsc::Sender<FrontToBack>,
    /// The time allowed for a request.
    pub request_timeout: Duration,
    /// The request IDs, and the requests under way.
    pub ids: IdState,
}

impl View for Client {
    type V = ClientState;

    closed spec fn view(&self) -> ClientState {
        ClientState {
            to_back: self.to_back,
            request_timeout: self.request_timeout,
            ids: self.id_manager@,
        }
    }
}

impl ClientState {
    /// The state with other request IDs.
    pub open spec fn with_ids(self, ids: IdState) -> ClientState {
        ClientState { ids, ..self }
    }

    /// Whether a call has failed for `error`: no slot is free, and nothing
    /// changes.
    pub open spec fn refuses(self, error: ClientError, after: ClientState) -> bool {
        &&& !self.ids.has_slot()
        &&& error is MaxSlotsExceeded
        &&& after == self
    }

    /// Whether a call that needs `n` IDs has taken a slot and the IDs.
    pub open spec fn accepts(self, n: nat, after: ClientState) -> bool {
        &&& self.ids.has_slot()
        &&& after == self.with_ids(self.ids.take(n))
    }
}

/// Whether a client counts as connected, given whether its channel to the
/// background task is closed.
pub fn connected_unless(closed: bool) -> (r: bool)
    ensures
        r == !closed,
{
    !closed
}

impl Client {
    /// No more requests are under way than allowed.
    pub closed spec fn wf(&self) -> bool {
        self.id_manager.wf()
    }

    /// Whether the background task is still there: whether its channel is open
    /// at this moment. It is not for a client that was closed; apart from that
    /// the task decides.
    pub fn is_connected(&self) -> (r: bool)
        ensures
            said_closed(self@.to_back, !r),
            front_shut(self@.to_back) ==> !r,
    {
        connected_unless(ask_closed(&self.to_back))
    }

    /// Ends the connection to the background task: closes the channel that the
    /// task takes its messages from.
    pub fn close(&mut self)
        requires
            old(self).wf(),
        ensures
            final(self).wf(),
            front_shut(final(self)@.to_back),
            front_buffer(final(self)@.to_back) == front_buffer(old(self)@.to_back),
            forall|receiver: mpsc::Receiver<FrontToBack>|
                #![auto]
                front_feeds(final(self)@.to_back, receiver) == front_feeds(
                    old(self)@.to_back,
                    receiver,
                ),
            final(self)@.ids == old(self)@.ids,
            final(self)@.request_timeout == old(self)@.request_timeout,
    {
        shut(&mut self.to_back);
    }

    /// Takes the messages for the background task.
    pub fn to_back(&self) -> (r: &mpsc::Sender<FrontToBack>)
        ensures
            *r == self@.to_back,
    {
        &self.to_back
    }

    /// The time allowed for a request.
    pub fn request_timeout(&self) -> (r: Duration)
        ensures
            r == self@.request_timeout,
    {
        self.request_timeout
    }

    /// The number of requests under way.
    pub fn pending(&self) -> (r: usize)
        requires
            self.wf(),
        ensures
            r == self@.ids.pending,
    {
        self.id_manager.pending()
    }

    /// Gives the slot of a call back.
    pub fn release(&mut self)
        requires
            old(self).wf(),
            old(self)@.ids.pending > 0,
        ensures
            final(self).wf(),
            final(self)@ == old(self)@.with_ids(old(self)@.ids.release()),
    {
        self.id_manager.release();
    }

    /// Prepares a notification to the server. It needs an ID only to count as
    /// a request under way.
    pub fn notification(&mut self, method: &str, params: Option<ParamsSer>) -> (r: Result<
        FrontToBack,
        ClientError,
    >)
        requires
            old(self).wf(),
        ensures
            final(self).wf(),
            match r {
                Err(error) => old(self)@.refuses(error, final(self)@),
                Ok(message) => {
                    &&& old(self)@.accepts(1, final(self)@)
                    &&& message matches FrontToBack::Notification(raw) && raw@
                        == notification_text(method@, params_text(params))
                },
            },
    {
        match self.id_manager.next_request_id() {
            Ok(_) => Ok(FrontToBack::Notification(write_notification(method, &params))),
            Err(error) => Err(error),
        }
    }

    /// Prepares a method call.
    pub fn request(&mut self, method: &str, params: Option<ParamsSer>) -> (r: Result<
        (FrontToBack, oneshot::Receiver<CallAnswer>),
        ClientError,
    >)
        requires
            old(self).wf(),
        ensures
            final(self).wf(),
            match r {
                Err(error) => old(self)@.refuses(error, final(self)@),
                Ok((message, receiver)) => {
                    &&& old(self)@.accepts(1, final(self)@)
                    &&& message matches FrontToBack::Request(request) && request.id
                        == old(self)@.ids.next_id && request.raw@ == request_text(
                        request.id,
                        method@,
                        params_text(params),
                    ) && (request.send_back matches Some(sender) && call_carries(sender)
                        == call_arrives(receiver))
                },
            },
    {
        let (sender, receiver) = call_channel();
        let id = match self.id_manager.next_request_id() {
            Ok(id) => id,
            Err(error) => return Err(error),
        };
        let raw = write_request(id, method, &params);
        let request = RequestMessage { raw, id, send_back: Some(sender) };
        Ok((FrontToBack::Request(request), receiver))
    }

    /// Prepares a batch of method calls, which takes one slot and as many IDs
    /// as there are calls.
    pub fn batch_request(&mut self, batch: Vec<(&str, Option<ParamsSer>)>) -> (r: Result<
        (FrontToBack, oneshot::Receiver<BatchAnswer>),
        ClientError,
    >)
        requires
            old(self).wf(),
        ensures
            final(self).wf(),
            match r {
                Err(error) => old(self)@.refuses(error, final(self)@),
                Ok((message, receiver)) => {
                    &&& old(self)@.accepts(batch@.len(), final(self)@)
                    &&& message matches FrontToBack::Batch(request) && request.ids@
                        == old(self)@.ids.next_ids(batch@.len()) && request.raw@ == batch_text(
                        request.ids@,
                        batch@,
                    ) && batch_carries(request.send_back) == batch_arrives(receiver)
                },
            },
    {
        let ids = match self.id_manager.next_request_ids(batch.len()) {
            Ok(ids) => ids,
            Err(error) => return Err(error),
        };
        let (send_back, receiver) = batch_channel();
        let raw = write_batch(&ids, &batch);
        Ok((FrontToBack::Batch(BatchMessage { raw, ids, send_back }), receiver))
    }

    /// Prepares a subscription. The first of its two IDs is for the
    /// subscription request, the second for the request that will end the
    /// subscription.
    pub fn subscribe(
        &mut self,
        subscribe_method: &str,
        params: Option<ParamsSer>,
        unsubscribe_method: &str,
    ) -> (r: Result<
        (FrontToBack, oneshot::Receiver<SubscriptionAnswer>),
        ClientError,
    >)
        requires
            old(self).wf(),
        ensures
            final(self).wf(),
            match r {
                Err(error) => if subscribe_method@ == unsubscribe_method@ {
                    &&& error matches ClientError::SubscriptionNameConflict(name) && name@
                        == unsubscribe_method@
                    &&& final(self)@ == old(self)@
                } else {
                    old(self)@.refuses(error, final(self)@)
                },
                Ok((message, receiver)) => {
                    &&& subscribe_method@ != unsubscribe_method@
                    &&& old(self)@.accepts(2, final(self)@)
                    &&& message matches FrontToBack::Subscribe(request) && request.subscribe_id
                        == old(self)@.ids.next_ids(2)[0] && request.unsubscribe_id
                        == old(self)@.ids.next_ids(2)[1] && request.raw@ == request_text(
                        request.subscribe_id,
                        subscribe_method@,
                        params_text(params),
                    ) && request.unsubscribe_method@ == unsubscribe_method@
                        && subscription_carries(request.send_back) == subscription_arrives(receiver)
                },
            },
    {
        let name = unsubscribe_method.to_owned();
        if subscribe_method.to_owned() == name {
            return Err(ClientError::SubscriptionNameConflict(name));
        }
        let ids = match self.id_manager.next_request_ids(2) {
            Ok(ids) => ids,
            Err(error) => return Err(error),
        };
        let (send_back, receiver) = subscription_channel();
        let request = SubscriptionMessage {
            raw: write_request(ids[0], subscribe_method, &params),
            subscribe_id: ids[0],
            unsubscribe_id: ids[1],
            unsubscribe_method: name,
            send_back,
        };
        Ok((FrontToBack::Subscribe(request), receiver))
    }

    /// Prepares the registration of a notification handler, which takes no
    /// slot.
    pub fn subscribe_to_method(&self, method: &str) -> (r: (
        FrontToBack,
        oneshot::Receiver<MethodAnswer>,
    ))
        ensures
            r.0 matches FrontToBack::RegisterNotification(register) && register.method@ == method@
                && method_carries(register.send_back) == method_arrives(r.1),
    {
        let (send_back, receiver) = method_channel();
        let register = RegisterNotificationMessage { method: method.to_owned(), send_back };
        (FrontToBack::RegisterNotification(register), receiver)
    }
}

} // verus!

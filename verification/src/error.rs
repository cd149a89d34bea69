//! What can go wrong in a client.

use vstd::prelude::*;
use vstd::string::StringExecFns;

verus! {

/// The ways in which a call on a client fails.
#[derive(Debug)]
pub enum ClientError {
    /// The server answered a call with an error; the text describes it.
    Request(String),
    /// The transport failed.
    Transport(String),
    /// The background task has ended for the reason given.
    RestartNeeded(String),
    /// A result could not be read as the type asked for, for the reason given.
    ParseError(String),
    /// The server gave no subscription ID, or one that is in use.
    InvalidSubscriptionId,
    /// A request ID is unknown, is in use, or is no number.
    InvalidRequestId,
    /// The notification method has a handler already.
    MethodAlreadyRegistered(String),
    /// One name was given for subscribing and for unsubscribing.
    SubscriptionNameConflict(String),
    /// No reply came in time.
    RequestTimeout,
    /// As many requests are under way as the client allows.
    MaxSlotsExceeded,
    /// Anything else.
    Custom(String),
}

impl ClientError {
    /// The text that describes the error to a person.
    pub open spec fn describe(&self) -> Seq<char> {
        match self {
            ClientError::Request(text) => text@,
            ClientError::Transport(text) => "Networking or low-level protocol error: "@ + text@,
            ClientError::RestartNeeded(text) => "The background task been terminated because: "@
                + text@ + "; restart required"@,
            ClientError::ParseError(text) => "Parse error: "@ + text@,
            ClientError::InvalidSubscriptionId => "Invalid subscription ID"@,
            ClientError::InvalidRequestId => "Invalid request ID"@,
            ClientError::MethodAlreadyRegistered(method) => "Method: "@ + method@
                + " was already registered"@,
            ClientError::SubscriptionNameConflict(method) =>
                "Cannot use the same method name for subscribe and unsubscribe, used: "@ + method@,
            ClientError::RequestTimeout => "Request timeout"@,
            ClientError::MaxSlotsExceeded => "Maximum number of request exceeded"@,
            ClientError::Custom(text) => "Custom error: "@ + text@,
        }
    }

    /// Writes the text that describes the error.
    pub fn message(&self) -> (r: String)
        ensures
            r@ == self.describe(),
    {
        match self {
            ClientError::Request(text) => text.clone(),
            ClientError::Transport(text) => "Networking or low-level protocol error: ".to_owned()
                .concat(text.as_str()),
            ClientError::RestartNeeded(text) => "The background task been terminated because: "
                .to_owned().concat(text.as_str()).concat("; restart required"),
            ClientError::ParseError(text) => "Parse error: ".to_owned().concat(text.as_str()),
            ClientError::InvalidSubscriptionId => "Invalid subscription ID".to_owned(),
            ClientError::InvalidRequestId => "Invalid request ID".to_owned(),
            ClientError::MethodAlreadyRegistered(method) => "Method: ".to_owned().concat(
                method.as_str(),
            ).concat(" was already registered"),
            ClientError::SubscriptionNameConflict(method) =>
                "Cannot use the same method name for subscribe and unsubscribe, used: ".to_owned()
                .concat(method.as_str()),
            ClientError::RequestTimeout => "Request timeout".to_owned(),
            ClientError::MaxSlotsExceeded => "Maximum number of request exceeded".to_owned(),
            ClientError::Custom(text) => "Custom error: ".to_owned().concat(text.as_str()),
        }
    }
}

} // verus!

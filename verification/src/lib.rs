//! Verified core of an asynchronous JSON-RPC client.

pub mod action;
pub mod assoc;
pub mod backend;
pub mod channel;
pub mod client;
pub mod decimal;
pub mod digest;
pub mod effects;
pub mod error;
pub mod frame;
pub mod helpers;
pub mod ids;
pub mod index;
pub mod json;
pub mod laws;
pub mod manager;
pub mod reply;
pub mod run;
pub mod step;
pub mod text_laws;
pub mod types;

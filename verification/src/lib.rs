//! Relays blockchain account-activity events to subscribed chat users.
//!
//! The crate owns the logic of the relay: the subscription store with its
//! derived fan-out index, the block-summary decoder, the matcher that turns a
//! decoded update into a notification, the catch-up pipeline over a persisted
//! cursor, the delivery plan, and the dialogue state machine of the chat
//! front-end. I/O (the chat transport, the relational store, the cache and
//! the node RPC) stays outside; the library works on plain values handed in.

pub mod codec;
pub mod command;
pub mod db;
pub mod decimal;
pub mod encodings;
pub mod json;
pub mod rpc;
pub mod sender;
pub mod states;
pub mod transitions;
pub mod updates;
pub mod types;
pub mod utils;

//! A greeter service core: the four call patterns of a small RPC layer,
//! with their message channels, call lifecycle and handlers.
//!
//! - [`message`]: requests, replies and the text of a greeting.
//! - [`pattern`]: the four patterns and the names that select them.
//! - [`error`]: what can go wrong with a call.
//! - [`channel`]: the ordered, bounded channel of one direction.
//! - [`call`]: one call, its two directions and its lifecycle.
//! - [`handlers`]: what the greeter answers under each pattern.
//! - [`server`]: the handler's side of a call, step by step.
//! - [`conversation`]: why the replies are right whatever the timing.
//! - [`client`]: whole invocations against a greeter in this process.

pub mod call;
pub mod channel;
pub mod client;
pub mod conversation;
pub mod error;
pub mod handlers;
pub mod message;
pub mod pattern;
pub mod server;

//! A chat-session store with an asynchronous completion-scheduling protocol.
//!
//! The library keeps one independent conversation per caller-supplied chat
//! identifier: an append-only transcript of role-tagged messages plus two
//! buffers of pending values — the contents of scheduled requests and the
//! deposited answers — each consumed one value per read.

pub mod completions;
pub mod queue;
pub mod role;
pub mod settings;
pub mod store;
pub mod text;

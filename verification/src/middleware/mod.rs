//! The idempotency layer: the cache manager, its message protocol, and
//! the request-processing steps around the downstream creation handler.
//!
//! Requests are not coalesced: when two first requests with the same key
//! run concurrently, both can miss and both run the handler, and the
//! record written later wins. Within one sequence of messages, though,
//! the manager's single-owner discipline makes every read and write
//! happen in queue order.

pub mod error;
pub mod layer;
pub mod manager;
pub mod msg;

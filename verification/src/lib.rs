//! An in-memory user service with an idempotency layer for creation requests.
//!
//! A creation request may carry an `Idempotency-Key` header. The first
//! request seen for a key runs the downstream handler and, when the handler
//! produced a valid user payload, records the response; every later request
//! with the same key is answered from that record without running the
//! handler again. The record store is owned by a single manager that
//! processes commands one at a time, so all cache reads and writes are
//! serialized.
//!
//! The crate holds the full request-processing logic over plain values
//! (header values, status codes, response bodies as text); listening on a
//! socket, routing, and task plumbing live outside it.

pub mod error;
pub mod ikey;
pub mod json;
pub mod middleware;
pub mod response;
pub mod routes;
pub mod service;
pub mod user;
pub mod warehouse;

//! The error the idempotency layer itself can produce: an infrastructure
//! failure while an uncached request was processed.

use crate::response::Response;
use vstd::prelude::*;

verus! {

/// The idempotency layer's own failure: the cache could not be read or
/// written (the manager is unreachable). Never raised for a cache miss,
/// which is ordinary control flow.
#[derive(Debug, Clone, PartialEq, Eq)]
pub enum CacheLayerError {
    Internal(String),
}

impl View for CacheLayerError {
    type V = Seq<char>;

    open spec fn view(&self) -> Seq<char> {
        match self {
            CacheLayerError::Internal(m) => m@,
        }
    }
}

/// The text a layer failure answers with.
pub open spec fn layer_error_text(m: Seq<char>) -> Seq<char> {
    "Error While Processing Uncached Request: "@ + m
}

impl CacheLayerError {
    pub fn new(message: String) -> (r: Self)
        ensures
            r@ == message@,
    {
        CacheLayerError::Internal(message)
    }

    /// The server-side failure response for this error: a plain-text 500
    /// so the caller sees the request failed rather than a silent drop.
    pub fn to_response(&self) -> (r: Response)
        ensures
            r@.status == 500,
            r@.body == layer_error_text(self@),
    {
        let mut body = String::from_str("Error While Processing Uncached Request: ");
        match self {
            CacheLayerError::Internal(m) => {
                body.append(m.as_str());
            },
        }
        Response::new(500, body)
    }
}

} // verus!

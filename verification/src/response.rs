//! The plain shape of an HTTP response: a status code and a body.

use vstd::prelude::*;

verus! {

/// A response as the service hands it to its surroundings: the status
/// code and the body text.
#[derive(Debug, Clone, PartialEq, Eq)]
pub struct Response {
    pub status: u16,
    pub body: String,
}

/// Mathematical value of a [`Response`].
pub ghost struct RespV {
    pub status: u16,
    pub body: Seq<char>,
}

impl View for Response {
    type V = RespV;

    open spec fn view(&self) -> RespV {
        RespV { status: self.status, body: self.body@ }
    }
}

impl Response {
    pub fn new(status: u16, body: String) -> (r: Self)
        ensures
            r@ == (RespV { status, body: body@ }),
    {
        Self { status, body }
    }
}

} // verus!

//! Replies to HTTP requests.

use vstd::prelude::*;

verus! {

/// The status of a request that succeeded.
pub const OK: u16 = 200;

/// The status of a request that a payment is missing for.
pub const PAYMENT_REQUIRED: u16 = 402;

/// The status of a request that the service failed on.
pub const INTERNAL_SERVER_ERROR: u16 = 500;

/// A reply: a status and a text.
pub struct Reply {
    pub status: u16,
    pub body: String,
}

impl View for Reply {
    type V = (u16, Seq<char>);

    open spec fn view(&self) -> (u16, Seq<char>) {
        (self.status, self.body@)
    }
}

/// A request that failed: how the span is marked, and the reply.
pub struct Failure {
    /// The status of the span, which is an error.
    pub span_error: String,
    pub exception_type: String,
    pub exception_message: String,
    pub reply: Reply,
}

/// A reply with a fixed text.
pub fn reply(status: u16, body: &str) -> (r: Reply)
    ensures
        r@ == (status, body@),
{
    Reply { status, body: body.to_owned() }
}

/// The liveness check that every service answers.
pub fn health() -> (r: Reply)
    ensures
        r@ == (OK, "ok"@),
{
    reply(OK, "ok")
}

} // verus!

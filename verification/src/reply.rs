//! What the adapter answers to the sender of a request.

use vstd::prelude::*;

verus! {

/// The status code of a reply that carries the outcomes.
pub const STATUS_OK: u16 = 200;

/// The status code of the reply to a request without a credential.
pub const STATUS_UNAUTHORIZED: u16 = 401;

/// The status code recorded for an update that never reached the status API,
/// and that of a reply whose outcomes could not be encoded.
pub const STATUS_INTERNAL_ERROR: u16 = 500;

/// The body of the reply where the outcomes could not be encoded.
pub const ENCODING_FAILED: &'static str = "Couldn't serialize cachet responses.";

/// The reply to the sender of the webhook.
#[derive(Debug)]
pub struct HttpReply {
    pub status: u16,
    pub body: String,
}

/// The reply to a request for which no credential could be resolved: the
/// unauthorized status and an empty body.
pub fn reply_unauthorized() -> (reply: HttpReply)
    ensures
        reply.status == STATUS_UNAUTHORIZED,
        reply.body@ == Seq::<char>::empty(),
{
    HttpReply { status: STATUS_UNAUTHORIZED, body: String::new() }
}

/// The reply once every request has its outcome. `encoded` is the list of
/// outcomes as JSON, or `None` where encoding it failed: that is an internal
/// error of its own, whatever the single outcomes were.
pub fn reply_reported(encoded: Option<String>) -> (reply: HttpReply)
    ensures
        match encoded {
            Some(body) => reply.status == STATUS_OK && reply.body@ == body@,
            None => reply.status == STATUS_INTERNAL_ERROR && reply.body@ == ENCODING_FAILED@,
        },
{
    match encoded {
        Some(body) => HttpReply { status: STATUS_OK, body },
        None => HttpReply {
            status: STATUS_INTERNAL_ERROR,
            body: String::from_str(ENCODING_FAILED),
        },
    }
}

/// The body of the answer to a health check: empty. That there is an answer
/// is all that a health check asks for.
pub fn health_check() -> (body: &'static str)
    ensures
        body@ == Seq::<char>::empty(),
{
    proof {
        reveal_strlit("");
    }
    let body = "";
    body
}

} // verus!

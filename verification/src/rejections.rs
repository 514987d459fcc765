//! The reasons a request can be turned away, and the reply sent for each.

use vstd::prelude::*;

verus! {

/// The request's signature does not verify against its timestamp and body.
#[derive(Clone, Copy, Debug, PartialEq, Eq)]
pub struct InvalidSignautre;

/// The request's signature header is not 128 hexadecimal digits.
#[derive(Clone, Copy, Debug, PartialEq, Eq)]
pub struct BadSignautre;

/// The request's timestamp header is not visible ASCII text.
#[derive(Clone, Copy, Debug, PartialEq, Eq)]
pub struct InvalidTimestamp;

/// The request's body lacks something the requested command needs.
#[derive(Clone, Copy, Debug, PartialEq, Eq)]
pub struct BadBodyError;

/// Why a request was turned away.
#[derive(Clone, Copy, Debug, PartialEq, Eq)]
pub enum Rejection {
    /// No route or command matches the request.
    NotFound,
    /// The body could not be deserialised by the web framework.
    BodyDeserialize,
    InvalidSignautre(InvalidSignautre),
    BadSignautre(BadSignautre),
    InvalidTimestamp(InvalidTimestamp),
    BadBodyError(BadBodyError),
    /// Any other reason.
    Unhandled,
}

/// The HTTP reply sent for a rejected request.
pub struct RejectionReply {
    /// The HTTP status code.
    pub status: u16,
    /// The body text.
    pub message: String,
}

/// The status code of the reply to a request rejected for `err`.
pub open spec fn rejection_status(err: Rejection) -> u16 {
    match err {
        Rejection::NotFound => 404,
        Rejection::InvalidSignautre(_) => 401,
        _ => 500,
    }
}

/// The body text of the reply to a request rejected for `err`.
pub open spec fn rejection_message(err: Rejection) -> Seq<char> {
    match err {
        Rejection::NotFound => "NOT_FOUND"@,
        _ => "INTERNAL_SERVER_ERROR"@,
    }
}

/// The reply to a request that was rejected for `err`: "not found" gets 404, a
/// signature that does not verify gets 401, everything else 500.
pub fn handle_rejection(err: &Rejection) -> (r: RejectionReply)
    ensures
        r.status == rejection_status(*err),
        r.message@ == rejection_message(*err),
{
    match err {
        Rejection::NotFound => RejectionReply { status: 404, message: "NOT_FOUND".to_owned() },
        Rejection::InvalidSignautre(_) => RejectionReply {
            status: 401,
            message: "INTERNAL_SERVER_ERROR".to_owned(),
        },
        _ => RejectionReply { status: 500, message: "INTERNAL_SERVER_ERROR".to_owned() },
    }
}

} // verus!

//! The rejection surface the pipeline exposes upstream. Every guard
//! short-circuits with one of these; the terminal handler alone produces
//! success statuses.

use vstd::prelude::*;

use crate::text::{decimal_digits, u64_to_string};

verus! {

/// Why a guard refused to let a request continue.
///
/// `Unauthenticated` covers a missing or invalid credential,
/// `Unauthorized` a valid credential of insufficient role, `RateLimited` an
/// exhausted quota (carrying the limit and window it names), and
/// `ServiceUnavailable` an unreachable or failing store where failing open
/// would defeat the check. `Internal` is the unexpected remainder.
#[derive(Clone, Copy, Debug, PartialEq, Eq, Structural)]
pub enum Rejection {
    Unauthenticated,
    Unauthorized,
    RateLimited { limit: u32, window_secs: u64 },
    ServiceUnavailable,
    Internal,
}

/// The HTTP status each rejection maps to.
pub open spec fn spec_status_of(r: Rejection) -> u16 {
    match r {
        Rejection::Unauthenticated => 401,
        Rejection::Unauthorized => 403,
        Rejection::RateLimited { .. } => 429,
        Rejection::ServiceUnavailable => 503,
        Rejection::Internal => 500,
    }
}

/// The text attached to a rejection; the quota message names the limit and
/// the window it was measured over.
pub open spec fn spec_message_of(r: Rejection) -> Seq<char> {
    match r {
        Rejection::Unauthenticated => "Invalid or missing credentials"@,
        Rejection::Unauthorized => "You do not have permission to access this resource"@,
        Rejection::RateLimited { limit, window_secs } => "Rate limit exceeded: "@
            + decimal_digits(limit as nat) + " requests in "@ + decimal_digits(window_secs as nat)
            + " seconds"@,
        Rejection::ServiceUnavailable => "Service temporarily unavailable"@,
        Rejection::Internal => "Internal error"@,
    }
}

impl Rejection {
    pub fn status_code(&self) -> (code: u16)
        ensures
            code == spec_status_of(*self),
    {
        match self {
            Rejection::Unauthenticated => 401,
            Rejection::Unauthorized => 403,
            Rejection::RateLimited { .. } => 429,
            Rejection::ServiceUnavailable => 503,
            Rejection::Internal => 500,
        }
    }

    /// The human-readable body sent with the rejection.
    pub fn message(&self) -> (msg: String)
        ensures
            msg@ == spec_message_of(*self),
    {
        match self {
            Rejection::Unauthenticated => "Invalid or missing credentials".to_owned(),
            Rejection::Unauthorized => {
                "You do not have permission to access this resource".to_owned()
            },
            Rejection::RateLimited { limit, window_secs } => {
                let mut msg = "Rate limit exceeded: ".to_owned();
                msg.append(u64_to_string(*limit as u64).as_str());
                msg.append(" requests in ");
                msg.append(u64_to_string(*window_secs).as_str());
                msg.append(" seconds");
                proof {
                    assert(msg@ =~= spec_message_of(*self));
                }
                msg
            },
            Rejection::ServiceUnavailable => "Service temporarily unavailable".to_owned(),
            Rejection::Internal => "Internal error".to_owned(),
        }
    }
}

} // verus!

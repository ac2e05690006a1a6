//! A verified request-processing pipeline for an HTTP API gateway.
//!
//! The library models the middleware chain that fronts a user-management
//! service: session-token and API-key authentication, role authorization,
//! rate limiting under a traffic quota, and audit logging. Each guard is a
//! function from the request context and the relevant store state to a
//! decision, so the ordering, short-circuit and freshness guarantees of the
//! chain are stated as contracts and proved. Network transport and the
//! concrete store connections live outside the library; the stores appear
//! here as explicit state with the interface the guards rely on.

pub mod audit;
pub mod auth;
pub mod context;
pub mod counter;
pub mod guards;
pub mod identity;
pub mod logging;
pub mod outcome;
pub mod pipeline;
pub mod schema;
pub mod store;
pub mod text;
pub mod token;

use vstd::prelude::*;

verus! {

/// Number of seconds a freshly issued session token stays valid.
pub const TOKEN_TTL_SECS: u64 = 3600;

} // verus!

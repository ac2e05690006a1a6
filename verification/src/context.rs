//! The per-request context: created at pipeline entry, enriched by guards,
//! discarded at exit. One logical flow owns it for the whole request, so no
//! field is ever written concurrently.

use vstd::prelude::*;

use crate::identity::Identity;

verus! {

/// Everything the guards read from or attach to one request.
///
/// `presented_api_key` and `presented_token` are the raw `x-api-key` and
/// `Authorization` header values, unvalidated beyond presence. `identity` is
/// written by whichever guard authenticates the request and read by guards
/// placed after it.
pub struct RequestContext {
    pub source_address: String,
    pub path: String,
    pub method: String,
    pub presented_api_key: Option<String>,
    pub presented_token: Option<String>,
    pub identity: Option<Identity>,
    pub received_at: u64,
}

impl RequestContext {
    /// A fresh context at pipeline entry: headers as presented, no identity
    /// resolved yet.
    pub fn new(
        source_address: String,
        path: String,
        method: String,
        presented_api_key: Option<String>,
        presented_token: Option<String>,
        received_at: u64,
    ) -> (ctx: RequestContext)
        ensures
            ctx.source_address == source_address,
            ctx.path == path,
            ctx.method == method,
            ctx.presented_api_key == presented_api_key,
            ctx.presented_token == presented_token,
            ctx.identity is None,
            ctx.received_at == received_at,
    {
        RequestContext {
            source_address,
            path,
            method,
            presented_api_key,
            presented_token,
            identity: None,
            received_at,
        }
    }
}

} // verus!

//! The post-processing stages: the audit logger, which persists one usage
//! record per completed request after the downstream handler has answered,
//! and the simple logger, which renders the console lines around a request.

use vstd::prelude::*;

use crate::audit::ApiUsage;
use crate::context::RequestContext;
use crate::store::{first_user_with_key, IdentityStore};
use crate::text::decimal_digits;
use crate::text::u64_to_string;

verus! {

/// Whether the audit logger can resolve a record to write: the store must be
/// reachable, the request must have presented an API key, and some record
/// must hold that key. When it cannot, the logger writes nothing and must
/// not disturb the response.
pub open spec fn spec_can_log(store: IdentityStore, key: Option<String>) -> bool {
    match key {
        None => false,
        Some(k) => store.healthy && first_user_with_key(store.users@, k@) is Some,
    }
}

/// Factory for the audit logger.
pub struct ApiUsageLogger {}

/// The audit logger: wraps the rest of the chain and persists one record per
/// completed request, best-effort.
pub struct ApiUsageLoggerMiddleware {}

impl ApiUsageLogger {
    pub fn new() -> (g: ApiUsageLogger) {
        ApiUsageLogger {}
    }

    pub fn new_transform(&self) -> (m: ApiUsageLoggerMiddleware) {
        ApiUsageLoggerMiddleware {}
    }
}

impl ApiUsageLoggerMiddleware {
    /// Called after the downstream handler has produced `status`: appends
    /// exactly one audit record when the identity behind the presented key
    /// resolves and the store accepts the write, and exactly none otherwise.
    /// Logging failures are swallowed — the status handed in is returned
    /// unchanged in every case, so a logging failure can never alter the
    /// response already computed.
    pub fn handle(&self, ctx: &RequestContext, status: u16, store: &mut IdentityStore, now: u64) -> (r:
        u16)
        requires
            old(store).audit@.len() < i32::MAX,
        ensures
            r == status,
            final(store).users == old(store).users,
            final(store).next_id == old(store).next_id,
            final(store).healthy == old(store).healthy,
            old(store).wf() ==> final(store).wf(),
            spec_can_log(*old(store), ctx.presented_api_key) ==> {
                &&& final(store).audit@.len() == old(store).audit@.len() + 1
                &&& final(store).audit@ =~= old(store).audit@.push(final(store).audit@.last())
                &&& ({
                    let rec = final(store).audit@.last();
                    let owner = first_user_with_key(
                        old(store).users@,
                        ctx.presented_api_key->0@,
                    );
                    &&& rec.id == old(store).audit@.len()
                    &&& owner matches Some(u) && rec.user_id == u.id
                    &&& rec.api_key@ == ctx.presented_api_key->0@
                    &&& rec.request_path@ == ctx.path@
                    &&& rec.request_method@ == ctx.method@
                    &&& rec.request_time == now
                    &&& rec.request_ip@ == ctx.source_address@
                    &&& rec.status_code == status as i32
                })
            },
            !spec_can_log(*old(store), ctx.presented_api_key) ==> final(store).audit@ == old(
                store,
            ).audit@,
    {
        let key = match &ctx.presented_api_key {
            Some(k) => k.clone(),
            None => {
                return status;
            },
        };
        let user_id = match store.find_by_api_key(key.as_str()) {
            Ok(Some(i)) => store.users[i].id,
            Ok(None) => {
                return status;
            },
            Err(_) => {
                return status;
            },
        };
        let rec = ApiUsage {
            id: store.audit.len() as i32,
            user_id,
            api_key: key,
            request_path: ctx.path.clone(),
            request_method: ctx.method.clone(),
            request_time: now,
            request_ip: ctx.source_address.clone(),
            status_code: status as i32,
        };
        let _accepted = store.append_audit(rec);
        status
    }
}

/// The console line announcing an incoming request.
pub open spec fn spec_request_line(path: Seq<char>) -> Seq<char> {
    "Incoming request: \""@ + path + "\""@
}

/// The console line announcing the response status.
pub open spec fn spec_response_line(status: u16) -> Seq<char> {
    "Response status: "@ + decimal_digits(status as nat)
}

/// Factory for the simple logger.
pub struct SimpleLogger {}

/// The simple logger: computes the line logged as a request comes in and the
/// line logged once its response status is known. Writing the lines out is
/// the host's business; the stage itself only records them.
pub struct SimpleLoggerMiddleware {}

impl SimpleLogger {
    pub fn new() -> (g: SimpleLogger) {
        SimpleLogger {}
    }

    pub fn new_transform(&self) -> (m: SimpleLoggerMiddleware) {
        SimpleLoggerMiddleware {}
    }
}

impl SimpleLoggerMiddleware {
    pub fn request_line(&self, ctx: &RequestContext) -> (line: String)
        ensures
            line@ == spec_request_line(ctx.path@),
    {
        let mut line = "Incoming request: \"".to_owned();
        line.append(ctx.path.as_str());
        line.append("\"");
        proof {
            assert(line@ =~= spec_request_line(ctx.path@));
        }
        line
    }

    pub fn response_line(&self, status: u16) -> (line: String)
        ensures
            line@ == spec_response_line(status),
    {
        let mut line = "Response status: ".to_owned();
        line.append(u64_to_string(status as u64).as_str());
        line
    }
}

} // verus!

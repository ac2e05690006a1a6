//! Audit records: one row per completed request, appended after the
//! downstream handler has produced its response, never mutated or deleted.

use vstd::prelude::*;

use crate::text::{decimal_digits, u64_to_string};

verus! {

/// One persisted usage record. `request_time` is seconds since the epoch;
/// `status_code` is the response status the downstream handler produced.
pub struct ApiUsage {
    pub id: i32,
    pub user_id: i32,
    pub api_key: String,
    pub request_path: String,
    pub request_method: String,
    pub request_time: u64,
    pub request_ip: String,
    pub status_code: i32,
}

/// A usage record as handed back to callers, with the timestamp rendered as
/// text.
pub struct ApiUsageResponse {
    pub id: i32,
    pub user_id: i32,
    pub api_key: String,
    pub request_path: String,
    pub request_method: String,
    pub request_time: String,
    pub request_ip: String,
    pub status_code: i32,
}

/// Whether a response row carries exactly the facts of a stored record,
/// with the timestamp rendered in decimal seconds.
pub open spec fn response_matches_usage(r: ApiUsageResponse, u: ApiUsage) -> bool {
    &&& r.id == u.id
    &&& r.user_id == u.user_id
    &&& r.api_key@ == u.api_key@
    &&& r.request_path@ == u.request_path@
    &&& r.request_method@ == u.request_method@
    &&& r.request_time@ == decimal_digits(u.request_time as nat)
    &&& r.request_ip@ == u.request_ip@
    &&& r.status_code == u.status_code
}

impl ApiUsage {
    /// The caller-facing form of this record.
    pub fn to_response(&self) -> (r: ApiUsageResponse)
        ensures
            response_matches_usage(r, *self),
    {
        ApiUsageResponse {
            id: self.id,
            user_id: self.user_id,
            api_key: self.api_key.clone(),
            request_path: self.request_path.clone(),
            request_method: self.request_method.clone(),
            request_time: u64_to_string(self.request_time),
            request_ip: self.request_ip.clone(),
            status_code: self.status_code,
        }
    }
}

/// The caller-facing rows for a batch of records, in the order given.
pub fn usage_responses(records: &Vec<ApiUsage>) -> (out: Vec<ApiUsageResponse>)
    ensures
        out@.len() == records@.len(),
        forall|i: int|
            0 <= i < records@.len() ==> response_matches_usage(out@[i], records@[i]),
{
    let mut out: Vec<ApiUsageResponse> = Vec::new();
    let mut i: usize = 0;
    while i < records.len()
        invariant
            0 <= i <= records@.len(),
            out@.len() == i,
            forall|j: int| 0 <= j < i ==> response_matches_usage(out@[j], records@[j]),
        decreases records@.len() - i,
    {
        out.push(records[i].to_response());
        i = i + 1;
    }
    out
}

} // verus!

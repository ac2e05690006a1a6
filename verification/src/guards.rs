//! The guards: each inspects one request against the state it consults, may
//! enrich the request context, and may short-circuit the chain with a
//! rejection. Factories (`new_transform`) bind configuration; the middleware
//! values do the per-request work.

use vstd::prelude::*;

use crate::context::RequestContext;
use crate::counter::{spec_live_count, AdmitDecision, CounterStore};
use crate::identity::{spec_identity_of, spec_role_satisfies, spec_role_of_permission, Identity,
    Role};
use crate::outcome::Rejection;
use crate::store::{first_user_with_id, first_user_with_key, user_has_key, IdentityStore};
use crate::text::{all_digits, decimal_value, parse_id};
use crate::token::{decoded_claims, validate_jwt, TokenCheck};

verus! {

/// Copies a secret so a factory can hand it to the middleware it builds.
fn clone_bytes(v: &Vec<u8>) -> (r: Vec<u8>)
    ensures
        r@ == v@,
{
    let r = v.clone();
    proof {
        assert(r@ =~= v@);
    }
    r
}

// ---------------------------------------------------------------------------
// Session guard
// ---------------------------------------------------------------------------

/// Whether a decoded subject claim denotes a subject id: a non-empty decimal
/// string whose value fits the id type.
pub open spec fn valid_subject(s: Seq<char>) -> bool {
    s.len() > 0 && all_digits(s) && decimal_value(s) <= i32::MAX
}

/// What the session guard concludes from the claims a presented token
/// decodes to (`None` for a token that fails signature verification): the
/// attested subject id, or the rejection. An expired token and a malformed
/// one yield the very same rejection — nothing in the outcome tells them
/// apart.
pub open spec fn spec_session_verdict(claims: Option<(Seq<char>, u64)>, now: u64) -> Result<
    int,
    Rejection,
> {
    match claims {
        None => Err(Rejection::Unauthenticated),
        Some(c) => if c.1 <= now {
            Err(Rejection::Unauthenticated)
        } else if valid_subject(c.0) {
            Ok(decimal_value(c.0) as int)
        } else {
            Err(Rejection::Unauthenticated)
        },
    }
}

/// Factory for the session guard; holds the verification secret as explicit
/// configuration.
pub struct JwtValidator {
    pub secret: Vec<u8>,
}

/// The session guard: validates the bearer token from the `Authorization`
/// header and attests the subject id into the request context.
pub struct JwtValidatorMiddleware {
    pub secret: Vec<u8>,
}

impl JwtValidator {
    pub fn new(secret: Vec<u8>) -> (g: JwtValidator)
        ensures
            g.secret == secret,
    {
        JwtValidator { secret }
    }

    pub fn new_transform(&self) -> (m: JwtValidatorMiddleware)
        ensures
            m.secret@ == self.secret@,
    {
        JwtValidatorMiddleware { secret: clone_bytes(&self.secret) }
    }
}

impl JwtValidatorMiddleware {
    /// Validates the presented token and writes the attested subject id into
    /// `ctx.identity` (the role stays at the unprivileged default — only the
    /// subject id is cryptographically attested; a later guard re-reads the
    /// role from the store). Rejects `Unauthenticated` when the header is
    /// absent or verification fails — for a bad signature, a malformed token
    /// and an expired one alike. A pure, synchronous check: no store is
    /// consulted and no retry is made.
    pub fn handle(&self, ctx: &mut RequestContext, now: u64) -> (r: Result<(), Rejection>)
        ensures
            final(ctx).source_address == old(ctx).source_address,
            final(ctx).path == old(ctx).path,
            final(ctx).method == old(ctx).method,
            final(ctx).presented_api_key == old(ctx).presented_api_key,
            final(ctx).presented_token == old(ctx).presented_token,
            final(ctx).received_at == old(ctx).received_at,
            old(ctx).presented_token is None ==> r == Err::<(), Rejection>(
                Rejection::Unauthenticated,
            ) && final(ctx).identity == old(ctx).identity,
            old(ctx).presented_token matches Some(tok) ==> match spec_session_verdict(
                decoded_claims(tok@, self.secret@),
                now,
            ) {
                Err(rej) => r == Err::<(), Rejection>(rej) && final(ctx).identity == old(
                    ctx,
                ).identity,
                Ok(subject) => r is Ok && final(ctx).identity == Some(
                    Identity { id: subject as i32, role: Role::User, api_key: None },
                ),
            },
    {
        let token = match &ctx.presented_token {
            Some(t) => t,
            None => {
                return Err(Rejection::Unauthenticated);
            },
        };
        match validate_jwt(token.as_str(), self.secret.as_slice(), now) {
            TokenCheck::Valid(sub) => {
                match parse_id(sub.as_str()) {
                    Some(id) => {
                        ctx.identity = Some(Identity { id, role: Role::User, api_key: None });
                        Ok(())
                    },
                    None => Err(Rejection::Unauthenticated),
                }
            },
            TokenCheck::Expired => Err(Rejection::Unauthenticated),
            TokenCheck::Malformed => Err(Rejection::Unauthenticated),
        }
    }
}

/// A syntactically valid but expired session token is rejected identically
/// to a malformed one: the same verdict, carrying the same rejection, with
/// nothing left in the outcome to distinguish the two causes.
pub proof fn lemma_expired_rejected_like_malformed(
    expired: Option<(Seq<char>, u64)>,
    now: u64,
)
    requires
        expired matches Some(c) && c.1 <= now,
    ensures
        spec_session_verdict(expired, now) == spec_session_verdict(None, now),
        spec_session_verdict(expired, now) == Err::<int, Rejection>(Rejection::Unauthenticated),
{
}

// ---------------------------------------------------------------------------
// API key guard
// ---------------------------------------------------------------------------

/// Whether the API key guard rejects: no key presented, store unreachable,
/// or no record carrying the key. A store miss and a store error are
/// deliberately indistinguishable — both reject `Unauthenticated`, so a
/// caller learns nothing about store health or key validity.
pub open spec fn spec_api_key_rejects(store: IdentityStore, key: Option<String>) -> bool {
    match key {
        None => true,
        Some(k) => !store.healthy || first_user_with_key(store.users@, k@) is None,
    }
}

/// Factory for the API key guard (the store connection it drives is handed
/// in per request).
pub struct ApiKeyValidator {}

/// The API key guard: matches the `x-api-key` header against the identity
/// store and attaches the matching identity.
pub struct ApiKeyValidatorMiddleware {}

impl ApiKeyValidator {
    pub fn new() -> (g: ApiKeyValidator) {
        ApiKeyValidator {}
    }

    pub fn new_transform(&self) -> (m: ApiKeyValidatorMiddleware) {
        ApiKeyValidatorMiddleware {}
    }
}

impl ApiKeyValidatorMiddleware {
    /// Resolves the presented API key against the store. A missing header is
    /// rejected `Unauthenticated` at once — the store is not consulted, so
    /// the outcome cannot depend on it. A hit attaches that record's
    /// identity; a miss and a store error are rejected identically. Exactly
    /// one store round-trip per request, and nothing cached across requests:
    /// a revoked key takes effect on the very next request.
    pub fn handle(&self, ctx: &mut RequestContext, store: &IdentityStore) -> (r: Result<
        (),
        Rejection,
    >)
        ensures
            final(ctx).source_address == old(ctx).source_address,
            final(ctx).path == old(ctx).path,
            final(ctx).method == old(ctx).method,
            final(ctx).presented_api_key == old(ctx).presented_api_key,
            final(ctx).presented_token == old(ctx).presented_token,
            final(ctx).received_at == old(ctx).received_at,
            r is Err <==> spec_api_key_rejects(*store, old(ctx).presented_api_key),
            r is Err ==> r == Err::<(), Rejection>(Rejection::Unauthenticated)
                && final(ctx).identity == old(ctx).identity,
            r is Ok ==> (old(ctx).presented_api_key matches Some(k) && (first_user_with_key(
                store.users@,
                k@,
            ) matches Some(u) && final(ctx).identity == Some(spec_identity_of(u)))),
    {
        let key = match &ctx.presented_api_key {
            Some(k) => k,
            None => {
                return Err(Rejection::Unauthenticated);
            },
        };
        match store.find_by_api_key(key.as_str()) {
            Ok(Some(i)) => {
                ctx.identity = Some(store.users[i].to_identity());
                Ok(())
            },
            Ok(None) => Err(Rejection::Unauthenticated),
            Err(_) => Err(Rejection::Unauthenticated),
        }
    }
}

/// For an API key that matches exactly one stored record, the guard resolves
/// exactly that record: any match is the match, so every lookup with the
/// same store and key populates the same identity.
pub proof fn lemma_api_key_resolves_unique_match(store: IdentityStore, key: Seq<char>, j: int)
    requires
        store.wf(),
        0 <= j < store.users@.len(),
        user_has_key(store.users@[j], key),
    ensures
        first_user_with_key(store.users@, key) == Some(store.users@[j]),
{
    assert forall|i: int| 0 <= i < j implies !user_has_key(store.users@[i], key) by {
        assert(store.users@[i].api_key is Some && store.users@[j].api_key is Some
            ==> match (store.users@[i].api_key, store.users@[j].api_key) {
            (Some(a), Some(b)) => a@ != b@,
            _ => true,
        });
    }
    crate::store::lemma_first_key_at(store.users@, key, j);
}

/// A request presenting no API key is rejected before any lookup: the
/// verdict is the same whatever the store holds and whether it is reachable
/// at all.
pub proof fn lemma_missing_key_rejected_without_lookup(s1: IdentityStore, s2: IdentityStore)
    ensures
        spec_api_key_rejects(s1, None),
        spec_api_key_rejects(s2, None),
{
}

// ---------------------------------------------------------------------------
// Role guard
// ---------------------------------------------------------------------------

/// What the role guard concludes: `Unauthenticated` when no identity was
/// established earlier (a configuration error, never silently allowed), when
/// the store is unreachable, or when the record has vanished;
/// `Unauthorized` when the record's current role does not satisfy the
/// required one; admission otherwise. The verdict reads only the subject id
/// from the request identity — the role is re-read from the store, so a
/// permission change is honored on the identity's very next request.
pub open spec fn spec_role_verdict(
    store: IdentityStore,
    identity: Option<Identity>,
    required: Role,
) -> Result<(), Rejection> {
    match identity {
        None => Err(Rejection::Unauthenticated),
        Some(ident) => if !store.healthy {
            Err(Rejection::Unauthenticated)
        } else {
            match first_user_with_id(store.users@, ident.id) {
                None => Err(Rejection::Unauthenticated),
                Some(u) => if spec_role_satisfies(
                    spec_role_of_permission(u.permission),
                    required,
                ) {
                    Ok(())
                } else {
                    Err(Rejection::Unauthorized)
                },
            }
        },
    }
}

/// Factory for the role guard.
pub struct AdminValidator {
    pub required: Role,
}

/// The role guard: checks the established identity's current stored role
/// against the route's required tier.
pub struct AdminValidatorMiddleware {
    pub required: Role,
}

impl AdminValidator {
    /// A role guard for the privileged tier, the one tier any route demands.
    pub fn new() -> (g: AdminValidator)
        ensures
            g.required == Role::Admin,
    {
        AdminValidator { required: Role::Admin }
    }

    pub fn new_transform(&self) -> (m: AdminValidatorMiddleware)
        ensures
            m.required == self.required,
    {
        AdminValidatorMiddleware { required: self.required }
    }
}

impl AdminValidatorMiddleware {
    /// Re-reads the identity's record from the store — a deliberate second
    /// round-trip keyed by id, never trusting a role cached earlier in the
    /// context — and admits exactly when the current role satisfies the
    /// required tier.
    pub fn handle(&self, ctx: &RequestContext, store: &IdentityStore) -> (r: Result<(), Rejection>)
        ensures
            r == spec_role_verdict(*store, ctx.identity, self.required),
    {
        let ident = match &ctx.identity {
            Some(ident) => ident,
            None => {
                return Err(Rejection::Unauthenticated);
            },
        };
        match store.find_by_id(ident.id) {
            Ok(Some(i)) => {
                let held = crate::identity::role_of_permission(store.users[i].permission);
                if crate::identity::role_satisfies(held, self.required) {
                    Ok(())
                } else {
                    Err(Rejection::Unauthorized)
                }
            },
            Ok(None) => Err(Rejection::Unauthenticated),
            Err(_) => Err(Rejection::Unauthenticated),
        }
    }
}

/// The role check is fresh: its verdict is a function of the store's current
/// record for the subject id alone. Two identities with the same id — say,
/// one resolved before a permission change and one after — get the very same
/// verdict, and a stored permission change is reflected immediately.
pub proof fn lemma_role_check_reads_current_role(
    store: IdentityStore,
    ident1: Identity,
    ident2: Identity,
    required: Role,
)
    requires
        ident1.id == ident2.id,
    ensures
        spec_role_verdict(store, Some(ident1), required) == spec_role_verdict(
            store,
            Some(ident2),
            required,
        ),
{
}

// ---------------------------------------------------------------------------
// Rate limiter
// ---------------------------------------------------------------------------

/// The counter key a request is throttled under: derived from the source
/// address (identity-based quotas are an extension point, not the default).
pub open spec fn spec_counter_key(source_address: Seq<char>) -> Seq<char> {
    "rate_limiter:"@ + source_address
}

/// Factory for the rate limiter, configured with the quota and window.
pub struct RateLimiter {
    pub max_requests: u32,
    pub window_secs: u64,
}

/// The rate limiter: one atomic check-and-increment against the counter
/// store per request.
pub struct RateLimiterMiddleware {
    pub max_requests: u32,
    pub window_secs: u64,
}

impl RateLimiter {
    pub fn new(max_requests: u32, window_secs: u64) -> (g: RateLimiter)
        ensures
            g.max_requests == max_requests,
            g.window_secs == window_secs,
    {
        RateLimiter { max_requests, window_secs }
    }

    pub fn new_transform(&self) -> (m: RateLimiterMiddleware)
        ensures
            m.max_requests == self.max_requests,
            m.window_secs == self.window_secs,
    {
        RateLimiterMiddleware { max_requests: self.max_requests, window_secs: self.window_secs }
    }
}

impl RateLimiterMiddleware {
    /// The counter key for this request.
    pub fn counter_key(&self, ctx: &RequestContext) -> (k: String)
        ensures
            k@ == spec_counter_key(ctx.source_address@),
    {
        let mut k = "rate_limiter:".to_owned();
        k.append(ctx.source_address.as_str());
        k
    }

    /// Admits the request exactly when the live count for the source
    /// address is under the quota, counting it and re-arming the window (a
    /// fixed re-arming window: a burst at a window boundary can admit up to
    /// twice the quota across the boundary — documented behavior, kept).
    /// Rejects `RateLimited`, counting nothing, when the quota is exhausted,
    /// and fails closed with `ServiceUnavailable`, never silently admitting,
    /// when the counter store is unreachable.
    pub fn handle(&self, ctx: &RequestContext, counters: &mut CounterStore, now: u64) -> (r: Result<
        (),
        Rejection,
    >)
        requires
            old(counters).wf(),
            1 <= self.window_secs,
            now + self.window_secs <= u64::MAX,
        ensures
            final(counters).wf(),
            final(counters).healthy == old(counters).healthy,
            !old(counters).healthy ==> r == Err::<(), Rejection>(Rejection::ServiceUnavailable)
                && final(counters).entries@ == old(counters).entries@,
            old(counters).healthy ==> {
                let key = spec_counter_key(ctx.source_address@);
                let live = spec_live_count(old(counters).entries@, key, now);
                if live >= self.max_requests {
                    r == Err::<(), Rejection>(
                        Rejection::RateLimited {
                            limit: self.max_requests,
                            window_secs: self.window_secs,
                        },
                    ) && final(counters).entries@ == old(counters).entries@
                } else {
                    r is Ok && spec_live_count(final(counters).entries@, key, now) == live + 1
                        && (crate::counter::find_counter(
                        final(counters).entries@,
                        key,
                    ) matches Some(e) && e.count == live + 1 && e.expires_at == now
                        + self.window_secs) && (forall|k2: Seq<char>|
                        k2 != key ==> #[trigger] crate::counter::find_counter(
                            final(counters).entries@,
                            k2,
                        ) == crate::counter::find_counter(old(counters).entries@, k2))
                }
            },
    {
        let key = self.counter_key(ctx);
        match counters.try_admit(key.as_str(), self.max_requests, self.window_secs, now) {
            AdmitDecision::Admitted(_) => Ok(()),
            AdmitDecision::Limited => Err(
                Rejection::RateLimited {
                    limit: self.max_requests,
                    window_secs: self.window_secs,
                },
            ),
            AdmitDecision::Unavailable => Err(Rejection::ServiceUnavailable),
        }
    }
}

} // verus!

//! The pipeline composer: folds an ordered list of guards around a terminal
//! handler and drives one request through the chain. A rejection from any
//! guard stops the chain at once — no later guard and no handler observes
//! the request — and a wrapping stage (the audit logger, the simple logger)
//! post-processes the downstream result. The whole run is specified by a
//! chain interpreter over the stores' mathematical views, and the executable
//! composer is proved to follow it exactly.

use vstd::prelude::*;

use crate::audit::ApiUsage;
use crate::context::RequestContext;
use crate::counter::{find_counter, CounterEntry, CounterStore};
use crate::guards::{spec_counter_key, spec_role_verdict, spec_session_verdict,
    AdminValidatorMiddleware, ApiKeyValidatorMiddleware, JwtValidatorMiddleware,
    RateLimiterMiddleware};
use crate::identity::{spec_identity_of, Identity, Role};
use crate::logging::{spec_request_line, spec_response_line, ApiUsageLoggerMiddleware,
    SimpleLoggerMiddleware};
use crate::outcome::{spec_status_of, Rejection};
use crate::store::{first_user_with_key, IdentityStore};
use crate::token::decoded_claims;

verus! {

/// One stage of a configured chain.
pub enum Guard {
    RateLimit(RateLimiterMiddleware),
    ApiKey(ApiKeyValidatorMiddleware),
    Session(JwtValidatorMiddleware),
    RoleCheck(AdminValidatorMiddleware),
    Audit(ApiUsageLoggerMiddleware),
    Log(SimpleLoggerMiddleware),
}

/// What a request presents, as the guards read it: everything in the
/// context except the identity field the chain itself fills in.
#[verifier::ext_equal]
pub ghost struct RequestFacts {
    pub source_address: Seq<char>,
    pub path: Seq<char>,
    pub method: Seq<char>,
    pub presented_api_key: Option<Seq<char>>,
    pub presented_token: Option<Seq<char>>,
}

/// The immutable facts of a context.
pub open spec fn facts_of(ctx: RequestContext) -> RequestFacts {
    RequestFacts {
        source_address: ctx.source_address@,
        path: ctx.path@,
        method: ctx.method@,
        presented_api_key: match ctx.presented_api_key {
            Some(k) => Some(k@),
            None => None,
        },
        presented_token: match ctx.presented_token {
            Some(t) => Some(t@),
            None => None,
        },
    }
}

/// The counter store's contents as a map from key to (count, expiry). Where
/// a key occurred twice the earlier entry would win, as in `find_counter`;
/// a well-formed store has no duplicate anyway.
pub open spec fn counters_map(entries: Seq<CounterEntry>) -> Map<Seq<char>, (u32, u64)>
    decreases entries.len(),
{
    if entries.len() == 0 {
        Map::empty()
    } else {
        counters_map(entries.drop_first()).insert(
            entries[0].key@,
            (entries[0].count, entries[0].expires_at),
        )
    }
}

proof fn lemma_map_matches_find(entries: Seq<CounterEntry>, k: Seq<char>)
    ensures
        match find_counter(entries, k) {
            Some(e) => counters_map(entries).contains_key(k) && counters_map(entries)[k] == (
                e.count,
                e.expires_at,
            ) && e.key@ == k,
            None => !counters_map(entries).contains_key(k),
        },
    decreases entries.len(),
{
    if entries.len() > 0 {
        lemma_map_matches_find(entries.drop_first(), k);
    }
}

proof fn lemma_counters_map_insert(
    old_e: Seq<CounterEntry>,
    new_e: Seq<CounterEntry>,
    key: Seq<char>,
    count: u32,
    exp: u64,
)
    requires
        find_counter(new_e, key) matches Some(e) && e.count == count && e.expires_at == exp,
        forall|k2: Seq<char>|
            k2 != key ==> #[trigger] find_counter(new_e, k2) == find_counter(old_e, k2),
    ensures
        counters_map(new_e) == counters_map(old_e).insert(key, (count, exp)),
{
    let m1 = counters_map(new_e);
    let m2 = counters_map(old_e).insert(key, (count, exp));
    assert forall|k: Seq<char>|
        #![trigger m1.contains_key(k), m2.contains_key(k)]
        true implies (m1.contains_key(k) == m2.contains_key(k)) && (m1.contains_key(k) ==> m1[k]
        == m2[k]) by {
        lemma_map_matches_find(new_e, k);
        lemma_map_matches_find(old_e, k);
    }
    assert(m1 =~= m2);
}

/// The audit table abstracted to what the chain promises about it: one
/// (subject id, response status, timestamp) triple per record, in order.
pub open spec fn audit_trail(audit: Seq<ApiUsage>) -> Seq<(i32, i32, u64)> {
    audit.map_values(|a: ApiUsage| (a.user_id, a.status_code, a.request_time))
}

/// The console log abstracted to its lines.
pub open spec fn log_view(log: Seq<String>) -> Seq<Seq<char>> {
    log.map_values(|s: String| s@)
}

/// Everything a chain run can change, as mathematical values: the identity
/// attached to the request, the counters, the audit trail, and the console
/// log.
#[verifier::ext_equal]
pub ghost struct ChainState {
    pub identity: Option<Identity>,
    pub counters: Map<Seq<char>, (u32, u64)>,
    pub audit: Seq<(i32, i32, u64)>,
    pub log: Seq<Seq<char>>,
}

/// The mutable chain state a request currently sees.
pub open spec fn state_of(
    ctx: RequestContext,
    ids: IdentityStore,
    counters: CounterStore,
    log: Seq<String>,
) -> ChainState {
    ChainState {
        identity: ctx.identity,
        counters: counters_map(counters.entries@),
        audit: audit_trail(ids.audit@),
        log: log_view(log),
    }
}

/// The live count a counter map reports for `key` at `now`.
pub open spec fn map_live_count(m: Map<Seq<char>, (u32, u64)>, key: Seq<char>, now: u64) -> nat {
    if m.contains_key(key) && m[key].1 > now {
        m[key].0 as nat
    } else {
        0
    }
}

/// Whether the audit logger can resolve a record to write, over the facts.
pub open spec fn spec_can_log_facts(ids: IdentityStore, key: Option<Seq<char>>) -> bool {
    match key {
        None => false,
        Some(k) => ids.healthy && first_user_with_key(ids.users@, k) is Some,
    }
}

/// What one non-wrapping guard does: the rejection it short-circuits with,
/// if any, and the state it leaves. Wrapping guards answer `None` here; what
/// they do around the downstream result is in `spec_run_chain`.
pub open spec fn spec_pre_step(
    g: Guard,
    facts: RequestFacts,
    st: ChainState,
    ids: IdentityStore,
    counters_healthy: bool,
    now: u64,
) -> (Option<Rejection>, ChainState) {
    match g {
        Guard::RateLimit(m) => {
            if !counters_healthy {
                (Some(Rejection::ServiceUnavailable), st)
            } else {
                let key = spec_counter_key(facts.source_address);
                let live = map_live_count(st.counters, key, now);
                if live >= m.max_requests {
                    (
                        Some(
                            Rejection::RateLimited {
                                limit: m.max_requests,
                                window_secs: m.window_secs,
                            },
                        ),
                        st,
                    )
                } else {
                    (
                        None,
                        ChainState {
                            counters: st.counters.insert(
                                key,
                                ((live + 1) as u32, (now + m.window_secs) as u64),
                            ),
                            ..st
                        },
                    )
                }
            }
        },
        Guard::ApiKey(_) => {
            match facts.presented_api_key {
                None => (Some(Rejection::Unauthenticated), st),
                Some(k) => {
                    if !ids.healthy {
                        (Some(Rejection::Unauthenticated), st)
                    } else {
                        match first_user_with_key(ids.users@, k) {
                            None => (Some(Rejection::Unauthenticated), st),
                            Some(u) => (
                                None,
                                ChainState { identity: Some(spec_identity_of(u)), ..st },
                            ),
                        }
                    }
                },
            }
        },
        Guard::Session(m) => {
            match facts.presented_token {
                None => (Some(Rejection::Unauthenticated), st),
                Some(t) => {
                    match spec_session_verdict(decoded_claims(t, m.secret@), now) {
                        Err(rej) => (Some(rej), st),
                        Ok(subject) => (
                            None,
                            ChainState {
                                identity: Some(
                                    Identity { id: subject as i32, role: Role::User, api_key: None },
                                ),
                                ..st
                            },
                        ),
                    }
                },
            }
        },
        Guard::RoleCheck(m) => {
            match spec_role_verdict(ids, st.identity, m.required) {
                Ok(u) => (None, st),
                Err(rej) => (Some(rej), st),
            }
        },
        Guard::Audit(_) => (None, st),
        Guard::Log(_) => (None, st),
    }
}

/// The chain interpreter: what running `guards` around a terminal handler
/// that would answer `handler_status` yields, and the state it leaves.
/// `Err(rej)` means some guard rejected — the request never reached the
/// handler; `Ok(status)` means it did.
pub open spec fn spec_run_chain(
    guards: Seq<Guard>,
    facts: RequestFacts,
    st: ChainState,
    ids: IdentityStore,
    counters_healthy: bool,
    now: u64,
    handler_status: u16,
) -> (Result<u16, Rejection>, ChainState)
    decreases guards.len(),
{
    if guards.len() == 0 {
        (Ok(handler_status), st)
    } else {
        match guards[0] {
            Guard::Audit(_) => {
                let (r, st1) = spec_run_chain(
                    guards.drop_first(),
                    facts,
                    st,
                    ids,
                    counters_healthy,
                    now,
                    handler_status,
                );
                match r {
                    Ok(status) => {
                        if spec_can_log_facts(ids, facts.presented_api_key) {
                            let owner = first_user_with_key(ids.users@, facts.presented_api_key->0);
                            (
                                r,
                                ChainState {
                                    audit: st1.audit.push((owner->0.id, status as i32, now)),
                                    ..st1
                                },
                            )
                        } else {
                            (r, st1)
                        }
                    },
                    Err(_) => (r, st1),
                }
            },
            Guard::Log(_) => {
                let st1 = ChainState { log: st.log.push(spec_request_line(facts.path)), ..st };
                let (r, st2) = spec_run_chain(
                    guards.drop_first(),
                    facts,
                    st1,
                    ids,
                    counters_healthy,
                    now,
                    handler_status,
                );
                match r {
                    Ok(status) => (
                        r,
                        ChainState { log: st2.log.push(spec_response_line(status)), ..st2 },
                    ),
                    Err(_) => (r, st2),
                }
            },
            g => {
                let (rej, st1) = spec_pre_step(g, facts, st, ids, counters_healthy, now);
                match rej {
                    Some(rej) => (Err(rej), st1),
                    None => spec_run_chain(
                        guards.drop_first(),
                        facts,
                        st1,
                        ids,
                        counters_healthy,
                        now,
                        handler_status,
                    ),
                }
            },
        }
    }
}

/// The configuration every run relies on: each rate limiter has a window of
/// at least a second that cannot overflow the clock.
pub open spec fn chain_config_ok(guards: Seq<Guard>, now: u64) -> bool {
    forall|i: int|
        0 <= i < guards.len() ==> match #[trigger] guards[i] {
            Guard::RateLimit(m) => 1 <= m.window_secs && now + m.window_secs <= u64::MAX,
            _ => true,
        }
}

/// Runs the stages `guards[i..]` around a terminal handler that would answer
/// `handler_status`, exactly as the chain interpreter says: the same verdict
/// and the same identity, counters, audit trail and log.
pub fn run_chain(
    guards: &Vec<Guard>,
    i: usize,
    ctx: &mut RequestContext,
    ids: &mut IdentityStore,
    counters: &mut CounterStore,
    log: &mut Vec<String>,
    now: u64,
    handler_status: u16,
) -> (r: Result<u16, Rejection>)
    requires
        i <= guards@.len(),
        old(ids).wf(),
        old(counters).wf(),
        old(ids).audit@.len() + guards@.len() <= i32::MAX,
        chain_config_ok(guards@, now),
    ensures
        final(ids).wf(),
        final(counters).wf(),
        final(ids).users == old(ids).users,
        final(ids).healthy == old(ids).healthy,
        final(ids).next_id == old(ids).next_id,
        final(counters).healthy == old(counters).healthy,
        final(ids).audit@.len() <= old(ids).audit@.len() + (guards@.len() - i),
        final(ctx).source_address == old(ctx).source_address,
        final(ctx).path == old(ctx).path,
        final(ctx).method == old(ctx).method,
        final(ctx).presented_api_key == old(ctx).presented_api_key,
        final(ctx).presented_token == old(ctx).presented_token,
        final(ctx).received_at == old(ctx).received_at,
        ({
            let (vr, vst) = spec_run_chain(
                guards@.skip(i as int),
                facts_of(*old(ctx)),
                state_of(*old(ctx), *old(ids), *old(counters), old(log)@),
                *old(ids),
                old(counters).healthy,
                now,
                handler_status,
            );
            r == vr && state_of(*final(ctx), *final(ids), *final(counters), final(log)@) == vst
        }),
    decreases guards@.len() - i,
{
    proof {
        assert(guards@.skip(i as int).len() == guards@.len() - i);
    }
    if i == guards.len() {
        return Ok(handler_status);
    }
    let ghost rest = guards@.skip(i as int);
    proof {
        assert(rest[0] == guards@[i as int]);
        assert(rest.drop_first() =~= guards@.skip(i as int + 1));
    }
    let ghost st0 = state_of(*ctx, *ids, *counters, log@);
    let ghost facts = facts_of(*ctx);
    match &guards[i] {
        Guard::RateLimit(m) => {
            let ghost pre = *counters;
            match m.handle(ctx, counters, now) {
                Ok(u) => {
                    proof {
                        let key = spec_counter_key(ctx.source_address@);
                        lemma_map_matches_find(pre.entries@, key);
                        let live = map_live_count(st0.counters, key, now);
                        let e = find_counter(counters.entries@, key)->0;
                        assert(e.count == live + 1 && e.expires_at == now + m.window_secs);
                        lemma_counters_map_insert(
                            pre.entries@,
                            counters.entries@,
                            key,
                            e.count,
                            e.expires_at,
                        );
                        assert(state_of(*ctx, *ids, *counters, log@) =~= spec_pre_step(
                            rest[0],
                            facts,
                            st0,
                            *ids,
                            pre.healthy,
                            now,
                        ).1);
                    }
                    run_chain(guards, i + 1, ctx, ids, counters, log, now, handler_status)
                },
                Err(rej) => {
                    proof {
                        let key = spec_counter_key(ctx.source_address@);
                        lemma_map_matches_find(pre.entries@, key);
                        assert(state_of(*ctx, *ids, *counters, log@) =~= st0);
                    }
                    Err(rej)
                },
            }
        },
        Guard::ApiKey(m) => {
            match m.handle(ctx, ids) {
                Ok(u) => {
                    proof {
                        assert(facts_of(*ctx) =~= facts);
                        assert(state_of(*ctx, *ids, *counters, log@) =~= spec_pre_step(
                            rest[0],
                            facts,
                            st0,
                            *ids,
                            counters.healthy,
                            now,
                        ).1);
                    }
                    run_chain(guards, i + 1, ctx, ids, counters, log, now, handler_status)
                },
                Err(rej) => {
                    proof {
                        assert(state_of(*ctx, *ids, *counters, log@) =~= st0);
                    }
                    Err(rej)
                },
            }
        },
        Guard::Session(m) => {
            match m.handle(ctx, now) {
                Ok(u) => {
                    proof {
                        assert(facts_of(*ctx) =~= facts);
                        assert(state_of(*ctx, *ids, *counters, log@) =~= spec_pre_step(
                            rest[0],
                            facts,
                            st0,
                            *ids,
                            counters.healthy,
                            now,
                        ).1);
                    }
                    run_chain(guards, i + 1, ctx, ids, counters, log, now, handler_status)
                },
                Err(rej) => {
                    proof {
                        assert(state_of(*ctx, *ids, *counters, log@) =~= st0);
                    }
                    Err(rej)
                },
            }
        },
        Guard::RoleCheck(m) => {
            match m.handle(ctx, ids) {
                Ok(u) => {
                    run_chain(guards, i + 1, ctx, ids, counters, log, now, handler_status)
                },
                Err(rej) => Err(rej),
            }
        },
        Guard::Audit(m) => {
            let ghost pre_ids = *ids;
            match run_chain(guards, i + 1, ctx, ids, counters, log, now, handler_status) {
                Ok(status) => {
                    let ghost mid_ids = *ids;
                    let r2 = m.handle(ctx, status, ids, now);
                    proof {
                        if spec_can_log_facts(pre_ids, facts.presented_api_key) {
                            assert(audit_trail(ids.audit@) =~= audit_trail(mid_ids.audit@).push(
                                (
                                    first_user_with_key(pre_ids.users@, facts.presented_api_key->0)
                                        ->0.id,
                                    status as i32,
                                    now,
                                ),
                            ));
                        } else {
                            assert(audit_trail(ids.audit@) =~= audit_trail(mid_ids.audit@));
                        }
                        assert(state_of(*ctx, *ids, *counters, log@) =~= spec_run_chain(
                            rest,
                            facts,
                            st0,
                            pre_ids,
                            old(counters).healthy,
                            now,
                            handler_status,
                        ).1);
                    }
                    Ok(r2)
                },
                Err(rej) => Err(rej),
            }
        },
        Guard::Log(m) => {
            log.push(m.request_line(ctx));
            proof {
                assert(log_view(log@) =~= st0.log.push(spec_request_line(ctx.path@)));
                assert(state_of(*ctx, *ids, *counters, log@) =~= (ChainState {
                    log: st0.log.push(spec_request_line(facts.path)),
                    ..st0
                }));
            }
            match run_chain(guards, i + 1, ctx, ids, counters, log, now, handler_status) {
                Ok(status) => {
                    let ghost mid_log = log@;
                    log.push(m.response_line(status));
                    proof {
                        assert(log_view(log@) =~= log_view(mid_log).push(
                            spec_response_line(status),
                        ));
                        assert(state_of(*ctx, *ids, *counters, log@) =~= spec_run_chain(
                            rest,
                            facts,
                            st0,
                            *old(ids),
                            old(counters).healthy,
                            now,
                            handler_status,
                        ).1);
                    }
                    Ok(status)
                },
                Err(rej) => Err(rej),
            }
        },
    }
}

/// Drives one request through a configured chain and maps the verdict to the
/// HTTP status sent upstream: the handler's own status when every guard
/// delegated, the rejection's status otherwise.
pub fn dispatch(
    guards: &Vec<Guard>,
    ctx: &mut RequestContext,
    ids: &mut IdentityStore,
    counters: &mut CounterStore,
    log: &mut Vec<String>,
    now: u64,
    handler_status: u16,
) -> (status: u16)
    requires
        old(ids).wf(),
        old(counters).wf(),
        old(ids).audit@.len() + guards@.len() <= i32::MAX,
        chain_config_ok(guards@, now),
    ensures
        final(ids).wf(),
        final(counters).wf(),
        final(ids).users == old(ids).users,
        final(ids).healthy == old(ids).healthy,
        final(counters).healthy == old(counters).healthy,
        ({
            let (vr, vst) = spec_run_chain(
                guards@,
                facts_of(*old(ctx)),
                state_of(*old(ctx), *old(ids), *old(counters), old(log)@),
                *old(ids),
                old(counters).healthy,
                now,
                handler_status,
            );
            &&& status == (match vr {
                Ok(s) => s,
                Err(rej) => spec_status_of(rej),
            })
            &&& state_of(*final(ctx), *final(ids), *final(counters), final(log)@) == vst
        }),
{
    proof {
        assert(guards@.skip(0) =~= guards@);
    }
    match run_chain(guards, 0, ctx, ids, counters, log, now, handler_status) {
        Ok(s) => s,
        Err(rej) => rej.status_code(),
    }
}

/// Rejection stops the chain: when a run rejects, its verdict and every
/// state effect are the same whatever the terminal handler would have
/// answered — no downstream stage and no handler observes the request.
pub proof fn lemma_rejection_short_circuits(
    guards: Seq<Guard>,
    facts: RequestFacts,
    st: ChainState,
    ids: IdentityStore,
    counters_healthy: bool,
    now: u64,
    h1: u16,
    h2: u16,
)
    requires
        spec_run_chain(guards, facts, st, ids, counters_healthy, now, h1).0 is Err,
    ensures
        spec_run_chain(guards, facts, st, ids, counters_healthy, now, h1) == spec_run_chain(
            guards,
            facts,
            st,
            ids,
            counters_healthy,
            now,
            h2,
        ),
    decreases guards.len(),
{
    if guards.len() > 0 {
        match guards[0] {
            Guard::Audit(_) => {
                lemma_rejection_short_circuits(
                    guards.drop_first(),
                    facts,
                    st,
                    ids,
                    counters_healthy,
                    now,
                    h1,
                    h2,
                );
            },
            Guard::Log(_) => {
                let st1 = ChainState { log: st.log.push(spec_request_line(facts.path)), ..st };
                lemma_rejection_short_circuits(
                    guards.drop_first(),
                    facts,
                    st1,
                    ids,
                    counters_healthy,
                    now,
                    h1,
                    h2,
                );
            },
            g => {
                let (rej, st1) = spec_pre_step(g, facts, st, ids, counters_healthy, now);
                if rej is None {
                    lemma_rejection_short_circuits(
                        guards.drop_first(),
                        facts,
                        st1,
                        ids,
                        counters_healthy,
                        now,
                        h1,
                        h2,
                    );
                }
            },
        }
    }
}

/// The chain fronting the programmatic API routes, outermost first: throttle,
/// then audit-log the completed request, then authenticate the API key. The
/// audit logger wraps the key guard, so only requests the key guard admitted
/// and the handler answered are logged.
pub fn api_chain(max_requests: u32, window_secs: u64) -> (guards: Vec<Guard>)
    ensures
        guards@.len() == 3,
        guards@[0] == Guard::RateLimit(RateLimiterMiddleware { max_requests, window_secs }),
        guards@[1] == Guard::Audit(ApiUsageLoggerMiddleware {}),
        guards@[2] == Guard::ApiKey(ApiKeyValidatorMiddleware {}),
{
    let mut guards: Vec<Guard> = Vec::new();
    guards.push(Guard::RateLimit(RateLimiterMiddleware { max_requests, window_secs }));
    guards.push(Guard::Audit(ApiUsageLoggerMiddleware {}));
    guards.push(Guard::ApiKey(ApiKeyValidatorMiddleware {}));
    guards
}

/// The chain fronting the admin dashboard routes: authenticate the session
/// token, then check the current stored role against the privileged tier.
/// The session guard runs first, as the role guard needs the identity it
/// attests.
pub fn admin_chain(secret: Vec<u8>) -> (guards: Vec<Guard>)
    ensures
        guards@.len() == 2,
        guards@[0] matches Guard::Session(m) && m.secret@ == secret@,
        guards@[1] == Guard::RoleCheck(AdminValidatorMiddleware { required: Role::Admin }),
{
    let mut guards: Vec<Guard> = Vec::new();
    guards.push(Guard::Session(JwtValidatorMiddleware { secret }));
    guards.push(Guard::RoleCheck(AdminValidatorMiddleware { required: Role::Admin }));
    guards
}

/// The chain fronting the non-admin dashboard routes: the session guard
/// alone.
pub fn dashboard_chain(secret: Vec<u8>) -> (guards: Vec<Guard>)
    ensures
        guards@.len() == 1,
        guards@[0] matches Guard::Session(m) && m.secret@ == secret@,
{
    let mut guards: Vec<Guard> = Vec::new();
    guards.push(Guard::Session(JwtValidatorMiddleware { secret }));
    guards
}

} // verus!

use api_gateway::auth::{login, register, LoginRequest, RegisterOutcome, RegisterRequest};
use api_gateway::context::RequestContext;
use api_gateway::counter::CounterStore;
use api_gateway::guards::{AdminValidator, ApiKeyValidator, JwtValidator};
use api_gateway::identity::{NewUser, Role, User};
use api_gateway::outcome::Rejection;
use api_gateway::pipeline::{admin_chain, api_chain, dashboard_chain, dispatch};
use api_gateway::store::{IdentityStore, PermissionChange};
use api_gateway::logging::{ApiUsageLogger, SimpleLogger};
use api_gateway::pipeline::Guard;
use api_gateway::token::{create_jwt, validate_jwt, TokenCheck};

const SECRET: &[u8] = b"secret";
const NOW: u64 = 1_700_000_000;

fn ctx(
    source: &str,
    path: &str,
    api_key: Option<&str>,
    token: Option<&str>,
) -> RequestContext {
    RequestContext::new(
        source.to_string(),
        path.to_string(),
        "GET".to_string(),
        api_key.map(|k| k.to_string()),
        token.map(|t| t.to_string()),
        NOW,
    )
}

fn store_with_user(id: i32, api_key: Option<&str>, permission: i16) -> IdentityStore {
    let mut store = IdentityStore::new();
    store.users.push(User {
        id,
        name: format!("user{id}"),
        email: format!("user{id}@example.com"),
        password_hash: "$argon2id$unused".to_string(),
        api_key: api_key.map(|k| k.to_string()),
        permission,
    });
    store.next_id = id + 1;
    store
}

#[test]
fn missing_credentials_rejected_unauthenticated_without_lookup() {
    // No API key and no token: the API chain rejects 401 even when the
    // identity store is unreachable, showing no lookup decides the outcome.
    for healthy in [true, false] {
        let mut ids = store_with_user(0, Some("key-1"), 0);
        ids.healthy = healthy;
        let mut counters = CounterStore::new();
        let mut log = Vec::new();
        let guards = api_chain(5, 60);
        let mut c = ctx("10.0.0.1", "/api/v1/get_random_number", None, None);
        let status = dispatch(&guards, &mut c, &mut ids, &mut counters, &mut log, NOW, 200);
        assert_eq!(status, 401);
        assert_eq!(ids.audit.len(), 0);
    }
    // The session chain rejects the same request with 401 as well.
    let mut ids = store_with_user(0, Some("key-1"), 0);
    let mut counters = CounterStore::new();
    let mut log = Vec::new();
    let guards = dashboard_chain(SECRET.to_vec());
    let mut c = ctx("10.0.0.1", "/dashboard", None, None);
    let status = dispatch(&guards, &mut c, &mut ids, &mut counters, &mut log, NOW, 200);
    assert_eq!(status, 401);
}

#[test]
fn api_key_guard_populates_matching_identity_deterministically() {
    let ids = store_with_user(0, Some("key-alpha"), 0);
    let guard = ApiKeyValidator::new().new_transform();
    for _ in 0..3 {
        let mut c = ctx("10.0.0.1", "/api", Some("key-alpha"), None);
        let r = guard.handle(&mut c, &ids);
        assert!(r.is_ok());
        let ident = c.identity.expect("identity populated");
        assert_eq!(ident.id, 0);
        assert_eq!(ident.api_key.as_deref(), Some("key-alpha"));
    }
    // An unknown key and an unreachable store are rejected identically.
    let mut c1 = ctx("10.0.0.1", "/api", Some("key-unknown"), None);
    let miss = guard.handle(&mut c1, &ids);
    let mut broken = store_with_user(0, Some("key-alpha"), 0);
    broken.healthy = false;
    let mut c2 = ctx("10.0.0.1", "/api", Some("key-alpha"), None);
    let fail = guard.handle(&mut c2, &broken);
    assert_eq!(miss, Err(Rejection::Unauthenticated));
    assert_eq!(fail, Err(Rejection::Unauthenticated));
    assert!(c1.identity.is_none() && c2.identity.is_none());
}

#[test]
fn six_rapid_requests_admit_exactly_five() {
    let mut ids = store_with_user(0, Some("key-1"), 0);
    let mut counters = CounterStore::new();
    let mut log = Vec::new();
    let guards = api_chain(5, 60);
    let mut statuses = Vec::new();
    for _ in 0..6 {
        let mut c = ctx("10.0.0.7", "/api/v1/get_random_number", Some("key-1"), None);
        statuses.push(dispatch(&guards, &mut c, &mut ids, &mut counters, &mut log, NOW, 200));
    }
    assert_eq!(statuses, vec![200, 200, 200, 200, 200, 429]);
    assert_eq!(ids.audit.len(), 5);
    // A different source address has its own counter.
    let mut c = ctx("10.0.0.8", "/api/v1/get_random_number", Some("key-1"), None);
    assert_eq!(dispatch(&guards, &mut c, &mut ids, &mut counters, &mut log, NOW, 200), 200);
}

#[test]
fn counter_restarts_after_window_elapses() {
    let mut counters = CounterStore::new();
    for _ in 0..5 {
        counters.try_admit("rate_limiter:10.0.0.9", 5, 60, NOW);
    }
    assert_eq!(counters.live_count("rate_limiter:10.0.0.9", NOW), Ok(5));
    assert!(matches!(
        counters.try_admit("rate_limiter:10.0.0.9", 5, 60, NOW),
        api_gateway::counter::AdmitDecision::Limited
    ));
    // The window re-arms from the last accepted request; once it elapses the
    // next request is admitted and the counter restarts at one.
    let later = NOW + 61;
    match counters.try_admit("rate_limiter:10.0.0.9", 5, 60, later) {
        api_gateway::counter::AdmitDecision::Admitted(n) => assert_eq!(n, 1),
        other => panic!("expected admission, got {other:?}"),
    }
    assert_eq!(counters.live_count("rate_limiter:10.0.0.9", later), Ok(1));
}

#[test]
fn rate_limiter_fails_closed_when_store_unreachable() {
    let mut ids = store_with_user(0, Some("key-1"), 0);
    let mut counters = CounterStore::new();
    counters.healthy = false;
    let mut log = Vec::new();
    let guards = api_chain(5, 60);
    let mut c = ctx("10.0.0.1", "/api", Some("key-1"), None);
    let status = dispatch(&guards, &mut c, &mut ids, &mut counters, &mut log, NOW, 200);
    assert_eq!(status, 503);
    assert_eq!(ids.audit.len(), 0);
}

#[test]
fn expired_token_rejected_identically_to_malformed() {
    let issued_at = NOW - 7200;
    let expired = create_jwt("1", SECRET, issued_at);
    assert!(matches!(validate_jwt(&expired, SECRET, NOW), TokenCheck::Expired));
    assert!(matches!(validate_jwt("not-a-token", SECRET, NOW), TokenCheck::Malformed));

    let guards = dashboard_chain(SECRET.to_vec());
    let mut outcomes = Vec::new();
    for token in [expired.as_str(), "not-a-token"] {
        let mut ids = store_with_user(1, None, 0);
        let mut counters = CounterStore::new();
        let mut log = Vec::new();
        let mut c = ctx("10.0.0.1", "/dashboard", None, Some(token));
        let status = dispatch(&guards, &mut c, &mut ids, &mut counters, &mut log, NOW, 200);
        outcomes.push((status, c.identity.is_none()));
    }
    // Both yield 401 with no identity attached: nothing distinguishes them.
    assert_eq!(outcomes[0], outcomes[1]);
    assert_eq!(outcomes[0], (401, true));
}

#[test]
fn fresh_token_admits_and_attests_subject() {
    let token = create_jwt("1", SECRET, NOW);
    assert!(matches!(validate_jwt(&token, SECRET, NOW), TokenCheck::Valid(ref s) if s == "1"));
    // The wrong secret fails signature verification.
    assert!(matches!(validate_jwt(&token, b"other", NOW), TokenCheck::Malformed));

    let guard = JwtValidator::new(SECRET.to_vec()).new_transform();
    let mut c = ctx("10.0.0.1", "/dashboard", None, Some(&token));
    assert!(guard.handle(&mut c, NOW).is_ok());
    let ident = c.identity.expect("identity attested");
    assert_eq!(ident.id, 1);
    assert_eq!(ident.role, Role::User);
}

#[test]
fn role_guard_rejects_user_admits_admin_and_sees_fresh_role() {
    let mut ids = store_with_user(1, None, 0);
    let token = create_jwt("1", SECRET, NOW);
    let guards = admin_chain(SECRET.to_vec());

    let run = |ids: &mut IdentityStore| {
        let mut counters = CounterStore::new();
        let mut log = Vec::new();
        let mut c = ctx("10.0.0.1", "/dashboard/admin/users", None, Some(&token));
        dispatch(&guards, &mut c, ids, &mut counters, &mut log, NOW, 200)
    };

    // USER tier on an ADMIN route: known identity, insufficient role.
    assert_eq!(run(&mut ids), 403);
    // Promote mid-session: the very next request sees the current role.
    assert_eq!(ids.set_permission(1, 1), Ok(true));
    assert_eq!(run(&mut ids), 200);
    // Demote again: reflected immediately, no stale-role admission.
    assert_eq!(ids.set_permission(1, 0), Ok(true));
    assert_eq!(run(&mut ids), 403);
}

#[test]
fn role_guard_without_identity_rejects_unauthenticated() {
    let ids = store_with_user(1, None, 1);
    let guard = AdminValidator::new().new_transform();
    let c = ctx("10.0.0.1", "/dashboard/admin", None, None);
    assert_eq!(guard.handle(&c, &ids), Err(Rejection::Unauthenticated));
}

#[test]
fn audit_logger_writes_exactly_one_record_per_completed_request() {
    let mut ids = store_with_user(0, Some("key-1"), 0);
    let mut counters = CounterStore::new();
    let mut log = Vec::new();
    let guards = api_chain(5, 60);
    let mut c = ctx("203.0.113.9", "/api/v1/get_random_number", Some("key-1"), None);
    let status = dispatch(&guards, &mut c, &mut ids, &mut counters, &mut log, NOW, 200);
    assert_eq!(status, 200);
    assert_eq!(ids.audit.len(), 1);
    let rec = &ids.audit[0];
    assert_eq!(rec.user_id, 0);
    assert_eq!(rec.api_key, "key-1");
    assert_eq!(rec.request_path, "/api/v1/get_random_number");
    assert_eq!(rec.request_method, "GET");
    assert_eq!(rec.request_time, NOW);
    assert_eq!(rec.request_ip, "203.0.113.9");
    assert_eq!(rec.status_code, 200);
    // A rejected request is never logged: the chain stopped before the
    // handler, so there is nothing completed to record.
    let mut c = ctx("203.0.113.9", "/api/v1/get_random_number", Some("key-wrong"), None);
    let status = dispatch(&guards, &mut c, &mut ids, &mut counters, &mut log, NOW, 200);
    assert_eq!(status, 401);
    assert_eq!(ids.audit.len(), 1);
}

#[test]
fn logging_failure_never_alters_the_response() {
    let logger = ApiUsageLogger::new().new_transform();
    // Store down at logging time: the write is swallowed, the status kept.
    let mut broken = store_with_user(0, Some("key-1"), 0);
    broken.healthy = false;
    let c = ctx("10.0.0.1", "/api", Some("key-1"), None);
    assert_eq!(logger.handle(&c, 200, &mut broken, NOW), 200);
    assert_eq!(broken.audit.len(), 0);
    // No key at log time: nothing resolvable, nothing written, status kept.
    let mut ids = store_with_user(0, Some("key-1"), 0);
    let c = ctx("10.0.0.1", "/api", None, None);
    assert_eq!(logger.handle(&c, 204, &mut ids, NOW), 204);
    assert_eq!(ids.audit.len(), 0);
}

#[test]
fn register_and_login_round_trip() {
    let mut store = IdentityStore::new();
    let req = RegisterRequest {
        name: "Ada".to_string(),
        email: "ada@example.com".to_string(),
        password: "correct horse".to_string(),
    };
    let outcome = register(&mut store, &req);
    let id = match outcome {
        RegisterOutcome::Registered(id) => id,
        other => panic!("expected registration, got {other:?}"),
    };
    assert_eq!(id, 0);
    assert_eq!(store.users.len(), 1);
    assert_eq!(store.users[0].name, "Ada");
    assert_eq!(store.users[0].email, "ada@example.com");
    assert_eq!(store.users[0].permission, 0);
    assert_eq!(store.users[0].api_key.as_ref().map(|k| k.len()), Some(30));
    // The stored digest verifies the password it was hashed from.
    assert!(api_gateway::auth::verify_password(
        "correct horse",
        &store.users[0].password_hash
    ));

    // Registering the same email again conflicts.
    assert_eq!(register(&mut store, &req), RegisterOutcome::EmailTaken);
    // A malformed email is refused before any lookup.
    let bad = RegisterRequest {
        name: "Bad".to_string(),
        email: "not-an-email".to_string(),
        password: "pw".to_string(),
    };
    assert_eq!(register(&mut store, &bad), RegisterOutcome::InvalidEmail);

    // Login with the right password issues a verifiable session token.
    let login_req = LoginRequest {
        email: "ada@example.com".to_string(),
        password: "correct horse".to_string(),
    };
    let token = login(&store, &login_req, SECRET, NOW).expect("login succeeds");
    match validate_jwt(&token, SECRET, NOW) {
        TokenCheck::Valid(sub) => assert_eq!(sub, "0"),
        other => panic!("expected valid token, got malformed/expired: {:?}", matches!(other, TokenCheck::Expired)),
    }
    // The wrong password and an unknown email are rejected alike.
    let wrong = LoginRequest {
        email: "ada@example.com".to_string(),
        password: "wrong".to_string(),
    };
    assert_eq!(login(&store, &wrong, SECRET, NOW), Err(Rejection::Unauthenticated));
    let unknown = LoginRequest {
        email: "nobody@example.com".to_string(),
        password: "pw".to_string(),
    };
    assert_eq!(login(&store, &unknown, SECRET, NOW), Err(Rejection::Unauthenticated));
    // A store failure is the one distinct outcome.
    let mut broken = store;
    broken.healthy = false;
    assert_eq!(login(&broken, &login_req, SECRET, NOW), Err(Rejection::Internal));
}

#[test]
fn simple_logger_lines_wrap_the_request() {
    let mut ids = store_with_user(0, Some("key-1"), 0);
    let mut counters = CounterStore::new();
    let mut log: Vec<String> = Vec::new();
    let guards = vec![Guard::Log(
        SimpleLogger::new().new_transform(),
    )];
    let mut c = ctx("10.0.0.1", "/ping", None, None);
    let status = dispatch(&guards, &mut c, &mut ids, &mut counters, &mut log, NOW, 200);
    assert_eq!(status, 200);
    assert_eq!(log, vec![
        "Incoming request: \"/ping\"".to_string(),
        "Response status: 200".to_string(),
    ]);
}

#[test]
fn store_crud_operations() {
    let mut store = IdentityStore::new();
    let add = |store: &mut IdentityStore, key: Option<&str>| {
        store
            .add_user(NewUser {
                name: "n".to_string(),
                email: "e@example.com".to_string(),
                password_hash: "h".to_string(),
                api_key: key.map(|k| k.to_string()),
                permission: 0,
            })
            .unwrap()
    };
    let a = add(&mut store, Some("ka"));
    let b = add(&mut store, Some("kb"));
    assert_eq!((a, b), (0, 1));
    // A duplicate API key is refused like any constraint violation.
    assert!(store
        .add_user(NewUser {
            name: "n".to_string(),
            email: "x@example.com".to_string(),
            password_hash: "h".to_string(),
            api_key: Some("ka".to_string()),
            permission: 0,
        })
        .is_err());
    // Revoking a key takes effect on the very next lookup.
    assert_eq!(store.find_by_api_key("ka"), Ok(Some(0)));
    assert_eq!(store.set_api_key(a, None), Ok(true));
    assert_eq!(store.find_by_api_key("ka"), Ok(None));
    // Refreshing a key replaces it.
    assert_eq!(store.set_api_key(b, Some("kb2".to_string())), Ok(true));
    assert_eq!(store.find_by_api_key("kb"), Ok(None));
    assert_eq!(store.find_by_api_key("kb2"), Ok(Some(1)));
    // Deleting removes the record.
    assert_eq!(store.delete_user(a), Ok(true));
    assert_eq!(store.find_by_id(a), Ok(None));
    assert_eq!(store.delete_user(a), Ok(false));
    // Unknown ids change nothing.
    assert_eq!(store.set_permission(99, 1), Ok(false));
}

#[test]
fn usage_history_is_newest_first_and_bounded() {
    let mut store = store_with_user(0, Some("key-1"), 0);
    for t in 0..4u64 {
        let c = ctx("10.0.0.1", &format!("/api/call{t}"), Some("key-1"), None);
        let logger = ApiUsageLogger::new().new_transform();
        logger.handle(&c, 200, &mut store, NOW + t);
    }
    let rows = store.get_api_key_usage(0, 3).unwrap();
    assert_eq!(rows.len(), 3);
    assert_eq!(rows[0].request_path, "/api/call3");
    assert_eq!(rows[1].request_path, "/api/call2");
    assert_eq!(rows[2].request_path, "/api/call1");
    assert_eq!(rows[0].request_time, (NOW + 3).to_string());
    let all = store.get_api_key_usage(0, 10).unwrap();
    assert_eq!(all.len(), 4);
    let none = store.get_api_key_usage(42, 10).unwrap();
    assert!(none.is_empty());
}

#[test]
fn permission_changes_validate_the_tier_first() {
    let mut store = store_with_user(3, None, 0);
    // Out-of-range tiers are refused before any store work.
    assert_eq!(store.change_permission(3, -1), PermissionChange::InvalidTier);
    assert_eq!(store.change_permission(3, 2), PermissionChange::InvalidTier);
    assert_eq!(store.users[0].permission, 0);
    // A valid tier lands on the record.
    assert_eq!(store.change_permission(3, 1), PermissionChange::Changed);
    assert_eq!(store.users[0].permission, 1);
    assert_eq!(store.change_permission(99, 0), PermissionChange::UnknownUser);
    store.healthy = false;
    assert_eq!(store.change_permission(3, 0), PermissionChange::Failed);
    assert_eq!(store.users[0].permission, 1);
}

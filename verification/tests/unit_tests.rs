use api_gateway::audit::{usage_responses, ApiUsage};
use api_gateway::auth::{
    generate_api_key, get_random_number, hash_password, is_valid_email, verify_password,
};
use api_gateway::identity::{role_of_permission, role_satisfies, permission_is_valid, Role, User};
use api_gateway::outcome::Rejection;
use api_gateway::schema::Query;
use api_gateway::text::{i32_to_string, parse_id, parse_u64, str_eq, u64_to_string};
use api_gateway::token::{create_jwt, validate_jwt, TokenCheck};

#[test]
fn decimal_rendering_is_exact() {
    assert_eq!(u64_to_string(0), "0");
    assert_eq!(u64_to_string(7), "7");
    assert_eq!(u64_to_string(60), "60");
    assert_eq!(u64_to_string(12345678901234567890), "12345678901234567890");
    assert_eq!(u64_to_string(u64::MAX), "18446744073709551615");
    assert_eq!(i32_to_string(-1), "-1");
    assert_eq!(i32_to_string(i32::MIN), "-2147483648");
    assert_eq!(i32_to_string(i32::MAX), "2147483647");
}

#[test]
fn decimal_parsing_round_trips_and_rejects() {
    assert_eq!(parse_u64("0"), Some(0));
    assert_eq!(parse_u64("007"), Some(7));
    assert_eq!(parse_u64("18446744073709551615"), Some(u64::MAX));
    assert_eq!(parse_u64("18446744073709551616"), None);
    assert_eq!(parse_u64(""), None);
    assert_eq!(parse_u64("12a"), None);
    assert_eq!(parse_u64("-3"), None);
    for n in [0u64, 1, 42, 999_999_999_999] {
        assert_eq!(parse_u64(&u64_to_string(n)), Some(n));
    }
    assert_eq!(parse_id("2147483647"), Some(i32::MAX));
    assert_eq!(parse_id("2147483648"), None);
}

#[test]
fn string_equality_is_by_characters() {
    assert!(str_eq("", ""));
    assert!(str_eq("abc", "abc"));
    assert!(!str_eq("abc", "abd"));
    assert!(!str_eq("abc", "ab"));
}

#[test]
fn rejection_statuses_and_messages() {
    assert_eq!(Rejection::Unauthenticated.status_code(), 401);
    assert_eq!(Rejection::Unauthorized.status_code(), 403);
    assert_eq!(Rejection::RateLimited { limit: 5, window_secs: 60 }.status_code(), 429);
    assert_eq!(Rejection::ServiceUnavailable.status_code(), 503);
    assert_eq!(Rejection::Internal.status_code(), 500);
    // The quota message names the limit and the window it was measured over.
    assert_eq!(
        Rejection::RateLimited { limit: 5, window_secs: 60 }.message(),
        "Rate limit exceeded: 5 requests in 60 seconds"
    );
    assert_eq!(Rejection::Unauthenticated.message(), "Invalid or missing credentials");
    assert_eq!(
        Rejection::Unauthorized.message(),
        "You do not have permission to access this resource"
    );
}

#[test]
fn roles_follow_the_stored_permission_tier() {
    assert_eq!(role_of_permission(0), Role::User);
    assert_eq!(role_of_permission(1), Role::Admin);
    assert_eq!(role_of_permission(2), Role::User);
    assert!(role_satisfies(Role::Admin, Role::Admin));
    assert!(role_satisfies(Role::Admin, Role::User));
    assert!(role_satisfies(Role::User, Role::User));
    assert!(!role_satisfies(Role::User, Role::Admin));
    assert!(permission_is_valid(0) && permission_is_valid(1));
    assert!(!permission_is_valid(-1) && !permission_is_valid(2));
}

#[test]
fn email_grammar_accepts_and_rejects() {
    for ok in [
        "a@b.co",
        "user.name+tag@sub.domain.org",
        "A_1%2-@x-y.z9.ab",
    ] {
        assert!(is_valid_email(ok), "should accept {ok}");
    }
    for bad in [
        "",
        "plain",
        "@b.co",
        "a@.co",
        "a@b.c",
        "a@b.c1",
        "a@b,co",
        "two@at@b.co",
        "a@b.",
        "a@bco",
        "spaced name@b.co",
    ] {
        assert!(!is_valid_email(bad), "should reject {bad}");
    }
}

#[test]
fn password_hash_verifies_only_the_right_password() {
    let hash = hash_password("correct horse");
    assert_ne!(hash, "correct horse");
    assert!(verify_password("correct horse", &hash));
    assert!(!verify_password("wrong horse", &hash));
    // A malformed hash string matches nothing.
    assert!(!verify_password("correct horse", "not-a-phc-string"));
}

#[test]
fn api_keys_are_thirty_alphanumerics() {
    let k1 = generate_api_key();
    let k2 = generate_api_key();
    assert_eq!(k1.chars().count(), 30);
    assert!(k1.chars().all(|c| c.is_ascii_alphanumeric()));
    assert_eq!(k2.chars().count(), 30);
    // Two draws almost surely differ; equality would mean the generator is
    // handing back a constant.
    assert_ne!(k1, k2);
}

#[test]
fn random_number_body_is_a_decimal_i32() {
    let body = get_random_number();
    let parsed: i64 = body.parse().expect("decimal body");
    assert!(parsed >= i32::MIN as i64 && parsed <= i32::MAX as i64);
}

#[test]
fn tokens_round_trip_through_the_codec() {
    let now = 1_700_000_000;
    let token = create_jwt("42", b"secret", now);
    // The token is a JWT, not the subject echoed back.
    assert_ne!(token, "42");
    assert_eq!(token.matches('.').count(), 2);
    match validate_jwt(&token, b"secret", now + 3599) {
        TokenCheck::Valid(sub) => assert_eq!(sub, "42"),
        _ => panic!("token should verify just before expiry"),
    }
    // At the expiry instant the token is already dead.
    assert!(matches!(validate_jwt(&token, b"secret", now + 3600), TokenCheck::Expired));
    // Tampering breaks the signature.
    let mut tampered = token.clone();
    tampered.pop();
    assert!(matches!(validate_jwt(&tampered, b"secret", now), TokenCheck::Malformed));
}

#[test]
fn hello_greets_the_world() {
    let q = Query {};
    assert_eq!(q.hello(), "Hello, world!");
}

#[test]
fn usage_rows_render_timestamps_in_decimal_seconds() {
    let rec = ApiUsage {
        id: 3,
        user_id: 9,
        api_key: "key-1".to_string(),
        request_path: "/api/v1/get_random_number".to_string(),
        request_method: "GET".to_string(),
        request_time: 1_700_000_000,
        request_ip: "203.0.113.9".to_string(),
        status_code: 200,
    };
    let rows = usage_responses(&vec![rec]);
    assert_eq!(rows.len(), 1);
    assert_eq!(rows[0].id, 3);
    assert_eq!(rows[0].user_id, 9);
    assert_eq!(rows[0].request_time, "1700000000");
    assert_eq!(rows[0].request_path, "/api/v1/get_random_number");
    assert_eq!(rows[0].status_code, 200);
}

#[test]
fn identity_copies_the_record_facts() {
    let u = User {
        id: 5,
        name: "n".to_string(),
        email: "e@example.com".to_string(),
        password_hash: "h".to_string(),
        api_key: Some("k".to_string()),
        permission: 1,
    };
    let ident = u.to_identity();
    assert_eq!(ident.id, 5);
    assert_eq!(ident.role, Role::Admin);
    assert_eq!(ident.api_key.as_deref(), Some("k"));
}

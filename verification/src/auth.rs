//! Registration and login around the identity store: a verified email
//! grammar, password hashing and verification consumed as opaque functions,
//! and the account decisions proved over the store model.

use vstd::prelude::*;

use crate::identity::NewUser;
use crate::outcome::Rejection;
use crate::store::{first_user_with_email, IdentityStore};
use crate::text::{is_digit, decimal_int, i32_to_string};
use crate::token::{create_jwt, decoded_claims, encoded_token};
use vstd::utf8::encode_utf8;
use crate::TOKEN_TTL_SECS;

use argon2::password_hash::{PasswordHasher, PasswordVerifier};
use rand::Rng;

verus! {

// ---------------------------------------------------------------------------
// Email addresses
// ---------------------------------------------------------------------------

pub open spec fn is_alpha(c: char) -> bool {
    ('a' <= c && c <= 'z') || ('A' <= c && c <= 'Z')
}

/// The characters an address's local part may hold.
pub open spec fn is_local_char(c: char) -> bool {
    is_alpha(c) || is_digit(c) || c == '.' || c == '_' || c == '%' || c == '+' || c == '-'
}

/// The characters an address's domain part may hold.
pub open spec fn is_domain_char(c: char) -> bool {
    is_alpha(c) || is_digit(c) || c == '.' || c == '-'
}

/// Whether `at` and `dot` split `s` as local `@` domain `.` tld: a non-empty
/// local part of local characters, a non-empty domain of domain characters,
/// and a final label of at least two letters.
pub open spec fn email_split_ok(s: Seq<char>, at: int, dot: int) -> bool {
    &&& 1 <= at
    &&& at + 2 <= dot
    &&& dot + 3 <= s.len()
    &&& s[at] == '@'
    &&& s[dot] == '.'
    &&& forall|i: int| 0 <= i < at ==> is_local_char(#[trigger] s[i])
    &&& forall|i: int| at < i < dot ==> is_domain_char(#[trigger] s[i])
    &&& forall|i: int| dot < i < s.len() ==> is_alpha(#[trigger] s[i])
}

/// The address grammar registration enforces.
pub open spec fn spec_valid_email(s: Seq<char>) -> bool {
    exists|at: int, dot: int| email_split_ok(s, at, dot)
}

fn is_alpha_exec(c: char) -> (r: bool)
    ensures
        r == is_alpha(c),
{
    let u = c as u32;
    (97 <= u && u <= 122) || (65 <= u && u <= 90)
}

fn is_digit_exec(c: char) -> (r: bool)
    ensures
        r == is_digit(c),
{
    let u = c as u32;
    48 <= u && u <= 57
}

fn is_local_char_exec(c: char) -> (r: bool)
    ensures
        r == is_local_char(c),
{
    is_alpha_exec(c) || is_digit_exec(c) || c == '.' || c == '_' || c == '%' || c == '+' || c == '-'
}

fn is_domain_char_exec(c: char) -> (r: bool)
    ensures
        r == is_domain_char(c),
{
    is_alpha_exec(c) || is_digit_exec(c) || c == '.' || c == '-'
}

/// The first position of `target` in `s`, if any.
fn find_first(s: &str, target: char) -> (r: Option<usize>)
    ensures
        r matches Some(i) ==> 0 <= i < s@.len() && s@[i as int] == target && forall|j: int|
            0 <= j < i ==> s@[j] != target,
        r is None ==> forall|j: int| 0 <= j < s@.len() ==> s@[j] != target,
{
    let len = s.unicode_len();
    let mut i: usize = 0;
    while i < len
        invariant
            len == s@.len(),
            0 <= i <= len,
            forall|j: int| 0 <= j < i ==> s@[j] != target,
        decreases len - i,
    {
        if s.get_char(i) == target {
            return Some(i);
        }
        i = i + 1;
    }
    None
}

/// The last position of `target` in `s`, if any.
fn find_last(s: &str, target: char) -> (r: Option<usize>)
    ensures
        r matches Some(i) ==> 0 <= i < s@.len() && s@[i as int] == target && forall|j: int|
            i < j < s@.len() ==> s@[j] != target,
        r is None ==> forall|j: int| 0 <= j < s@.len() ==> s@[j] != target,
{
    let len = s.unicode_len();
    let mut i: usize = len;
    while i > 0
        invariant
            len == s@.len(),
            0 <= i <= len,
            forall|j: int| i <= j < len ==> s@[j] != target,
        decreases i,
    {
        i = i - 1;
        if s.get_char(i) == target {
            return Some(i);
        }
    }
    None
}

/// Any valid split is pinned: its `@` is the first `@` and its `.` the last.
proof fn lemma_split_forced(s: Seq<char>, a: int, d: int, at: int, dot: int)
    requires
        email_split_ok(s, at, dot),
        0 <= a < s.len(),
        s[a] == '@',
        forall|i: int| 0 <= i < a ==> s[i] != '@',
        0 <= d < s.len(),
        s[d] == '.',
        forall|i: int| d < i < s.len() ==> s[i] != '.',
    ensures
        at == a,
        dot == d,
{
    if at > a {
        assert(is_local_char(s[a]));
    }
    if dot < d {
        if d == at {
        } else if at < d && d < dot {
            assert(is_domain_char(s[d]));
        } else {
            assert(is_alpha(s[d]));
        }
    }
}

fn range_is_local(s: &str, from: usize, to: usize) -> (r: bool)
    requires
        from <= to <= s@.len(),
    ensures
        r <==> forall|j: int| from <= j < to ==> is_local_char(#[trigger] s@[j]),
{
    let mut i = from;
    while i < to
        invariant
            from <= i <= to <= s@.len(),
            forall|j: int| from <= j < i ==> is_local_char(#[trigger] s@[j]),
        decreases to - i,
    {
        if !is_local_char_exec(s.get_char(i)) {
            return false;
        }
        i = i + 1;
    }
    true
}

fn range_is_domain(s: &str, from: usize, to: usize) -> (r: bool)
    requires
        from <= to <= s@.len(),
    ensures
        r <==> forall|j: int| from <= j < to ==> is_domain_char(#[trigger] s@[j]),
{
    let mut i = from;
    while i < to
        invariant
            from <= i <= to <= s@.len(),
            forall|j: int| from <= j < i ==> is_domain_char(#[trigger] s@[j]),
        decreases to - i,
    {
        if !is_domain_char_exec(s.get_char(i)) {
            return false;
        }
        i = i + 1;
    }
    true
}

fn range_is_alpha(s: &str, from: usize, to: usize) -> (r: bool)
    requires
        from <= to <= s@.len(),
    ensures
        r <==> forall|j: int| from <= j < to ==> is_alpha(#[trigger] s@[j]),
{
    let mut i = from;
    while i < to
        invariant
            from <= i <= to <= s@.len(),
            forall|j: int| from <= j < i ==> is_alpha(#[trigger] s@[j]),
        decreases to - i,
    {
        if !is_alpha_exec(s.get_char(i)) {
            return false;
        }
        i = i + 1;
    }
    true
}

/// Whether `s` is an email address of the form the registration endpoint
/// accepts: a non-empty local part, `@`, a non-empty domain, and a final
/// label of at least two letters.
pub fn is_valid_email(s: &str) -> (r: bool)
    ensures
        r == spec_valid_email(s@),
{
    let len = s.unicode_len();
    let a = match find_first(s, '@') {
        Some(a) => a,
        None => {
            proof {
                assert forall|at: int, dot: int| !email_split_ok(s@, at, dot) by {
                    if email_split_ok(s@, at, dot) {
                        assert(s@[at] == '@');
                    }
                }
            }
            return false;
        },
    };
    let d = match find_last(s, '.') {
        Some(d) => d,
        None => {
            proof {
                assert forall|at: int, dot: int| !email_split_ok(s@, at, dot) by {
                    if email_split_ok(s@, at, dot) {
                        assert(s@[dot] == '.');
                    }
                }
            }
            return false;
        },
    };
    let ok = a >= 1 && d > a && d - a >= 2 && len - d >= 3 && range_is_local(s, 0, a)
        && range_is_domain(s, a + 1, d) && range_is_alpha(s, d + 1, len);
    proof {
        if ok {
            assert(email_split_ok(s@, a as int, d as int));
        } else {
            assert forall|at: int, dot: int| !email_split_ok(s@, at, dot) by {
                if email_split_ok(s@, at, dot) {
                    lemma_split_forced(s@, a as int, d as int, at, dot);
                }
            }
        }
    }
    ok
}

// ---------------------------------------------------------------------------
// Password hashing and API keys (consumed as opaque functions)
// ---------------------------------------------------------------------------

/// Whether `password` matches the PHC hash string `hash`: a function of the
/// two arguments alone (a malformed hash matches nothing).
pub uninterp spec fn argon_matches(password: Seq<char>, hash: Seq<char>) -> bool;

/// Relies on argon2's PasswordHasher with a freshly generated random salt,
/// and on its PasswordVerifier re-deriving algorithm, version, parameters
/// and salt from the digest: the fresh digest is a non-empty PHC string that
/// verifies exactly the password hashed, whatever salt was drawn. The hasher
/// refuses passwords of 2^32 bytes or more; the precondition rules them out.
/// Which digest comes back is chance — the salt differs on every call.
#[verifier::external_body]
pub fn hash_password(password: &str) -> (hash: String)
    requires
        encode_utf8(password@).len() < 0x1_0000_0000,
    ensures
        hash@.len() > 0,
        argon_matches(password@, hash@),
{
    let salt = argon2::password_hash::SaltString::generate(
        &mut argon2::password_hash::rand_core::OsRng,
    );
    argon2::Argon2::default().hash_password(password.as_bytes(), &salt).expect(
        "Password hashing failed",
    ).to_string()
}

/// Relies on argon2's PasswordVerifier, deterministic in the password and
/// the hash string it re-derives the parameters from.
#[verifier::external_body]
pub fn verify_password(password: &str, hash: &str) -> (r: bool)
    ensures
        r == argon_matches(password@, hash@),
{
    match argon2::password_hash::PasswordHash::new(hash) {
        Ok(parsed) => argon2::Argon2::default().verify_password(
            password.as_bytes(),
            &parsed,
        ).is_ok(),
        Err(_) => false,
    }
}

/// Relies on rand's Alphanumeric distribution: thirty characters drawn from
/// a-z, A-Z and 0-9; which ones is chance.
#[verifier::external_body]
pub fn generate_api_key() -> (key: String)
    ensures
        key@.len() == 30,
        forall|i: int| 0 <= i < 30 ==> is_alpha(#[trigger] key@[i]) || is_digit(key@[i]),
{
    rand::thread_rng().sample_iter(&rand::distributions::Alphanumeric).take(30).map(
        char::from,
    ).collect()
}

/// Relies on rand::random for a uniformly random value; which one comes back
/// is chance.
#[verifier::external_body]
fn random_i32() -> (n: i32) {
    rand::random::<i32>()
}

/// A random number, rendered in decimal for the response body.
pub fn get_random_number() -> (body: String)
    ensures
        exists|n: int| i32::MIN <= n <= i32::MAX && body@ == decimal_int(n),
{
    let n = random_i32();
    let body = i32_to_string(n);
    proof {
        assert(i32::MIN <= n as int <= i32::MAX && body@ == decimal_int(n as int));
    }
    body
}

// ---------------------------------------------------------------------------
// Registration and login
// ---------------------------------------------------------------------------

/// What the registration endpoint accepts.
pub struct RegisterRequest {
    pub name: String,
    pub email: String,
    pub password: String,
}

/// What the login endpoint accepts.
pub struct LoginRequest {
    pub email: String,
    pub password: String,
}

/// How a registration attempt ended.
#[derive(Clone, Copy, Debug, PartialEq, Eq, Structural)]
pub enum RegisterOutcome {
    /// The account was created under this id.
    Registered(i32),
    /// The email does not parse; nothing was stored.
    InvalidEmail,
    /// Some account already holds this email; nothing was stored.
    EmailTaken,
    /// The store was unreachable or refused the insert; nothing was stored.
    Failed,
}

/// Registers an account whose password hash and API key were already
/// computed: created exactly when the email parses, the store is reachable,
/// no account holds the email, and no account holds the key.
pub fn register_with_credentials(
    store: &mut IdentityStore,
    req: &RegisterRequest,
    password_hash: String,
    api_key: String,
) -> (r: RegisterOutcome)
    requires
        old(store).wf(),
        old(store).next_id < i32::MAX,
    ensures
        final(store).wf(),
        final(store).audit == old(store).audit,
        final(store).healthy == old(store).healthy,
        r == RegisterOutcome::InvalidEmail <==> !spec_valid_email(req.email@),
        spec_valid_email(req.email@) && !old(store).healthy ==> r == RegisterOutcome::Failed,
        spec_valid_email(req.email@) && old(store).healthy ==> (r == RegisterOutcome::EmailTaken
            <==> first_user_with_email(old(store).users@, req.email@) is Some),
        spec_valid_email(req.email@) && old(store).healthy && first_user_with_email(
            old(store).users@,
            req.email@,
        ) is None && (forall|j: int|
            0 <= j < old(store).users@.len() ==> !crate::store::user_has_key(
                #[trigger] old(store).users@[j],
                api_key@,
            )) ==> r matches RegisterOutcome::Registered(_),
        r matches RegisterOutcome::Registered(id) ==> {
            &&& id == old(store).next_id
            &&& final(store).users@.len() == old(store).users@.len() + 1
            &&& final(store).users@ =~= old(store).users@.push(final(store).users@.last())
            &&& final(store).users@.last().id == id
            &&& final(store).users@.last().name@ == req.name@
            &&& final(store).users@.last().email@ == req.email@
            &&& final(store).users@.last().password_hash@ == password_hash@
            &&& final(store).users@.last().api_key matches Some(k) && k@ == api_key@
            &&& final(store).users@.last().permission == 0
        },
        !(r matches RegisterOutcome::Registered(_)) ==> final(store).users@ == old(store).users@
            && final(store).next_id == old(store).next_id,
{
    if !is_valid_email(req.email.as_str()) {
        return RegisterOutcome::InvalidEmail;
    }
    match store.find_by_email(req.email.as_str()) {
        Ok(Some(_)) => RegisterOutcome::EmailTaken,
        Ok(None) => {
            let ghost key_view = api_key@;
            let nu = NewUser {
                name: req.name.clone(),
                email: req.email.clone(),
                password_hash,
                api_key: Some(api_key),
                permission: 0,
            };
            match store.add_user(nu) {
                Ok(id) => RegisterOutcome::Registered(id),
                Err(_) => RegisterOutcome::Failed,
            }
        },
        Err(_) => RegisterOutcome::Failed,
    }
}

/// Registers an account: hashes the password, draws a fresh API key, and
/// stores the record. Created exactly when the email parses, the store is
/// reachable, no account holds the email, and the drawn key is free (a
/// collision surfaces as `Failed`, like any store refusal).
pub fn register(store: &mut IdentityStore, req: &RegisterRequest) -> (r: RegisterOutcome)
    requires
        old(store).wf(),
        old(store).next_id < i32::MAX,
        encode_utf8(req.password@).len() < 0x1_0000_0000,
    ensures
        final(store).wf(),
        final(store).audit == old(store).audit,
        final(store).healthy == old(store).healthy,
        r == RegisterOutcome::InvalidEmail <==> !spec_valid_email(req.email@),
        spec_valid_email(req.email@) && !old(store).healthy ==> r == RegisterOutcome::Failed,
        spec_valid_email(req.email@) && old(store).healthy ==> (r == RegisterOutcome::EmailTaken
            <==> first_user_with_email(old(store).users@, req.email@) is Some),
        spec_valid_email(req.email@) && old(store).healthy && first_user_with_email(
            old(store).users@,
            req.email@,
        ) is None && (forall|j: int|
            0 <= j < old(store).users@.len() ==> old(store).users@[j].api_key is None) ==> r matches
            RegisterOutcome::Registered(_),
        r matches RegisterOutcome::Registered(id) ==> {
            &&& id == old(store).next_id
            &&& final(store).users@.len() == old(store).users@.len() + 1
            &&& final(store).users@.last().name@ == req.name@
            &&& final(store).users@.last().email@ == req.email@
            &&& final(store).users@.last().permission == 0
            &&& argon_matches(req.password@, final(store).users@.last().password_hash@)
            &&& final(store).users@.last().api_key matches Some(k) && k@.len() == 30
        },
        !(r matches RegisterOutcome::Registered(_)) ==> final(store).users@ == old(store).users@,
{
    let password_hash = hash_password(req.password.as_str());
    let api_key = generate_api_key();
    register_with_credentials(store, req, password_hash, api_key)
}

/// Logs an account in: issued a session token exactly when the store is
/// reachable, some account holds the email, and the password matches its
/// stored hash. A wrong password and an unknown email are rejected alike;
/// a store failure is the one outcome reported distinctly.
pub fn login(store: &IdentityStore, req: &LoginRequest, secret: &[u8], now: u64) -> (r: Result<
    String,
    Rejection,
>)
    requires
        now + TOKEN_TTL_SECS <= u64::MAX,
    ensures
        !store.healthy ==> r == Err::<String, Rejection>(Rejection::Internal),
        store.healthy ==> match first_user_with_email(store.users@, req.email@) {
            None => r == Err::<String, Rejection>(Rejection::Unauthenticated),
            Some(u) => if argon_matches(req.password@, u.password_hash@) {
                r matches Ok(token) && token@ == encoded_token(
                    decimal_int(u.id as int),
                    (now + TOKEN_TTL_SECS) as u64,
                    secret@,
                ) && decoded_claims(token@, secret@) == Some(
                    (decimal_int(u.id as int), (now + TOKEN_TTL_SECS) as u64),
                )
            } else {
                r == Err::<String, Rejection>(Rejection::Unauthenticated)
            },
        },
{
    match store.find_by_email(req.email.as_str()) {
        Ok(Some(i)) => {
            let user = &store.users[i];
            if verify_password(req.password.as_str(), user.password_hash.as_str()) {
                let subject = i32_to_string(user.id);
                Ok(create_jwt(subject.as_str(), secret, now))
            } else {
                Err(Rejection::Unauthenticated)
            }
        },
        Ok(None) => Err(Rejection::Unauthenticated),
        Err(_) => Err(Rejection::Internal),
    }
}

} // verus!

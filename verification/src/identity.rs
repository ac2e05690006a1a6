//! Principals: stored user records, the role model, and the immutable
//! identity copy a guard attaches to one request.

use vstd::prelude::*;

verus! {

/// The privilege tier of an identity.
#[derive(Clone, Copy, Debug, PartialEq, Eq, Structural)]
pub enum Role {
    User,
    Admin,
}

/// The role a stored permission tier denotes: exactly permission `1` is the
/// privileged tier.
pub open spec fn spec_role_of_permission(p: i16) -> Role {
    if p == 1 {
        Role::Admin
    } else {
        Role::User
    }
}

pub fn role_of_permission(p: i16) -> (r: Role)
    ensures
        r == spec_role_of_permission(p),
{
    if p == 1 {
        Role::Admin
    } else {
        Role::User
    }
}

/// Whether a held role satisfies a required one: `Admin` satisfies
/// everything, `User` only routes that require no privilege.
pub open spec fn spec_role_satisfies(held: Role, required: Role) -> bool {
    match required {
        Role::User => true,
        Role::Admin => held == Role::Admin,
    }
}

pub fn role_satisfies(held: Role, required: Role) -> (r: bool)
    ensures
        r == spec_role_satisfies(held, required),
{
    match required {
        Role::User => true,
        Role::Admin => matches!(held, Role::Admin),
    }
}

/// A stored user record, as the identity store keeps it. API keys are
/// nullable and unique across records; `permission` is the stored role tier.
pub struct User {
    pub id: i32,
    pub name: String,
    pub email: String,
    pub password_hash: String,
    pub api_key: Option<String>,
    pub permission: i16,
}

/// The fields a new user record is created from.
pub struct NewUser {
    pub name: String,
    pub email: String,
    pub password_hash: String,
    pub api_key: Option<String>,
    pub permission: i16,
}

/// The resolved principal attached to one request: an immutable copy taken
/// from the store (or, for a session token, only the attested subject id,
/// with the role left at the unprivileged default until a guard re-reads it).
pub struct Identity {
    pub id: i32,
    pub role: Role,
    pub api_key: Option<String>,
}

/// Copies an optional string.
pub fn clone_opt_string(o: &Option<String>) -> (r: Option<String>)
    ensures
        r == *o,
{
    match o {
        Some(s) => Some(s.clone()),
        None => None,
    }
}

/// The identity a stored record resolves to.
pub open spec fn spec_identity_of(u: User) -> Identity {
    Identity { id: u.id, role: spec_role_of_permission(u.permission), api_key: u.api_key }
}

impl User {
    /// An immutable identity copy of this record, for the lifetime of one
    /// request.
    pub fn to_identity(&self) -> (ident: Identity)
        ensures
            ident == spec_identity_of(*self),
    {
        Identity {
            id: self.id,
            role: role_of_permission(self.permission),
            api_key: clone_opt_string(&self.api_key),
        }
    }
}

/// The permission tiers a record may be changed to.
pub open spec fn spec_permission_is_valid(p: int) -> bool {
    0 <= p <= 1
}

pub fn permission_is_valid(p: i32) -> (r: bool)
    ensures
        r == spec_permission_is_valid(p as int),
{
    0 <= p && p <= 1
}

} // verus!

//! The identity store as the pipeline sees it: a user table keyed by id,
//! with unique nullable API keys, and an append-only audit table. The store
//! is externally consistent; `healthy` stands for its reachability, so that
//! every caller states what it does when a round-trip fails.

use vstd::prelude::*;

use crate::audit::{response_matches_usage, ApiUsage, ApiUsageResponse};
use crate::identity::{permission_is_valid, spec_permission_is_valid, NewUser, User};
use crate::text::str_eq;

verus! {

/// How a permission-change request ended.
#[derive(Clone, Copy, Debug, PartialEq, Eq, Structural)]
pub enum PermissionChange {
    /// The record now carries the requested tier.
    Changed,
    /// The requested tier is outside the role model; nothing was touched.
    InvalidTier,
    /// No record has this id; nothing was touched.
    UnknownUser,
    /// The store was unreachable; nothing was touched.
    Failed,
}

/// A failed store round-trip (unreachable, erroring, or timed out — the
/// guards treat these alike).
#[derive(Clone, Copy, Debug, PartialEq, Eq, Structural)]
pub struct StoreError;

/// Whether a stored record carries exactly this API key.
pub open spec fn user_has_key(u: User, key: Seq<char>) -> bool {
    match u.api_key {
        Some(k) => k@ == key,
        None => false,
    }
}

/// The first stored record carrying this API key; under `wf` it is the only
/// one.
pub open spec fn first_user_with_key(users: Seq<User>, key: Seq<char>) -> Option<User>
    decreases users.len(),
{
    if users.len() == 0 {
        None
    } else if user_has_key(users[0], key) {
        Some(users[0])
    } else {
        first_user_with_key(users.drop_first(), key)
    }
}

/// The first stored record with this id; under `wf` it is the only one.
pub open spec fn first_user_with_id(users: Seq<User>, id: i32) -> Option<User>
    decreases users.len(),
{
    if users.len() == 0 {
        None
    } else if users[0].id == id {
        Some(users[0])
    } else {
        first_user_with_id(users.drop_first(), id)
    }
}

pub proof fn lemma_first_key_at(users: Seq<User>, key: Seq<char>, i: int)
    requires
        0 <= i < users.len(),
        user_has_key(users[i], key),
        forall|j: int| 0 <= j < i ==> !user_has_key(users[j], key),
    ensures
        first_user_with_key(users, key) == Some(users[i]),
    decreases i,
{
    if i > 0 {
        lemma_first_key_at(users.drop_first(), key, i - 1);
    }
}

pub proof fn lemma_first_key_none(users: Seq<User>, key: Seq<char>)
    requires
        forall|j: int| 0 <= j < users.len() ==> !user_has_key(users[j], key),
    ensures
        first_user_with_key(users, key) is None,
    decreases users.len(),
{
    if users.len() > 0 {
        lemma_first_key_none(users.drop_first(), key);
    }
}

/// The first stored record with this email.
pub open spec fn first_user_with_email(users: Seq<User>, email: Seq<char>) -> Option<User>
    decreases users.len(),
{
    if users.len() == 0 {
        None
    } else if users[0].email@ == email {
        Some(users[0])
    } else {
        first_user_with_email(users.drop_first(), email)
    }
}

pub proof fn lemma_first_email_at(users: Seq<User>, email: Seq<char>, i: int)
    requires
        0 <= i < users.len(),
        users[i].email@ == email,
        forall|j: int| 0 <= j < i ==> users[j].email@ != email,
    ensures
        first_user_with_email(users, email) == Some(users[i]),
    decreases i,
{
    if i > 0 {
        lemma_first_email_at(users.drop_first(), email, i - 1);
    }
}

pub proof fn lemma_first_email_none(users: Seq<User>, email: Seq<char>)
    requires
        forall|j: int| 0 <= j < users.len() ==> users[j].email@ != email,
    ensures
        first_user_with_email(users, email) is None,
    decreases users.len(),
{
    if users.len() > 0 {
        lemma_first_email_none(users.drop_first(), email);
    }
}

pub proof fn lemma_first_id_at(users: Seq<User>, id: i32, i: int)
    requires
        0 <= i < users.len(),
        users[i].id == id,
        forall|j: int| 0 <= j < i ==> users[j].id != id,
    ensures
        first_user_with_id(users, id) == Some(users[i]),
    decreases i,
{
    if i > 0 {
        lemma_first_id_at(users.drop_first(), id, i - 1);
    }
}

pub proof fn lemma_first_id_none(users: Seq<User>, id: i32)
    requires
        forall|j: int| 0 <= j < users.len() ==> users[j].id != id,
    ensures
        first_user_with_id(users, id) is None,
    decreases users.len(),
{
    if users.len() > 0 {
        lemma_first_id_none(users.drop_first(), id);
    }
}

/// The indices into the audit table of the newest records for `user_id`,
/// newest first, at most `limit` of them.
pub open spec fn recent_usage_indices(audit: Seq<ApiUsage>, user_id: i32, limit: nat) -> Seq<int>
    decreases audit.len(),
{
    if audit.len() == 0 || limit == 0 {
        Seq::empty()
    } else if audit.last().user_id == user_id {
        seq![audit.len() - 1] + recent_usage_indices(audit.drop_last(), user_id, (limit - 1) as nat)
    } else {
        recent_usage_indices(audit.drop_last(), user_id, limit)
    }
}

/// The user/identity table with its audit table.
pub struct IdentityStore {
    pub users: Vec<User>,
    pub audit: Vec<ApiUsage>,
    pub next_id: i32,
    pub healthy: bool,
}

impl IdentityStore {
    /// The store's schema invariant: ids are unique and below the allocator
    /// cursor, and API keys are unique among the records that hold one.
    pub open spec fn wf(self) -> bool {
        &&& forall|i: int, j: int|
            0 <= i < j < self.users@.len() ==> self.users@[i].id != self.users@[j].id
        &&& forall|i: int|
            0 <= i < self.users@.len() ==> self.users@[i].id < self.next_id
        &&& forall|i: int, j: int|
            0 <= i < j < self.users@.len() ==> match (
                #[trigger] self.users@[i].api_key,
                #[trigger] self.users@[j].api_key,
            ) {
                (Some(a), Some(b)) => a@ != b@,
                _ => true,
            }
    }

    /// An empty, reachable store.
    pub fn new() -> (s: IdentityStore)
        ensures
            s.wf(),
            s.users@.len() == 0,
            s.audit@.len() == 0,
            s.next_id == 0,
            s.healthy,
    {
        IdentityStore { users: Vec::new(), audit: Vec::new(), next_id: 0, healthy: true }
    }

    /// Looks an identity up by its API key: the index of the record whose
    /// stored key equals the presented one. Exactly one record can match a
    /// well-formed store. Fails if and only if the store is unreachable.
    pub fn find_by_api_key(&self, key: &str) -> (r: Result<Option<usize>, StoreError>)
        ensures
            r is Err <==> !self.healthy,
            r matches Ok(Some(i)) ==> 0 <= i < self.users@.len() && user_has_key(
                self.users@[i as int],
                key@,
            ),
            r matches Ok(None) ==> forall|j: int|
                0 <= j < self.users@.len() ==> !user_has_key(self.users@[j], key@),
            self.healthy && (exists|j: int|
                0 <= j < self.users@.len() && user_has_key(self.users@[j], key@)) ==> r matches Ok(
                Some(_),
            ),
            r matches Ok(Some(i)) ==> first_user_with_key(self.users@, key@) == Some(
                self.users@[i as int],
            ),
            r matches Ok(None) ==> first_user_with_key(self.users@, key@) is None,
    {
        if !self.healthy {
            return Err(StoreError);
        }
        let mut i: usize = 0;
        while i < self.users.len()
            invariant
                self.healthy,
                0 <= i <= self.users@.len(),
                forall|j: int| 0 <= j < i ==> !user_has_key(self.users@[j], key@),
            decreases self.users@.len() - i,
        {
            match &self.users[i].api_key {
                Some(k) => {
                    if str_eq(k.as_str(), key) {
                        proof {
                            lemma_first_key_at(self.users@, key@, i as int);
                        }
                        return Ok(Some(i));
                    }
                },
                None => {},
            }
            i = i + 1;
        }
        proof {
            lemma_first_key_none(self.users@, key@);
        }
        Ok(None)
    }

    /// Looks a record up by id. Fails if and only if the store is
    /// unreachable.
    pub fn find_by_id(&self, id: i32) -> (r: Result<Option<usize>, StoreError>)
        ensures
            r is Err <==> !self.healthy,
            r matches Ok(Some(i)) ==> 0 <= i < self.users@.len() && self.users@[i as int].id == id,
            r matches Ok(None) ==> forall|j: int|
                0 <= j < self.users@.len() ==> self.users@[j].id != id,
            self.healthy && (exists|j: int| 0 <= j < self.users@.len() && self.users@[j].id == id)
                ==> r matches Ok(Some(_)),
            r matches Ok(Some(i)) ==> first_user_with_id(self.users@, id) == Some(
                self.users@[i as int],
            ),
            r matches Ok(None) ==> first_user_with_id(self.users@, id) is None,
    {
        if !self.healthy {
            return Err(StoreError);
        }
        let mut i: usize = 0;
        while i < self.users.len()
            invariant
                self.healthy,
                0 <= i <= self.users@.len(),
                forall|j: int| 0 <= j < i ==> self.users@[j].id != id,
            decreases self.users@.len() - i,
        {
            if self.users[i].id == id {
                proof {
                    lemma_first_id_at(self.users@, id, i as int);
                }
                return Ok(Some(i));
            }
            i = i + 1;
        }
        proof {
            lemma_first_id_none(self.users@, id);
        }
        Ok(None)
    }

    /// Looks a record up by email (the login credential). Fails if and only
    /// if the store is unreachable.
    pub fn find_by_email(&self, email: &str) -> (r: Result<Option<usize>, StoreError>)
        ensures
            r is Err <==> !self.healthy,
            r matches Ok(Some(i)) ==> 0 <= i < self.users@.len() && self.users@[i as int].email@
                == email@,
            r matches Ok(None) ==> forall|j: int|
                0 <= j < self.users@.len() ==> self.users@[j].email@ != email@,
            r matches Ok(Some(i)) ==> first_user_with_email(self.users@, email@) == Some(
                self.users@[i as int],
            ),
            r matches Ok(None) ==> first_user_with_email(self.users@, email@) is None,
    {
        if !self.healthy {
            return Err(StoreError);
        }
        let mut i: usize = 0;
        while i < self.users.len()
            invariant
                self.healthy,
                0 <= i <= self.users@.len(),
                forall|j: int| 0 <= j < i ==> self.users@[j].email@ != email@,
            decreases self.users@.len() - i,
        {
            if str_eq(self.users[i].email.as_str(), email) {
                proof {
                    lemma_first_email_at(self.users@, email@, i as int);
                }
                return Ok(Some(i));
            }
            i = i + 1;
        }
        proof {
            lemma_first_email_none(self.users@, email@);
        }
        Ok(None)
    }

    /// Appends one audit record; the table is append-only. Returns whether
    /// the write was accepted; on failure nothing changes.
    pub fn append_audit(&mut self, rec: ApiUsage) -> (ok: bool)
        ensures
            ok <==> old(self).healthy,
            ok ==> final(self).audit@ == old(self).audit@.push(rec),
            !ok ==> final(self).audit@ == old(self).audit@,
            final(self).users == old(self).users,
            final(self).next_id == old(self).next_id,
            final(self).healthy == old(self).healthy,
            old(self).wf() ==> final(self).wf(),
    {
        if self.healthy {
            self.audit.push(rec);
            true
        } else {
            false
        }
    }

    /// Inserts a new record under a fresh id and returns that id. Refused —
    /// like any constraint violation, indistinguishably from an unreachable
    /// store — when the record carries an API key some record already holds.
    pub fn add_user(&mut self, nu: NewUser) -> (r: Result<i32, StoreError>)
        requires
            old(self).wf(),
            old(self).next_id < i32::MAX,
        ensures
            final(self).wf(),
            final(self).audit == old(self).audit,
            final(self).healthy == old(self).healthy,
            !old(self).healthy ==> r is Err,
            old(self).healthy && (match nu.api_key {
                Some(k) => forall|j: int|
                    0 <= j < old(self).users@.len() ==> !user_has_key(
                        #[trigger] old(self).users@[j],
                        k@,
                    ),
                None => true,
            }) ==> r is Ok,
            r matches Ok(id) ==> {
                &&& id == old(self).next_id
                &&& final(self).users@.len() == old(self).users@.len() + 1
                &&& final(self).users@ =~= old(self).users@.push(final(self).users@.last())
                &&& final(self).users@.last().id == id
                &&& final(self).users@.last().name@ == nu.name@
                &&& final(self).users@.last().email@ == nu.email@
                &&& final(self).users@.last().password_hash@ == nu.password_hash@
                &&& final(self).users@.last().api_key == nu.api_key
                &&& final(self).users@.last().permission == nu.permission
            },
            r is Err ==> final(self).users@ == old(self).users@ && final(self).next_id == old(
                self,
            ).next_id,
    {
        if !self.healthy {
            return Err(StoreError);
        }
        match &nu.api_key {
            Some(k) => {
                match self.find_by_api_key(k.as_str()) {
                    Ok(Some(_)) => {
                        return Err(StoreError);
                    },
                    Ok(None) => {},
                    Err(e) => {
                        return Err(e);
                    },
                }
            },
            None => {},
        }
        let id = self.next_id;
        let user = User {
            id,
            name: nu.name,
            email: nu.email,
            password_hash: nu.password_hash,
            api_key: nu.api_key,
            permission: nu.permission,
        };
        self.users.push(user);
        self.next_id = id + 1;
        Ok(id)
    }

    /// Deletes the record with this id, if any; reports whether one was
    /// removed. Fails if and only if the store is unreachable.
    pub fn delete_user(&mut self, id: i32) -> (r: Result<bool, StoreError>)
        requires
            old(self).wf(),
        ensures
            final(self).wf(),
            final(self).audit == old(self).audit,
            final(self).healthy == old(self).healthy,
            final(self).next_id == old(self).next_id,
            r is Err <==> !old(self).healthy,
            r is Err ==> final(self).users@ == old(self).users@,
            r matches Ok(removed) ==> if removed {
                exists|i: int|
                    {
                        &&& 0 <= i < old(self).users@.len()
                        &&& old(self).users@[i].id == id
                        &&& final(self).users@ == old(self).users@.remove(i)
                    }
            } else {
                final(self).users@ == old(self).users@ && forall|j: int|
                    0 <= j < old(self).users@.len() ==> old(self).users@[j].id != id
            },
    {
        let found = match self.find_by_id(id) {
            Ok(found) => found,
            Err(e) => {
                return Err(e);
            },
        };
        match found {
            Some(i) => {
                self.users.remove(i);
                proof {
                    assert forall|a: int, b: int|
                        0 <= a < b < self.users@.len() implies self.users@[a].id
                        != self.users@[b].id by {
                        assert(self.users@ == old(self).users@.remove(i as int));
                    }
                }
                Ok(true)
            },
            None => Ok(false),
        }
    }

    /// Replaces the stored API key of the record with this id (`None`
    /// revokes it); reports whether such a record exists. Setting a key some
    /// other record already holds is refused like any constraint violation.
    pub fn set_api_key(&mut self, id: i32, key: Option<String>) -> (r: Result<bool, StoreError>)
        requires
            old(self).wf(),
        ensures
            final(self).wf(),
            final(self).audit == old(self).audit,
            final(self).healthy == old(self).healthy,
            final(self).next_id == old(self).next_id,
            !old(self).healthy ==> r is Err,
            old(self).healthy && (match key {
                Some(k) => forall|j: int|
                    0 <= j < old(self).users@.len() && user_has_key(
                        #[trigger] old(self).users@[j],
                        k@,
                    ) ==> old(self).users@[j].id == id,
                None => true,
            }) ==> r is Ok,
            r matches Ok(changed) ==> if changed {
                exists|i: int|
                    {
                        &&& 0 <= i < old(self).users@.len()
                        &&& old(self).users@[i].id == id
                        &&& final(self).users@ == old(self).users@.update(
                            i,
                            User { api_key: key, ..old(self).users@[i] },
                        )
                    }
            } else {
                final(self).users@ == old(self).users@ && forall|j: int|
                    0 <= j < old(self).users@.len() ==> old(self).users@[j].id != id
            },
            r is Err ==> final(self).users@ == old(self).users@,
    {
        let found = match self.find_by_id(id) {
            Ok(found) => found,
            Err(e) => {
                return Err(e);
            },
        };
        match found {
            Some(i) => {
                match &key {
                    Some(k) => {
                        match self.find_by_api_key(k.as_str()) {
                            Ok(Some(other)) => {
                                if other != i {
                                    return Err(StoreError);
                                }
                            },
                            Ok(None) => {},
                            Err(e) => {
                                return Err(e);
                            },
                        }
                    },
                    None => {},
                }
                let ghost prev = self.users@;
                let entry = &mut self.users[i];
                entry.api_key = key;
                proof {
                    assert(self.users@ =~= prev.update(
                        i as int,
                        User { api_key: self.users@[i as int].api_key, ..prev[i as int] },
                    ));
                }
                Ok(true)
            },
            None => Ok(false),
        }
    }

    /// The newest usage records for one user, newest first, at most `limit`
    /// of them, rendered for the caller. Fails if and only if the store is
    /// unreachable.
    pub fn get_api_key_usage(&self, user_id: i32, limit: usize) -> (r: Result<
        Vec<ApiUsageResponse>,
        StoreError,
    >)
        ensures
            r is Err <==> !self.healthy,
            r matches Ok(rows) ==> {
                let idxs = recent_usage_indices(self.audit@, user_id, limit as nat);
                &&& rows@.len() == idxs.len()
                &&& forall|k: int|
                    0 <= k < idxs.len() ==> 0 <= #[trigger] idxs[k] < self.audit@.len()
                        && response_matches_usage(rows@[k], self.audit@[idxs[k]])
            },
    {
        if !self.healthy {
            return Err(StoreError);
        }
        let ghost full = self.audit@;
        let mut rows: Vec<ApiUsageResponse> = Vec::new();
        let ghost built: Seq<int> = Seq::empty();
        let mut i: usize = self.audit.len();
        proof {
            assert(full.subrange(0, i as int) =~= full);
            assert(built + recent_usage_indices(full, user_id, limit as nat)
                =~= recent_usage_indices(full, user_id, limit as nat));
        }
        let mut built_tracker = Ghost(built);
        while i > 0 && rows.len() < limit
            invariant
                full == self.audit@,
                0 <= i <= full.len(),
                rows@.len() == built_tracker@.len(),
                rows@.len() <= limit,
                forall|k: int|
                    0 <= k < built_tracker@.len() ==> 0 <= #[trigger] built_tracker@[k]
                        < full.len() && response_matches_usage(rows@[k], full[built_tracker@[k]]),
                recent_usage_indices(full, user_id, limit as nat) == built_tracker@
                    + recent_usage_indices(
                    full.subrange(0, i as int),
                    user_id,
                    (limit - rows@.len()) as nat,
                ),
            decreases i,
        {
            i = i - 1;
            proof {
                let pre = full.subrange(0, i as int + 1);
                assert(pre.drop_last() =~= full.subrange(0, i as int));
                assert(pre.last() == full[i as int]);
            }
            if self.audit[i].user_id == user_id {
                proof {
                    let pre = full.subrange(0, i as int + 1);
                    let rem = (limit - rows@.len()) as nat;
                    assert(recent_usage_indices(pre, user_id, rem) == seq![i as int]
                        + recent_usage_indices(full.subrange(0, i as int), user_id, (rem - 1) as nat));
                    assert(built_tracker@ + recent_usage_indices(pre, user_id, rem)
                        =~= built_tracker@.push(i as int) + recent_usage_indices(
                        full.subrange(0, i as int),
                        user_id,
                        (rem - 1) as nat,
                    ));
                }
                rows.push(self.audit[i].to_response());
                proof {
                    built_tracker@ = built_tracker@.push(i as int);
                }
            }
        }
        proof {
            if i == 0 {
                assert(full.subrange(0, 0) =~= Seq::<ApiUsage>::empty());
                assert(recent_usage_indices(
                    full.subrange(0, 0),
                    user_id,
                    (limit - rows@.len()) as nat,
                ) =~= Seq::<int>::empty());
            }
            assert(built_tracker@ + Seq::<int>::empty() =~= built_tracker@);
        }
        Ok(rows)
    }

    /// The permission-change route's work: refuses a tier outside the role
    /// model before touching the store, then overwrites the stored tier of
    /// the record with this id. The change is visible to the very next
    /// lookup — there is no cache to go stale.
    pub fn change_permission(&mut self, id: i32, permission: i32) -> (r: PermissionChange)
        requires
            old(self).wf(),
        ensures
            final(self).wf(),
            final(self).audit == old(self).audit,
            final(self).healthy == old(self).healthy,
            final(self).next_id == old(self).next_id,
            r == PermissionChange::InvalidTier <==> !spec_permission_is_valid(permission as int),
            spec_permission_is_valid(permission as int) ==> (r == PermissionChange::Failed <==> !old(
                self,
            ).healthy),
            r == PermissionChange::Changed ==> exists|i: int|
                {
                    &&& 0 <= i < old(self).users@.len()
                    &&& old(self).users@[i].id == id
                    &&& final(self).users@ == old(self).users@.update(
                        i,
                        User { permission: permission as i16, ..old(self).users@[i] },
                    )
                },
            r == PermissionChange::UnknownUser ==> old(self).healthy && forall|j: int|
                0 <= j < old(self).users@.len() ==> old(self).users@[j].id != id,
            r != PermissionChange::Changed ==> final(self).users@ == old(self).users@,
    {
        if !permission_is_valid(permission) {
            return PermissionChange::InvalidTier;
        }
        match self.set_permission(id, permission as i16) {
            Ok(true) => PermissionChange::Changed,
            Ok(false) => PermissionChange::UnknownUser,
            Err(_) => PermissionChange::Failed,
        }
    }

    /// Overwrites the stored permission tier of the record with this id;
    /// reports whether such a record exists. The change is visible to the
    /// very next lookup — there is no cache to go stale.
    pub fn set_permission(&mut self, id: i32, permission: i16) -> (r: Result<bool, StoreError>)
        requires
            old(self).wf(),
        ensures
            final(self).wf(),
            final(self).audit == old(self).audit,
            final(self).healthy == old(self).healthy,
            final(self).next_id == old(self).next_id,
            r is Err <==> !old(self).healthy,
            r matches Ok(changed) ==> if changed {
                exists|i: int|
                    {
                        &&& 0 <= i < old(self).users@.len()
                        &&& old(self).users@[i].id == id
                        &&& final(self).users@ == old(self).users@.update(
                            i,
                            User { permission, ..old(self).users@[i] },
                        )
                    }
            } else {
                final(self).users@ == old(self).users@ && forall|j: int|
                    0 <= j < old(self).users@.len() ==> old(self).users@[j].id != id
            },
            r is Err ==> final(self).users@ == old(self).users@,
    {
        let found = match self.find_by_id(id) {
            Ok(found) => found,
            Err(e) => {
                return Err(e);
            },
        };
        match found {
            Some(i) => {
                let ghost prev = self.users@;
                let entry = &mut self.users[i];
                entry.permission = permission;
                proof {
                    assert(self.users@ =~= prev.update(
                        i as int,
                        User { permission: self.users@[i as int].permission, ..prev[i as int] },
                    ));
                }
                Ok(true)
            },
            None => Ok(false),
        }
    }
}

} // verus!

//! The relational graph of users, permissions and access profiles, held as
//! one consistent snapshot, and the operations that read and change it.

pub mod laws;
pub mod view;
pub mod wf;

pub use self::view::{
    code_equal, code_id, code_not_of_user, code_of_user_with_id, code_other_than, code_text,
    owned_by, permission_id, permission_name, permission_named, permission_other_than,
    profile_edge, profile_edge_not_of_permission, profile_edge_not_of_profile,
    profile_edge_other_than, profile_id, profile_name, profile_named, profile_other_than,
    user_edge, user_edge_not_of_permission, user_edge_not_of_user, user_edge_other_than, user_id,
    user_name, user_named, user_other_than, user_with_id, GraphView, StoreError,
};
pub use self::view::{
    permission_name_taken, permission_replaced_by, profile_name_taken, profile_replaced_by,
    user_name_taken, user_replaced_by,
};

use vstd::prelude::*;
use vstd::string::*;

use crate::models::{
    AccessCode, AccessProfile, AccessProfilePermission, Permission, User, UserPermission,
};
use crate::seq_lemmas::{first_where, has_key, lemma_first_where_skip, top_key};

verus! {

/// One snapshot of the six tables. The fields are private: a graph is built
/// from `new` and the operations of this module, which keep it well formed.
pub struct AccessGraph {
    users: Vec<User>,
    access_codes: Vec<AccessCode>,
    permissions: Vec<Permission>,
    access_profiles: Vec<AccessProfile>,
    users_permissions: Vec<UserPermission>,
    access_profiles_permissions: Vec<AccessProfilePermission>,
}

impl View for AccessGraph {
    type V = GraphView;

    closed spec fn view(&self) -> GraphView {
        GraphView {
            users: self.users@,
            access_codes: self.access_codes@,
            permissions: self.permissions@,
            access_profiles: self.access_profiles@,
            users_permissions: self.users_permissions@,
            access_profiles_permissions: self.access_profiles_permissions@,
        }
    }
}

impl AccessGraph {
    /// The empty graph.
    pub fn new() -> (g: Self)
        ensures
            g@.users == Seq::<User>::empty(),
            g@.access_codes == Seq::<AccessCode>::empty(),
            g@.permissions == Seq::<Permission>::empty(),
            g@.access_profiles == Seq::<AccessProfile>::empty(),
            g@.users_permissions == Seq::<UserPermission>::empty(),
            g@.access_profiles_permissions == Seq::<AccessProfilePermission>::empty(),
            g@.wf(),
    {
        AccessGraph {
            users: Vec::new(),
            access_codes: Vec::new(),
            permissions: Vec::new(),
            access_profiles: Vec::new(),
            users_permissions: Vec::new(),
            access_profiles_permissions: Vec::new(),
        }
    }

    /// Whether an edge links the user to the permission.
    pub fn holds(&self, user_id: i32, permission_id: i32) -> (b: bool)
        ensures
            b == self@.user_holds(user_id, permission_id),
    {
        let mut i: usize = 0;
        while i < self.users_permissions.len()
            invariant
                i <= self.users_permissions.len(),
                forall|k: int|
                    0 <= k < i ==> self.users_permissions@[k] != (UserPermission {
                        user_id,
                        permission_id,
                    }),
            decreases self.users_permissions.len() - i,
        {
            let e = self.users_permissions[i];
            if e.user_id == user_id && e.permission_id == permission_id {
                return true;
            }
            i += 1;
        }
        false
    }

    /// Whether an edge links the access profile to the permission.
    pub fn admits(&self, access_profile_id: i32, permission_id: i32) -> (b: bool)
        ensures
            b == self@.profile_admits(access_profile_id, permission_id),
    {
        let mut i: usize = 0;
        while i < self.access_profiles_permissions.len()
            invariant
                i <= self.access_profiles_permissions.len(),
                forall|k: int|
                    0 <= k < i ==> self.access_profiles_permissions@[k] != (
                    AccessProfilePermission { access_profile_id, permission_id }),
            decreases self.access_profiles_permissions.len() - i,
        {
            let e = self.access_profiles_permissions[i];
            if e.access_profile_id == access_profile_id && e.permission_id == permission_id {
                return true;
            }
            i += 1;
        }
        false
    }

    /// Whether the access profile admits at least one of `permissions`.
    pub fn admits_any(&self, access_profile_id: i32, permissions: &Vec<Permission>) -> (b: bool)
        ensures
            b == self@.profile_admits_any(access_profile_id, permissions@),
    {
        let mut i: usize = 0;
        while i < permissions.len()
            invariant
                i <= permissions.len(),
                forall|k: int|
                    0 <= k < i ==> !self@.profile_admits(access_profile_id, permissions@[k].id),
            decreases permissions.len() - i,
        {
            if self.admits(access_profile_id, permissions[i].id) {
                return true;
            }
            i += 1;
        }
        false
    }

    /// The permissions linked to `user`, each once, in table order.
    pub fn permissions_of(&self, user: &User) -> (r: Vec<Permission>)
        ensures
            r@ == self@.permissions_of(user.id),
    {
        let ghost keep = self@.held_by(user.id);
        let mut out: Vec<Permission> = Vec::new();
        let mut i: usize = 0;
        while i < self.permissions.len()
            invariant
                i <= self.permissions.len(),
                keep == self@.held_by(user.id),
                out@ == self.permissions@.take(i as int).filter(keep),
            decreases self.permissions.len() - i,
        {
            let held = self.holds(user.id, self.permissions[i].id);
            proof {
                self.permissions@.lemma_take_succ_push(i as int);
                self.permissions@.take(i as int).lemma_filter_push(
                    self.permissions@[i as int],
                    keep,
                );
            }
            if held {
                out.push(self.permissions[i].clone());
            }
            i += 1;
        }
        proof {
            self.permissions@.lemma_take_len();
        }
        out
    }

    /// The users linked to `permission`, each once, in table order.
    pub fn users_of(&self, permission: &Permission) -> (r: Vec<User>)
        ensures
            r@ == self@.users_of(permission.id),
    {
        let ghost keep = self@.holders_of(permission.id);
        let mut out: Vec<User> = Vec::new();
        let mut i: usize = 0;
        while i < self.users.len()
            invariant
                i <= self.users.len(),
                keep == self@.holders_of(permission.id),
                out@ == self.users@.take(i as int).filter(keep),
            decreases self.users.len() - i,
        {
            let held = self.holds(self.users[i].id, permission.id);
            proof {
                self.users@.lemma_take_succ_push(i as int);
                self.users@.take(i as int).lemma_filter_push(self.users@[i as int], keep);
            }
            if held {
                out.push(self.users[i].clone());
            }
            i += 1;
        }
        proof {
            self.users@.lemma_take_len();
        }
        out
    }

    /// The access profiles linked to `permission`, each once, in table order.
    pub fn profiles_of(&self, permission: &Permission) -> (r: Vec<AccessProfile>)
        ensures
            r@ == self@.profiles_of(permission.id),
    {
        let ghost keep = self@.admitting(permission.id);
        let mut out: Vec<AccessProfile> = Vec::new();
        let mut i: usize = 0;
        while i < self.access_profiles.len()
            invariant
                i <= self.access_profiles.len(),
                keep == self@.admitting(permission.id),
                out@ == self.access_profiles@.take(i as int).filter(keep),
            decreases self.access_profiles.len() - i,
        {
            let linked = self.admits(self.access_profiles[i].id, permission.id);
            proof {
                self.access_profiles@.lemma_take_succ_push(i as int);
                self.access_profiles@.take(i as int).lemma_filter_push(
                    self.access_profiles@[i as int],
                    keep,
                );
            }
            if linked {
                out.push(self.access_profiles[i].clone());
            }
            i += 1;
        }
        proof {
            self.access_profiles@.lemma_take_len();
        }
        out
    }

    /// The access profiles linked to at least one of `permissions`, each
    /// once, in table order.
    pub fn profiles_of_all(&self, permissions: &Vec<Permission>) -> (r: Vec<AccessProfile>)
        ensures
            r@ == self@.profiles_of_all(permissions@),
    {
        let ghost keep = self@.admitting_any(permissions@);
        let mut out: Vec<AccessProfile> = Vec::new();
        let mut i: usize = 0;
        while i < self.access_profiles.len()
            invariant
                i <= self.access_profiles.len(),
                keep == self@.admitting_any(permissions@),
                out@ == self.access_profiles@.take(i as int).filter(keep),
            decreases self.access_profiles.len() - i,
        {
            let linked = self.admits_any(self.access_profiles[i].id, permissions);
            proof {
                self.access_profiles@.lemma_take_succ_push(i as int);
                self.access_profiles@.take(i as int).lemma_filter_push(
                    self.access_profiles@[i as int],
                    keep,
                );
            }
            if linked {
                out.push(self.access_profiles[i].clone());
            }
            i += 1;
        }
        proof {
            self.access_profiles@.lemma_take_len();
        }
        out
    }

    /// The permissions that `access_profile` admits, each once, in table
    /// order.
    pub fn permissions_of_profile(&self, access_profile: &AccessProfile) -> (r: Vec<Permission>)
        ensures
            r@ == self@.permissions_of_profile(access_profile.id),
    {
        let ghost keep = self@.admitted_by(access_profile.id);
        let mut out: Vec<Permission> = Vec::new();
        let mut i: usize = 0;
        while i < self.permissions.len()
            invariant
                i <= self.permissions.len(),
                keep == self@.admitted_by(access_profile.id),
                out@ == self.permissions@.take(i as int).filter(keep),
            decreases self.permissions.len() - i,
        {
            let linked = self.admits(access_profile.id, self.permissions[i].id);
            proof {
                self.permissions@.lemma_take_succ_push(i as int);
                self.permissions@.take(i as int).lemma_filter_push(
                    self.permissions@[i as int],
                    keep,
                );
            }
            if linked {
                out.push(self.permissions[i].clone());
            }
            i += 1;
        }
        proof {
            self.permissions@.lemma_take_len();
        }
        out
    }

    /// The access codes that belong to `user`, in table order.
    pub fn access_codes_of(&self, user: &User) -> (r: Vec<AccessCode>)
        ensures
            r@ == self@.access_codes_of(user.id),
    {
        let ghost keep = owned_by(user.id);
        let mut out: Vec<AccessCode> = Vec::new();
        let mut i: usize = 0;
        while i < self.access_codes.len()
            invariant
                i <= self.access_codes.len(),
                keep == owned_by(user.id),
                out@ == self.access_codes@.take(i as int).filter(keep),
            decreases self.access_codes.len() - i,
        {
            proof {
                self.access_codes@.lemma_take_succ_push(i as int);
                self.access_codes@.take(i as int).lemma_filter_push(
                    self.access_codes@[i as int],
                    keep,
                );
            }
            if self.access_codes[i].user == user.id {
                out.push(self.access_codes[i].clone());
            }
            i += 1;
        }
        proof {
            self.access_codes@.lemma_take_len();
        }
        out
    }
}

impl AccessGraph {
    /// The user named `name`.
    pub fn find_user(&self, name: &str) -> (r: Option<User>)
        ensures
            r == first_where(self@.users, user_named(name@)),
    {
        let wanted = String::from_str(name);
        let mut i: usize = 0;
        proof {
            assert(self.users@.skip(0) =~= self.users@);
        }
        while i < self.users.len()
            invariant
                i <= self.users.len(),
                wanted@ == name@,
                first_where(self.users@, user_named(name@)) == first_where(
                    self.users@.skip(i as int),
                    user_named(name@),
                ),
            decreases self.users.len() - i,
        {
            if self.users[i].name == wanted {
                return Some(self.users[i].clone());
            }
            proof {
                lemma_first_where_skip(self.users@, user_named(name@), i as int);
            }
            i += 1;
        }
        None
    }

    /// The user with the id `id`.
    pub fn find_user_by_id(&self, id: i32) -> (r: Option<User>)
        ensures
            r == first_where(self@.users, user_with_id(id)),
    {
        let mut i: usize = 0;
        proof {
            assert(self.users@.skip(0) =~= self.users@);
        }
        while i < self.users.len()
            invariant
                i <= self.users.len(),
                first_where(self.users@, user_with_id(id)) == first_where(
                    self.users@.skip(i as int),
                    user_with_id(id),
                ),
            decreases self.users.len() - i,
        {
            if self.users[i].id == id {
                return Some(self.users[i].clone());
            }
            proof {
                lemma_first_where_skip(self.users@, user_with_id(id), i as int);
            }
            i += 1;
        }
        None
    }

    /// The permission named `name`.
    pub fn find_permission(&self, name: &str) -> (r: Option<Permission>)
        ensures
            r == first_where(self@.permissions, permission_named(name@)),
    {
        let wanted = String::from_str(name);
        let mut i: usize = 0;
        proof {
            assert(self.permissions@.skip(0) =~= self.permissions@);
        }
        while i < self.permissions.len()
            invariant
                i <= self.permissions.len(),
                wanted@ == name@,
                first_where(self.permissions@, permission_named(name@)) == first_where(
                    self.permissions@.skip(i as int),
                    permission_named(name@),
                ),
            decreases self.permissions.len() - i,
        {
            if self.permissions[i].name == wanted {
                return Some(self.permissions[i].clone());
            }
            proof {
                lemma_first_where_skip(self.permissions@, permission_named(name@), i as int);
            }
            i += 1;
        }
        None
    }

    /// The access profile named `name`.
    pub fn find_access_profile(&self, name: &str) -> (r: Option<AccessProfile>)
        ensures
            r == first_where(self@.access_profiles, profile_named(name@)),
    {
        let wanted = String::from_str(name);
        let mut i: usize = 0;
        proof {
            assert(self.access_profiles@.skip(0) =~= self.access_profiles@);
        }
        while i < self.access_profiles.len()
            invariant
                i <= self.access_profiles.len(),
                wanted@ == name@,
                first_where(self.access_profiles@, profile_named(name@)) == first_where(
                    self.access_profiles@.skip(i as int),
                    profile_named(name@),
                ),
            decreases self.access_profiles.len() - i,
        {
            if self.access_profiles[i].name == wanted {
                return Some(self.access_profiles[i].clone());
            }
            proof {
                lemma_first_where_skip(self.access_profiles@, profile_named(name@), i as int);
            }
            i += 1;
        }
        None
    }

    /// The access code row whose text is `code`.
    pub fn find_access_code(&self, code: &str) -> (r: Option<AccessCode>)
        ensures
            r == first_where(self@.access_codes, code_equal(code@)),
    {
        let wanted = String::from_str(code);
        let mut i: usize = 0;
        proof {
            assert(self.access_codes@.skip(0) =~= self.access_codes@);
        }
        while i < self.access_codes.len()
            invariant
                i <= self.access_codes.len(),
                wanted@ == code@,
                first_where(self.access_codes@, code_equal(code@)) == first_where(
                    self.access_codes@.skip(i as int),
                    code_equal(code@),
                ),
            decreases self.access_codes.len() - i,
        {
            if self.access_codes[i].code == wanted {
                return Some(self.access_codes[i].clone());
            }
            proof {
                lemma_first_where_skip(self.access_codes@, code_equal(code@), i as int);
            }
            i += 1;
        }
        None
    }

    /// The access code with the id `id`, if it belongs to `user`.
    pub fn find_access_code_of(&self, user: &User, id: i32) -> (r: Option<AccessCode>)
        ensures
            r == first_where(self@.access_codes, code_of_user_with_id(user.id, id)),
    {
        let mut i: usize = 0;
        proof {
            assert(self.access_codes@.skip(0) =~= self.access_codes@);
        }
        while i < self.access_codes.len()
            invariant
                i <= self.access_codes.len(),
                first_where(self.access_codes@, code_of_user_with_id(user.id, id)) == first_where(
                    self.access_codes@.skip(i as int),
                    code_of_user_with_id(user.id, id),
                ),
            decreases self.access_codes.len() - i,
        {
            if self.access_codes[i].user == user.id && self.access_codes[i].id == id {
                return Some(self.access_codes[i].clone());
            }
            proof {
                lemma_first_where_skip(
                    self.access_codes@,
                    code_of_user_with_id(user.id, id),
                    i as int,
                );
            }
            i += 1;
        }
        None
    }

    /// The first access profile row, if there is any.
    pub fn first_access_profile(&self) -> (r: Option<AccessProfile>)
        ensures
            r == if self@.access_profiles.len() > 0 {
                Some(self@.access_profiles[0])
            } else {
                None
            },
    {
        if self.access_profiles.len() > 0 {
            Some(self.access_profiles[0].clone())
        } else {
            None
        }
    }

    /// The access profile rows, in table order.
    pub fn all_access_profiles(&self) -> (r: Vec<AccessProfile>)
        ensures
            r@ == self@.access_profiles,
    {
        let mut out: Vec<AccessProfile> = Vec::new();
        let mut i: usize = 0;
        while i < self.access_profiles.len()
            invariant
                i <= self.access_profiles.len(),
                out@ == self.access_profiles@.take(i as int),
            decreases self.access_profiles.len() - i,
        {
            proof {
                self.access_profiles@.lemma_take_succ_push(i as int);
            }
            out.push(self.access_profiles[i].clone());
            i += 1;
        }
        proof {
            self.access_profiles@.lemma_take_len();
        }
        out
    }

    /// The permission rows, in table order.
    pub fn all_permissions(&self) -> (r: Vec<Permission>)
        ensures
            r@ == self@.permissions,
    {
        let mut out: Vec<Permission> = Vec::new();
        let mut i: usize = 0;
        while i < self.permissions.len()
            invariant
                i <= self.permissions.len(),
                out@ == self.permissions@.take(i as int),
            decreases self.permissions.len() - i,
        {
            proof {
                self.permissions@.lemma_take_succ_push(i as int);
            }
            out.push(self.permissions[i].clone());
            i += 1;
        }
        proof {
            self.permissions@.lemma_take_len();
        }
        out
    }

    /// The user rows, in table order.
    pub fn all_users(&self) -> (r: Vec<User>)
        ensures
            r@ == self@.users,
    {
        let mut out: Vec<User> = Vec::new();
        let mut i: usize = 0;
        while i < self.users.len()
            invariant
                i <= self.users.len(),
                out@ == self.users@.take(i as int),
            decreases self.users.len() - i,
        {
            proof {
                self.users@.lemma_take_succ_push(i as int);
            }
            out.push(self.users[i].clone());
            i += 1;
        }
        proof {
            self.users@.lemma_take_len();
        }
        out
    }
}

impl AccessGraph {
    /// Whether a user row has the id `id`.
    pub fn has_user(&self, id: i32) -> (b: bool)
        ensures
            b == has_key(self@.users, user_id(), id),
    {
        let mut i: usize = 0;
        while i < self.users.len()
            invariant
                i <= self.users.len(),
                forall|k: int| 0 <= k < i ==> (#[trigger] self.users@[k]).id != id,
            decreases self.users.len() - i,
        {
            if self.users[i].id == id {
                return true;
            }
            i += 1;
        }
        false
    }

    /// Whether a permission row has the id `id`.
    pub fn has_permission(&self, id: i32) -> (b: bool)
        ensures
            b == has_key(self@.permissions, permission_id(), id),
    {
        let mut i: usize = 0;
        while i < self.permissions.len()
            invariant
                i <= self.permissions.len(),
                forall|k: int| 0 <= k < i ==> (#[trigger] self.permissions@[k]).id != id,
            decreases self.permissions.len() - i,
        {
            if self.permissions[i].id == id {
                return true;
            }
            i += 1;
        }
        false
    }

    /// Whether an access profile row has the id `id`.
    pub fn has_access_profile(&self, id: i32) -> (b: bool)
        ensures
            b == has_key(self@.access_profiles, profile_id(), id),
    {
        let mut i: usize = 0;
        while i < self.access_profiles.len()
            invariant
                i <= self.access_profiles.len(),
                forall|k: int| 0 <= k < i ==> (#[trigger] self.access_profiles@[k]).id != id,
            decreases self.access_profiles.len() - i,
        {
            if self.access_profiles[i].id == id {
                return true;
            }
            i += 1;
        }
        false
    }

    /// Adds a user row. The store refuses a row whose id or name is taken.
    pub fn insert_user(&mut self, user: User) -> (r: Result<(), StoreError>)
        requires
            old(self)@.wf(),
        ensures
            final(self)@.wf(),
            r is Ok <==> !has_key(old(self)@.users, user_id(), user.id) && !has_key(
                old(self)@.users,
                user_name(),
                user.name@,
            ),
            r is Ok ==> final(self)@ == old(self)@.with_user(user),
            r is Err ==> r == Err::<(), StoreError>(StoreError::UniqueViolation) && final(self)@
                == old(self)@,
    {
        let mut i: usize = 0;
        while i < self.users.len()
            invariant
                i <= self.users.len(),
                *self == *old(self),
                old(self)@.wf(),
                forall|k: int|
                    0 <= k < i ==> (#[trigger] self.users@[k]).id != user.id && self.users@[k].name@
                        != user.name@,
            decreases self.users.len() - i,
        {
            if self.users[i].id == user.id || self.users[i].name == user.name {
                proof {
                    if self.users@[i as int].id == user.id {
                        assert(user_id()(self.users@[i as int]) == user.id);
                    } else {
                        assert(user_name()(self.users@[i as int]) == user.name@);
                    }
                }
                return Err(StoreError::UniqueViolation);
            }
            i += 1;
        }
        proof {
            old(self)@.lemma_with_user_wf(user);
        }
        self.users.push(user);
        assert(self@ =~= old(self)@.with_user(user));
        Ok(())
    }

    /// Adds a permission row. The store refuses a row whose id or name is
    /// taken.
    pub fn insert_permission(&mut self, permission: Permission) -> (r: Result<(), StoreError>)
        requires
            old(self)@.wf(),
        ensures
            final(self)@.wf(),
            r is Ok <==> !has_key(old(self)@.permissions, permission_id(), permission.id)
                && !has_key(old(self)@.permissions, permission_name(), permission.name@),
            r is Ok ==> final(self)@ == old(self)@.with_permission(permission),
            r is Err ==> r == Err::<(), StoreError>(StoreError::UniqueViolation) && final(self)@
                == old(self)@,
    {
        let mut i: usize = 0;
        while i < self.permissions.len()
            invariant
                i <= self.permissions.len(),
                *self == *old(self),
                old(self)@.wf(),
                forall|k: int|
                    0 <= k < i ==> (#[trigger] self.permissions@[k]).id != permission.id
                        && self.permissions@[k].name@ != permission.name@,
            decreases self.permissions.len() - i,
        {
            if self.permissions[i].id == permission.id || self.permissions[i].name
                == permission.name {
                proof {
                    if self.permissions@[i as int].id == permission.id {
                        assert(permission_id()(self.permissions@[i as int]) == permission.id);
                    } else {
                        assert(permission_name()(self.permissions@[i as int]) == permission.name@);
                    }
                }
                return Err(StoreError::UniqueViolation);
            }
            i += 1;
        }
        proof {
            old(self)@.lemma_with_permission_wf(permission);
        }
        self.permissions.push(permission);
        assert(self@ =~= old(self)@.with_permission(permission));
        Ok(())
    }

    /// Adds an access profile row. The store refuses a row whose id or name
    /// is taken.
    pub fn insert_access_profile(&mut self, access_profile: AccessProfile) -> (r: Result<
        (),
        StoreError,
    >)
        requires
            old(self)@.wf(),
        ensures
            final(self)@.wf(),
            r is Ok <==> !has_key(old(self)@.access_profiles, profile_id(), access_profile.id)
                && !has_key(old(self)@.access_profiles, profile_name(), access_profile.name@),
            r is Ok ==> final(self)@ == old(self)@.with_access_profile(access_profile),
            r is Err ==> r == Err::<(), StoreError>(StoreError::UniqueViolation) && final(self)@
                == old(self)@,
    {
        let mut i: usize = 0;
        while i < self.access_profiles.len()
            invariant
                i <= self.access_profiles.len(),
                *self == *old(self),
                old(self)@.wf(),
                forall|k: int|
                    0 <= k < i ==> (#[trigger] self.access_profiles@[k]).id != access_profile.id
                        && self.access_profiles@[k].name@ != access_profile.name@,
            decreases self.access_profiles.len() - i,
        {
            if self.access_profiles[i].id == access_profile.id || self.access_profiles[i].name
                == access_profile.name {
                proof {
                    if self.access_profiles@[i as int].id == access_profile.id {
                        assert(profile_id()(self.access_profiles@[i as int]) == access_profile.id);
                    } else {
                        assert(profile_name()(self.access_profiles@[i as int])
                            == access_profile.name@);
                    }
                }
                return Err(StoreError::UniqueViolation);
            }
            i += 1;
        }
        proof {
            old(self)@.lemma_with_access_profile_wf(access_profile);
        }
        self.access_profiles.push(access_profile);
        assert(self@ =~= old(self)@.with_access_profile(access_profile));
        Ok(())
    }

    /// Adds an access code row. The store refuses a code whose user is not
    /// there, and one whose id or text is taken.
    pub fn insert_access_code(&mut self, access_code: AccessCode) -> (r: Result<(), StoreError>)
        requires
            old(self)@.wf(),
        ensures
            final(self)@.wf(),
            r == Err::<(), StoreError>(StoreError::ForeignKeyViolation) <==> !has_key(
                old(self)@.users,
                user_id(),
                access_code.user,
            ),
            r == Err::<(), StoreError>(StoreError::UniqueViolation) <==> has_key(
                old(self)@.users,
                user_id(),
                access_code.user,
            ) && (has_key(old(self)@.access_codes, code_id(), access_code.id) || has_key(
                old(self)@.access_codes,
                code_text(),
                access_code.code@,
            )),
            r is Ok ==> final(self)@ == old(self)@.with_access_code(access_code),
            r is Err ==> final(self)@ == old(self)@,
    {
        if !self.has_user(access_code.user) {
            return Err(StoreError::ForeignKeyViolation);
        }
        let mut i: usize = 0;
        while i < self.access_codes.len()
            invariant
                i <= self.access_codes.len(),
                *self == *old(self),
                old(self)@.wf(),
                has_key(self@.users, user_id(), access_code.user),
                forall|k: int|
                    0 <= k < i ==> (#[trigger] self.access_codes@[k]).id != access_code.id
                        && self.access_codes@[k].code@ != access_code.code@,
            decreases self.access_codes.len() - i,
        {
            if self.access_codes[i].id == access_code.id || self.access_codes[i].code
                == access_code.code {
                proof {
                    if self.access_codes@[i as int].id == access_code.id {
                        assert(code_id()(self.access_codes@[i as int]) == access_code.id);
                    } else {
                        assert(code_text()(self.access_codes@[i as int]) == access_code.code@);
                    }
                }
                return Err(StoreError::UniqueViolation);
            }
            i += 1;
        }
        proof {
            old(self)@.lemma_with_access_code_wf(access_code);
        }
        self.access_codes.push(access_code);
        assert(self@ =~= old(self)@.with_access_code(access_code));
        Ok(())
    }

    /// Links a user to a permission. The store refuses an edge to a row that
    /// is not there, and an edge that is there already.
    pub fn assign_user_permission(&mut self, user_id: i32, permission_id: i32) -> (r: Result<
        (),
        StoreError,
    >)
        requires
            old(self)@.wf(),
        ensures
            final(self)@.wf(),
            r == Err::<(), StoreError>(StoreError::ForeignKeyViolation) <==> !(has_key(
                old(self)@.users,
                self::user_id(),
                user_id,
            ) && has_key(old(self)@.permissions, self::permission_id(), permission_id)),
            r == Err::<(), StoreError>(StoreError::UniqueViolation) <==> old(self)@.user_holds(
                user_id,
                permission_id,
            ),
            r is Ok ==> final(self)@ == old(self)@.with_user_permission(
                UserPermission { user_id, permission_id },
            ),
            r is Err ==> final(self)@ == old(self)@,
    {
        let edge = UserPermission { user_id, permission_id };
        proof {
            if self@.user_holds(user_id, permission_id) {
                let k = choose|k: int|
                    0 <= k < self@.users_permissions.len() && self@.users_permissions[k] == edge;
                assert(self@.users_permissions[k].user_id == user_id);
            }
        }
        if !self.has_user(user_id) || !self.has_permission(permission_id) {
            return Err(StoreError::ForeignKeyViolation);
        }
        if self.holds(user_id, permission_id) {
            return Err(StoreError::UniqueViolation);
        }
        proof {
            old(self)@.lemma_with_user_permission_wf(edge);
        }
        self.users_permissions.push(edge);
        assert(self@ =~= old(self)@.with_user_permission(edge));
        Ok(())
    }

    /// Links an access profile to a permission. The store refuses an edge to
    /// a row that is not there, and an edge that is there already.
    pub fn assign_profile_permission(&mut self, access_profile_id: i32, permission_id: i32) -> (r:
        Result<(), StoreError>)
        requires
            old(self)@.wf(),
        ensures
            final(self)@.wf(),
            r == Err::<(), StoreError>(StoreError::ForeignKeyViolation) <==> !(has_key(
                old(self)@.access_profiles,
                profile_id(),
                access_profile_id,
            ) && has_key(old(self)@.permissions, self::permission_id(), permission_id)),
            r == Err::<(), StoreError>(StoreError::UniqueViolation) <==> old(self)@.profile_admits(
                access_profile_id,
                permission_id,
            ),
            r is Ok ==> final(self)@ == old(self)@.with_profile_permission(
                AccessProfilePermission { access_profile_id, permission_id },
            ),
            r is Err ==> final(self)@ == old(self)@,
    {
        let edge = AccessProfilePermission { access_profile_id, permission_id };
        proof {
            if self@.profile_admits(access_profile_id, permission_id) {
                let k = choose|k: int|
                    0 <= k < self@.access_profiles_permissions.len()
                        && self@.access_profiles_permissions[k] == edge;
                assert(self@.access_profiles_permissions[k].access_profile_id
                    == access_profile_id);
            }
        }
        if !self.has_access_profile(access_profile_id) || !self.has_permission(permission_id) {
            return Err(StoreError::ForeignKeyViolation);
        }
        if self.admits(access_profile_id, permission_id) {
            return Err(StoreError::UniqueViolation);
        }
        proof {
            old(self)@.lemma_with_profile_permission_wf(edge);
        }
        self.access_profiles_permissions.push(edge);
        assert(self@ =~= old(self)@.with_profile_permission(edge));
        Ok(())
    }
}

impl AccessGraph {
    fn drop_user_edges_of_user(&mut self, user_id: i32)
        requires
            old(self)@.wf(),
        ensures
            final(self)@ == old(self)@.without_user_edges_of_user(user_id),
            final(self)@.wf(),
    {
        let ghost keep = user_edge_not_of_user(user_id);
        let mut out: Vec<UserPermission> = Vec::new();
        let mut i: usize = 0;
        while i < self.users_permissions.len()
            invariant
                i <= self.users_permissions.len(),
                *self == *old(self),
                keep == user_edge_not_of_user(user_id),
                out@ == self.users_permissions@.take(i as int).filter(keep),
            decreases self.users_permissions.len() - i,
        {
            proof {
                self.users_permissions@.lemma_take_succ_push(i as int);
                self.users_permissions@.take(i as int).lemma_filter_push(
                    self.users_permissions@[i as int],
                    keep,
                );
            }
            let e = self.users_permissions[i];
            if e.user_id != user_id {
                out.push(e);
            }
            i += 1;
        }
        proof {
            self.users_permissions@.lemma_take_len();
        }
        self.users_permissions = out;
        proof {
            old(self)@.lemma_fewer_user_edges_wf(user_edge_not_of_user(user_id));
            assert(self@ =~= old(self)@.without_user_edges_of_user(user_id));
        }
    }

    fn drop_user_edges_of_permission(&mut self, permission_id: i32)
        requires
            old(self)@.wf(),
        ensures
            final(self)@ == old(self)@.without_user_edges_of_permission(permission_id),
            final(self)@.wf(),
    {
        let ghost keep = user_edge_not_of_permission(permission_id);
        let mut out: Vec<UserPermission> = Vec::new();
        let mut i: usize = 0;
        while i < self.users_permissions.len()
            invariant
                i <= self.users_permissions.len(),
                *self == *old(self),
                keep == user_edge_not_of_permission(permission_id),
                out@ == self.users_permissions@.take(i as int).filter(keep),
            decreases self.users_permissions.len() - i,
        {
            proof {
                self.users_permissions@.lemma_take_succ_push(i as int);
                self.users_permissions@.take(i as int).lemma_filter_push(
                    self.users_permissions@[i as int],
                    keep,
                );
            }
            let e = self.users_permissions[i];
            if e.permission_id != permission_id {
                out.push(e);
            }
            i += 1;
        }
        proof {
            self.users_permissions@.lemma_take_len();
        }
        self.users_permissions = out;
        proof {
            old(self)@.lemma_fewer_user_edges_wf(user_edge_not_of_permission(permission_id));
            assert(self@ =~= old(self)@.without_user_edges_of_permission(permission_id));
        }
    }

    fn drop_profile_edges_of_permission(&mut self, permission_id: i32)
        requires
            old(self)@.wf(),
        ensures
            final(self)@ == old(self)@.without_profile_edges_of_permission(permission_id),
            final(self)@.wf(),
    {
        let ghost keep = profile_edge_not_of_permission(permission_id);
        let mut out: Vec<AccessProfilePermission> = Vec::new();
        let mut i: usize = 0;
        while i < self.access_profiles_permissions.len()
            invariant
                i <= self.access_profiles_permissions.len(),
                *self == *old(self),
                keep == profile_edge_not_of_permission(permission_id),
                out@ == self.access_profiles_permissions@.take(i as int).filter(keep),
            decreases self.access_profiles_permissions.len() - i,
        {
            proof {
                self.access_profiles_permissions@.lemma_take_succ_push(i as int);
                self.access_profiles_permissions@.take(i as int).lemma_filter_push(
                    self.access_profiles_permissions@[i as int],
                    keep,
                );
            }
            let e = self.access_profiles_permissions[i];
            if e.permission_id != permission_id {
                out.push(e);
            }
            i += 1;
        }
        proof {
            self.access_profiles_permissions@.lemma_take_len();
        }
        self.access_profiles_permissions = out;
        proof {
            old(self)@.lemma_fewer_profile_edges_wf(profile_edge_not_of_permission(permission_id));
            assert(self@ =~= old(self)@.without_profile_edges_of_permission(permission_id));
        }
    }

    fn drop_profile_edges_of_profile(&mut self, access_profile_id: i32)
        requires
            old(self)@.wf(),
        ensures
            final(self)@ == old(self)@.without_profile_edges_of_profile(access_profile_id),
            final(self)@.wf(),
    {
        let ghost keep = profile_edge_not_of_profile(access_profile_id);
        let mut out: Vec<AccessProfilePermission> = Vec::new();
        let mut i: usize = 0;
        while i < self.access_profiles_permissions.len()
            invariant
                i <= self.access_profiles_permissions.len(),
                *self == *old(self),
                keep == profile_edge_not_of_profile(access_profile_id),
                out@ == self.access_profiles_permissions@.take(i as int).filter(keep),
            decreases self.access_profiles_permissions.len() - i,
        {
            proof {
                self.access_profiles_permissions@.lemma_take_succ_push(i as int);
                self.access_profiles_permissions@.take(i as int).lemma_filter_push(
                    self.access_profiles_permissions@[i as int],
                    keep,
                );
            }
            let e = self.access_profiles_permissions[i];
            if e.access_profile_id != access_profile_id {
                out.push(e);
            }
            i += 1;
        }
        proof {
            self.access_profiles_permissions@.lemma_take_len();
        }
        self.access_profiles_permissions = out;
        proof {
            old(self)@.lemma_fewer_profile_edges_wf(profile_edge_not_of_profile(access_profile_id));
            assert(self@ =~= old(self)@.without_profile_edges_of_profile(access_profile_id));
        }
    }

    fn drop_codes_of_user(&mut self, user_id: i32)
        requires
            old(self)@.wf(),
        ensures
            final(self)@ == old(self)@.without_codes_of_user(user_id),
            final(self)@.wf(),
    {
        let ghost keep = code_not_of_user(user_id);
        let mut out: Vec<AccessCode> = Vec::new();
        let mut i: usize = 0;
        while i < self.access_codes.len()
            invariant
                i <= self.access_codes.len(),
                *self == *old(self),
                keep == code_not_of_user(user_id),
                out@ == self.access_codes@.take(i as int).filter(keep),
            decreases self.access_codes.len() - i,
        {
            proof {
                self.access_codes@.lemma_take_succ_push(i as int);
                self.access_codes@.take(i as int).lemma_filter_push(
                    self.access_codes@[i as int],
                    keep,
                );
            }
            if self.access_codes[i].user != user_id {
                out.push(self.access_codes[i].clone());
            }
            i += 1;
        }
        proof {
            self.access_codes@.lemma_take_len();
        }
        self.access_codes = out;
        proof {
            old(self)@.lemma_fewer_codes_wf(code_not_of_user(user_id));
            assert(self@ =~= old(self)@.without_codes_of_user(user_id));
        }
    }

    fn drop_user_row(&mut self, user_id: i32)
        ensures
            final(self)@ == old(self)@.without_user_row(user_id),
    {
        let ghost keep = user_other_than(user_id);
        let mut out: Vec<User> = Vec::new();
        let mut i: usize = 0;
        while i < self.users.len()
            invariant
                i <= self.users.len(),
                *self == *old(self),
                keep == user_other_than(user_id),
                out@ == self.users@.take(i as int).filter(keep),
            decreases self.users.len() - i,
        {
            proof {
                self.users@.lemma_take_succ_push(i as int);
                self.users@.take(i as int).lemma_filter_push(self.users@[i as int], keep);
            }
            if self.users[i].id != user_id {
                out.push(self.users[i].clone());
            }
            i += 1;
        }
        proof {
            self.users@.lemma_take_len();
        }
        self.users = out;
        proof {
            assert(self@ =~= old(self)@.without_user_row(user_id));
        }
    }

    fn drop_permission_row(&mut self, permission_id: i32)
        ensures
            final(self)@ == old(self)@.without_permission_row(permission_id),
    {
        let ghost keep = permission_other_than(permission_id);
        let mut out: Vec<Permission> = Vec::new();
        let mut i: usize = 0;
        while i < self.permissions.len()
            invariant
                i <= self.permissions.len(),
                *self == *old(self),
                keep == permission_other_than(permission_id),
                out@ == self.permissions@.take(i as int).filter(keep),
            decreases self.permissions.len() - i,
        {
            proof {
                self.permissions@.lemma_take_succ_push(i as int);
                self.permissions@.take(i as int).lemma_filter_push(
                    self.permissions@[i as int],
                    keep,
                );
            }
            if self.permissions[i].id != permission_id {
                out.push(self.permissions[i].clone());
            }
            i += 1;
        }
        proof {
            self.permissions@.lemma_take_len();
        }
        self.permissions = out;
        proof {
            assert(self@ =~= old(self)@.without_permission_row(permission_id));
        }
    }

    fn drop_profile_row(&mut self, access_profile_id: i32)
        ensures
            final(self)@ == old(self)@.without_profile_row(access_profile_id),
    {
        let ghost keep = profile_other_than(access_profile_id);
        let mut out: Vec<AccessProfile> = Vec::new();
        let mut i: usize = 0;
        while i < self.access_profiles.len()
            invariant
                i <= self.access_profiles.len(),
                *self == *old(self),
                keep == profile_other_than(access_profile_id),
                out@ == self.access_profiles@.take(i as int).filter(keep),
            decreases self.access_profiles.len() - i,
        {
            proof {
                self.access_profiles@.lemma_take_succ_push(i as int);
                self.access_profiles@.take(i as int).lemma_filter_push(
                    self.access_profiles@[i as int],
                    keep,
                );
            }
            if self.access_profiles[i].id != access_profile_id {
                out.push(self.access_profiles[i].clone());
            }
            i += 1;
        }
        proof {
            self.access_profiles@.lemma_take_len();
        }
        self.access_profiles = out;
        proof {
            assert(self@ =~= old(self)@.without_profile_row(access_profile_id));
        }
    }

    /// Unlinks a user from a permission. Says whether there was such an edge.
    pub fn remove_user_permission(&mut self, user_id: i32, permission_id: i32) -> (removed: bool)
        requires
            old(self)@.wf(),
        ensures
            final(self)@.wf(),
            removed == old(self)@.user_holds(user_id, permission_id),
            final(self)@ == old(self)@.without_user_permission(
                UserPermission { user_id, permission_id },
            ),
    {
        let edge = UserPermission { user_id, permission_id };
        let removed = self.holds(user_id, permission_id);
        let ghost keep = user_edge_other_than(edge);
        let mut out: Vec<UserPermission> = Vec::new();
        let mut i: usize = 0;
        while i < self.users_permissions.len()
            invariant
                i <= self.users_permissions.len(),
                *self == *old(self),
                keep == user_edge_other_than(edge),
                edge == (UserPermission { user_id, permission_id }),
                out@ == self.users_permissions@.take(i as int).filter(keep),
            decreases self.users_permissions.len() - i,
        {
            proof {
                self.users_permissions@.lemma_take_succ_push(i as int);
                self.users_permissions@.take(i as int).lemma_filter_push(
                    self.users_permissions@[i as int],
                    keep,
                );
            }
            let e = self.users_permissions[i];
            if !(e.user_id == user_id && e.permission_id == permission_id) {
                out.push(e);
            }
            i += 1;
        }
        proof {
            self.users_permissions@.lemma_take_len();
        }
        self.users_permissions = out;
        proof {
            old(self)@.lemma_fewer_user_edges_wf(user_edge_other_than(edge));
            assert(self@ =~= old(self)@.without_user_permission(edge));
        }
        removed
    }

    /// Unlinks an access profile from a permission. Says whether there was
    /// such an edge.
    pub fn remove_profile_permission(&mut self, access_profile_id: i32, permission_id: i32) -> (removed:
        bool)
        requires
            old(self)@.wf(),
        ensures
            final(self)@.wf(),
            removed == old(self)@.profile_admits(access_profile_id, permission_id),
            final(self)@ == old(self)@.without_profile_permission(
                AccessProfilePermission { access_profile_id, permission_id },
            ),
    {
        let edge = AccessProfilePermission { access_profile_id, permission_id };
        let removed = self.admits(access_profile_id, permission_id);
        let ghost keep = profile_edge_other_than(edge);
        let mut out: Vec<AccessProfilePermission> = Vec::new();
        let mut i: usize = 0;
        while i < self.access_profiles_permissions.len()
            invariant
                i <= self.access_profiles_permissions.len(),
                *self == *old(self),
                keep == profile_edge_other_than(edge),
                edge == (AccessProfilePermission { access_profile_id, permission_id }),
                out@ == self.access_profiles_permissions@.take(i as int).filter(keep),
            decreases self.access_profiles_permissions.len() - i,
        {
            proof {
                self.access_profiles_permissions@.lemma_take_succ_push(i as int);
                self.access_profiles_permissions@.take(i as int).lemma_filter_push(
                    self.access_profiles_permissions@[i as int],
                    keep,
                );
            }
            let e = self.access_profiles_permissions[i];
            if !(e.access_profile_id == access_profile_id && e.permission_id == permission_id) {
                out.push(e);
            }
            i += 1;
        }
        proof {
            self.access_profiles_permissions@.lemma_take_len();
        }
        self.access_profiles_permissions = out;
        proof {
            old(self)@.lemma_fewer_profile_edges_wf(profile_edge_other_than(edge));
            assert(self@ =~= old(self)@.without_profile_permission(edge));
        }
        removed
    }

    /// Deletes the access code `id` of the user `user_id`, if there is one.
    pub fn delete_access_code(&mut self, user_id: i32, id: i32)
        requires
            old(self)@.wf(),
        ensures
            final(self)@.wf(),
            final(self)@ == old(self)@.without_access_code(user_id, id),
    {
        let ghost keep = code_other_than(user_id, id);
        let mut out: Vec<AccessCode> = Vec::new();
        let mut i: usize = 0;
        while i < self.access_codes.len()
            invariant
                i <= self.access_codes.len(),
                *self == *old(self),
                keep == code_other_than(user_id, id),
                out@ == self.access_codes@.take(i as int).filter(keep),
            decreases self.access_codes.len() - i,
        {
            proof {
                self.access_codes@.lemma_take_succ_push(i as int);
                self.access_codes@.take(i as int).lemma_filter_push(
                    self.access_codes@[i as int],
                    keep,
                );
            }
            if !(self.access_codes[i].user == user_id && self.access_codes[i].id == id) {
                out.push(self.access_codes[i].clone());
            }
            i += 1;
        }
        proof {
            self.access_codes@.lemma_take_len();
        }
        self.access_codes = out;
        proof {
            old(self)@.lemma_fewer_codes_wf(code_other_than(user_id, id));
            assert(self@ =~= old(self)@.without_access_code(user_id, id));
        }
    }

    /// Deletes a user: its permission edges, then its access codes, then the
    /// row itself.
    pub fn delete_user(&mut self, user_id: i32)
        requires
            old(self)@.wf(),
        ensures
            final(self)@.wf(),
            final(self)@ == old(self)@.without_user(user_id),
    {
        self.drop_user_edges_of_user(user_id);
        self.drop_codes_of_user(user_id);
        self.drop_user_row(user_id);
        proof {
            old(self)@.lemma_without_user_wf(user_id);
        }
    }

    /// Deletes a permission: its user edges, then its profile edges, then the
    /// row itself.
    pub fn delete_permission(&mut self, permission_id: i32)
        requires
            old(self)@.wf(),
        ensures
            final(self)@.wf(),
            final(self)@ == old(self)@.without_permission(permission_id),
    {
        self.drop_user_edges_of_permission(permission_id);
        self.drop_profile_edges_of_permission(permission_id);
        self.drop_permission_row(permission_id);
        proof {
            old(self)@.lemma_without_permission_wf(permission_id);
        }
    }

    /// Deletes an access profile: its permission edges, then the row itself.
    pub fn delete_access_profile(&mut self, access_profile_id: i32)
        requires
            old(self)@.wf(),
        ensures
            final(self)@.wf(),
            final(self)@ == old(self)@.without_access_profile(access_profile_id),
    {
        self.drop_profile_edges_of_profile(access_profile_id);
        self.drop_profile_row(access_profile_id);
        proof {
            old(self)@.lemma_without_access_profile_wf(access_profile_id);
        }
    }
}

impl AccessGraph {
    /// The id that the store gives to the next user: one above the
    /// greatest id in use, or none where that is the last id there is.
    pub fn next_user_id(&self) -> (r: Option<i32>)
        ensures
            match r {
                Some(id) => id == top_key(self@.users, user_id()) + 1,
                None => top_key(self@.users, user_id()) == i32::MAX,
            },
    {
        let mut top: i32 = 0;
        let mut i: usize = 0;
        while i < self.users.len()
            invariant
                i <= self.users.len(),
                top == top_key(self.users@.take(i as int), user_id()),
            decreases self.users.len() - i,
        {
            proof {
                let next = self.users@.take(i as int + 1);
                assert(next.drop_last() =~= self.users@.take(i as int));
                assert(next.last() == self.users@[i as int]);
            }
            if self.users[i].id > top {
                top = self.users[i].id;
            }
            i += 1;
        }
        proof {
            self.users@.lemma_take_len();
        }
        if top == i32::MAX {
            None
        } else {
            Some(top + 1)
        }
    }

    /// The id that the store gives to the next permission: one above the
    /// greatest id in use, or none where that is the last id there is.
    pub fn next_permission_id(&self) -> (r: Option<i32>)
        ensures
            match r {
                Some(id) => id == top_key(self@.permissions, permission_id()) + 1,
                None => top_key(self@.permissions, permission_id()) == i32::MAX,
            },
    {
        let mut top: i32 = 0;
        let mut i: usize = 0;
        while i < self.permissions.len()
            invariant
                i <= self.permissions.len(),
                top == top_key(self.permissions@.take(i as int), permission_id()),
            decreases self.permissions.len() - i,
        {
            proof {
                let next = self.permissions@.take(i as int + 1);
                assert(next.drop_last() =~= self.permissions@.take(i as int));
                assert(next.last() == self.permissions@[i as int]);
            }
            if self.permissions[i].id > top {
                top = self.permissions[i].id;
            }
            i += 1;
        }
        proof {
            self.permissions@.lemma_take_len();
        }
        if top == i32::MAX {
            None
        } else {
            Some(top + 1)
        }
    }

    /// The id that the store gives to the next access profile: one above the
    /// greatest id in use, or none where that is the last id there is.
    pub fn next_access_profile_id(&self) -> (r: Option<i32>)
        ensures
            match r {
                Some(id) => id == top_key(self@.access_profiles, profile_id()) + 1,
                None => top_key(self@.access_profiles, profile_id()) == i32::MAX,
            },
    {
        let mut top: i32 = 0;
        let mut i: usize = 0;
        while i < self.access_profiles.len()
            invariant
                i <= self.access_profiles.len(),
                top == top_key(self.access_profiles@.take(i as int), profile_id()),
            decreases self.access_profiles.len() - i,
        {
            proof {
                let next = self.access_profiles@.take(i as int + 1);
                assert(next.drop_last() =~= self.access_profiles@.take(i as int));
                assert(next.last() == self.access_profiles@[i as int]);
            }
            if self.access_profiles[i].id > top {
                top = self.access_profiles[i].id;
            }
            i += 1;
        }
        proof {
            self.access_profiles@.lemma_take_len();
        }
        if top == i32::MAX {
            None
        } else {
            Some(top + 1)
        }
    }

    /// The id that the store gives to the next access code: one above the
    /// greatest id in use, or none where that is the last id there is.
    pub fn next_access_code_id(&self) -> (r: Option<i32>)
        ensures
            match r {
                Some(id) => id == top_key(self@.access_codes, code_id()) + 1,
                None => top_key(self@.access_codes, code_id()) == i32::MAX,
            },
    {
        let mut top: i32 = 0;
        let mut i: usize = 0;
        while i < self.access_codes.len()
            invariant
                i <= self.access_codes.len(),
                top == top_key(self.access_codes@.take(i as int), code_id()),
            decreases self.access_codes.len() - i,
        {
            proof {
                let next = self.access_codes@.take(i as int + 1);
                assert(next.drop_last() =~= self.access_codes@.take(i as int));
                assert(next.last() == self.access_codes@[i as int]);
            }
            if self.access_codes[i].id > top {
                top = self.access_codes[i].id;
            }
            i += 1;
        }
        proof {
            self.access_codes@.lemma_take_len();
        }
        if top == i32::MAX {
            None
        } else {
            Some(top + 1)
        }
    }
}

impl AccessGraph {
    /// Puts `row` in the place of the user with its id, and says whether
    /// there was one. The store refuses a name that another user has.
    pub fn replace_user(&mut self, row: User) -> (r: Result<bool, StoreError>)
        requires
            old(self)@.wf(),
        ensures
            final(self)@.wf(),
            r is Err <==> has_key(old(self)@.users, user_id(), row.id) && user_name_taken(
                old(self)@.users,
                row,
            ),
            r is Err ==> r == Err::<bool, StoreError>(StoreError::UniqueViolation) && final(self)@
                == old(self)@,
            r matches Ok(found) ==> found == has_key(old(self)@.users, user_id(), row.id)
                && final(self)@ == old(self)@.with_user_replaced(row),
    {
        let ghost put = user_replaced_by(row);
        if !self.has_user(row.id) {
            proof {
                assert forall|i: int| 0 <= i < self@.users.len() implies put(
                    #[trigger] self@.users[i],
                ) == self@.users[i] by {
                    assert(user_id()(self@.users[i]) != row.id);
                }
                assert(self@.users.map_values(put) =~= self@.users);
                assert(self@ =~= old(self)@.with_user_replaced(row));
            }
            return Ok(false);
        }
        let mut i: usize = 0;
        while i < self.users.len()
            invariant
                i <= self.users.len(),
                *self == *old(self),
                old(self)@.wf(),
                has_key(self@.users, user_id(), row.id),
                forall|k: int|
                    0 <= k < i ==> !((#[trigger] self.users@[k]).id != row.id
                        && self.users@[k].name@ == row.name@),
            decreases self.users.len() - i,
        {
            if self.users[i].id != row.id && self.users[i].name == row.name {
                return Err(StoreError::UniqueViolation);
            }
            i += 1;
        }
        let mut out: Vec<User> = Vec::new();
        let mut i: usize = 0;
        while i < self.users.len()
            invariant
                i <= self.users.len(),
                *self == *old(self),
                put == user_replaced_by(row),
                out@ == self.users@.take(i as int).map_values(put),
            decreases self.users.len() - i,
        {
            if self.users[i].id == row.id {
                out.push(row.clone());
            } else {
                out.push(self.users[i].clone());
            }
            i += 1;
            assert(out@ =~= self.users@.take(i as int).map_values(put));
        }
        proof {
            self.users@.lemma_take_len();
            old(self)@.lemma_with_user_replaced_wf(row);
        }
        self.users = out;
        assert(self@ =~= old(self)@.with_user_replaced(row));
        Ok(true)
    }

    /// Puts `row` in the place of the permission with its id, and says whether
    /// there was one. The store refuses a name that another permission has.
    pub fn replace_permission(&mut self, row: Permission) -> (r: Result<bool, StoreError>)
        requires
            old(self)@.wf(),
        ensures
            final(self)@.wf(),
            r is Err <==> has_key(old(self)@.permissions, permission_id(), row.id) && permission_name_taken(
                old(self)@.permissions,
                row,
            ),
            r is Err ==> r == Err::<bool, StoreError>(StoreError::UniqueViolation) && final(self)@
                == old(self)@,
            r matches Ok(found) ==> found == has_key(old(self)@.permissions, permission_id(), row.id)
                && final(self)@ == old(self)@.with_permission_replaced(row),
    {
        let ghost put = permission_replaced_by(row);
        if !self.has_permission(row.id) {
            proof {
                assert forall|i: int| 0 <= i < self@.permissions.len() implies put(
                    #[trigger] self@.permissions[i],
                ) == self@.permissions[i] by {
                    assert(permission_id()(self@.permissions[i]) != row.id);
                }
                assert(self@.permissions.map_values(put) =~= self@.permissions);
                assert(self@ =~= old(self)@.with_permission_replaced(row));
            }
            return Ok(false);
        }
        let mut i: usize = 0;
        while i < self.permissions.len()
            invariant
                i <= self.permissions.len(),
                *self == *old(self),
                old(self)@.wf(),
                has_key(self@.permissions, permission_id(), row.id),
                forall|k: int|
                    0 <= k < i ==> !((#[trigger] self.permissions@[k]).id != row.id
                        && self.permissions@[k].name@ == row.name@),
            decreases self.permissions.len() - i,
        {
            if self.permissions[i].id != row.id && self.permissions[i].name == row.name {
                return Err(StoreError::UniqueViolation);
            }
            i += 1;
        }
        let mut out: Vec<Permission> = Vec::new();
        let mut i: usize = 0;
        while i < self.permissions.len()
            invariant
                i <= self.permissions.len(),
                *self == *old(self),
                put == permission_replaced_by(row),
                out@ == self.permissions@.take(i as int).map_values(put),
            decreases self.permissions.len() - i,
        {
            if self.permissions[i].id == row.id {
                out.push(row.clone());
            } else {
                out.push(self.permissions[i].clone());
            }
            i += 1;
            assert(out@ =~= self.permissions@.take(i as int).map_values(put));
        }
        proof {
            self.permissions@.lemma_take_len();
            old(self)@.lemma_with_permission_replaced_wf(row);
        }
        self.permissions = out;
        assert(self@ =~= old(self)@.with_permission_replaced(row));
        Ok(true)
    }

    /// Puts `row` in the place of the access profile with its id, and says whether
    /// there was one. The store refuses a name that another access profile has.
    pub fn replace_access_profile(&mut self, row: AccessProfile) -> (r: Result<bool, StoreError>)
        requires
            old(self)@.wf(),
        ensures
            final(self)@.wf(),
            r is Err <==> has_key(old(self)@.access_profiles, profile_id(), row.id) && profile_name_taken(
                old(self)@.access_profiles,
                row,
            ),
            r is Err ==> r == Err::<bool, StoreError>(StoreError::UniqueViolation) && final(self)@
                == old(self)@,
            r matches Ok(found) ==> found == has_key(old(self)@.access_profiles, profile_id(), row.id)
                && final(self)@ == old(self)@.with_profile_replaced(row),
    {
        let ghost put = profile_replaced_by(row);
        if !self.has_access_profile(row.id) {
            proof {
                assert forall|i: int| 0 <= i < self@.access_profiles.len() implies put(
                    #[trigger] self@.access_profiles[i],
                ) == self@.access_profiles[i] by {
                    assert(profile_id()(self@.access_profiles[i]) != row.id);
                }
                assert(self@.access_profiles.map_values(put) =~= self@.access_profiles);
                assert(self@ =~= old(self)@.with_profile_replaced(row));
            }
            return Ok(false);
        }
        let mut i: usize = 0;
        while i < self.access_profiles.len()
            invariant
                i <= self.access_profiles.len(),
                *self == *old(self),
                old(self)@.wf(),
                has_key(self@.access_profiles, profile_id(), row.id),
                forall|k: int|
                    0 <= k < i ==> !((#[trigger] self.access_profiles@[k]).id != row.id
                        && self.access_profiles@[k].name@ == row.name@),
            decreases self.access_profiles.len() - i,
        {
            if self.access_profiles[i].id != row.id && self.access_profiles[i].name == row.name {
                return Err(StoreError::UniqueViolation);
            }
            i += 1;
        }
        let mut out: Vec<AccessProfile> = Vec::new();
        let mut i: usize = 0;
        while i < self.access_profiles.len()
            invariant
                i <= self.access_profiles.len(),
                *self == *old(self),
                put == profile_replaced_by(row),
                out@ == self.access_profiles@.take(i as int).map_values(put),
            decreases self.access_profiles.len() - i,
        {
            if self.access_profiles[i].id == row.id {
                out.push(row.clone());
            } else {
                out.push(self.access_profiles[i].clone());
            }
            i += 1;
            assert(out@ =~= self.access_profiles@.take(i as int).map_values(put));
        }
        proof {
            self.access_profiles@.lemma_take_len();
            old(self)@.lemma_with_profile_replaced_wf(row);
        }
        self.access_profiles = out;
        assert(self@ =~= old(self)@.with_profile_replaced(row));
        Ok(true)
    }
}

} // verus!

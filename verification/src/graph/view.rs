//! The graph as mathematics: the tables as sequences of rows, what it means
//! for them to be well formed, what the lookups return and what each change
//! makes of them.

use vstd::prelude::*;
use vstd::string::*;

use crate::models::{
    AccessCode, AccessProfile, AccessProfilePermission, Permission, User, UserPermission,
};
use crate::seq_lemmas::{distinct_by, has_key};

verus! {

/// The graph as mathematics: each table is the sequence of its rows.
pub struct GraphView {
    pub users: Seq<User>,
    pub access_codes: Seq<AccessCode>,
    pub permissions: Seq<Permission>,
    pub access_profiles: Seq<AccessProfile>,
    pub users_permissions: Seq<UserPermission>,
    pub access_profiles_permissions: Seq<AccessProfilePermission>,
}

/// Why the store refused a row.
#[derive(Clone, Copy, Debug, PartialEq, Eq, Structural)]
pub enum StoreError {
    /// A row with the same unique key is already there.
    UniqueViolation,
    /// The row refers to a row that is not there.
    ForeignKeyViolation,
}

impl StoreError {
    /// What the store says of the refusal.
    pub open spec fn spec_message(self) -> Seq<char> {
        match self {
            StoreError::UniqueViolation => "Duplicate entry for a unique key"@,
            StoreError::ForeignKeyViolation =>
                "Cannot add or update a child row: a foreign key constraint fails"@,
        }
    }

    /// What the store says of the refusal.
    pub fn message(self) -> (m: String)
        ensures
            m@ == self.spec_message(),
    {
        match self {
            StoreError::UniqueViolation => String::from_str("Duplicate entry for a unique key"),
            StoreError::ForeignKeyViolation => String::from_str(
                "Cannot add or update a child row: a foreign key constraint fails",
            ),
        }
    }
}

/// The key of a user row.
pub open spec fn user_id() -> spec_fn(User) -> i32 {
    |u: User| u.id
}

/// The unique name of a user row.
pub open spec fn user_name() -> spec_fn(User) -> Seq<char> {
    |u: User| u.name@
}

/// The key of a permission row.
pub open spec fn permission_id() -> spec_fn(Permission) -> i32 {
    |p: Permission| p.id
}

/// The unique name of a permission row.
pub open spec fn permission_name() -> spec_fn(Permission) -> Seq<char> {
    |p: Permission| p.name@
}

/// The key of an access profile row.
pub open spec fn profile_id() -> spec_fn(AccessProfile) -> i32 {
    |a: AccessProfile| a.id
}

/// The unique name of an access profile row.
pub open spec fn profile_name() -> spec_fn(AccessProfile) -> Seq<char> {
    |a: AccessProfile| a.name@
}

/// The key of an access code row.
pub open spec fn code_id() -> spec_fn(AccessCode) -> i32 {
    |c: AccessCode| c.id
}

/// The unique text of an access code row.
pub open spec fn code_text() -> spec_fn(AccessCode) -> Seq<char> {
    |c: AccessCode| c.code@
}

/// A user-permission edge is its own key.
pub open spec fn user_edge() -> spec_fn(UserPermission) -> UserPermission {
    |e: UserPermission| e
}

/// A profile-permission edge is its own key.
pub open spec fn profile_edge() -> spec_fn(AccessProfilePermission) -> AccessProfilePermission {
    |e: AccessProfilePermission| e
}

/// Selects the users named `name`.
pub open spec fn user_named(name: Seq<char>) -> spec_fn(User) -> bool {
    |u: User| u.name@ == name
}

/// Selects the users with the id `id`.
pub open spec fn user_with_id(id: i32) -> spec_fn(User) -> bool {
    |u: User| u.id == id
}

/// Selects the permissions named `name`.
pub open spec fn permission_named(name: Seq<char>) -> spec_fn(Permission) -> bool {
    |p: Permission| p.name@ == name
}

/// Selects the access profiles named `name`.
pub open spec fn profile_named(name: Seq<char>) -> spec_fn(AccessProfile) -> bool {
    |a: AccessProfile| a.name@ == name
}

/// Selects the access codes whose text is `code`.
pub open spec fn code_equal(code: Seq<char>) -> spec_fn(AccessCode) -> bool {
    |c: AccessCode| c.code@ == code
}

/// Selects the access codes with the id `id` that belong to `user_id`.
pub open spec fn code_of_user_with_id(user_id: i32, id: i32) -> spec_fn(AccessCode) -> bool {
    |c: AccessCode| c.user == user_id && c.id == id
}

/// Selects the access codes that belong to the user `user_id`.
pub open spec fn owned_by(user_id: i32) -> spec_fn(AccessCode) -> bool {
    |c: AccessCode| c.user == user_id
}

/// Puts `row` in the place of the user with its id.
pub open spec fn user_replaced_by(row: User) -> spec_fn(User) -> User {
    |u: User|
        if u.id == row.id {
            row
        } else {
            u
        }
}

/// Puts `row` in the place of the permission with its id.
pub open spec fn permission_replaced_by(row: Permission) -> spec_fn(Permission) -> Permission {
    |p: Permission|
        if p.id == row.id {
            row
        } else {
            p
        }
}

/// Puts `row` in the place of the access profile with its id.
pub open spec fn profile_replaced_by(row: AccessProfile) -> spec_fn(AccessProfile) -> AccessProfile {
    |a: AccessProfile|
        if a.id == row.id {
            row
        } else {
            a
        }
}

/// Another user than `row` has the name of `row`.
pub open spec fn user_name_taken(users: Seq<User>, row: User) -> bool {
    exists|i: int|
        0 <= i < users.len() && (#[trigger] users[i]).id != row.id && users[i].name@ == row.name@
}

/// Another permission than `row` has the name of `row`.
pub open spec fn permission_name_taken(permissions: Seq<Permission>, row: Permission) -> bool {
    exists|i: int|
        0 <= i < permissions.len() && (#[trigger] permissions[i]).id != row.id
            && permissions[i].name@ == row.name@
}

/// Another access profile than `row` has the name of `row`.
pub open spec fn profile_name_taken(profiles: Seq<AccessProfile>, row: AccessProfile) -> bool {
    exists|i: int|
        0 <= i < profiles.len() && (#[trigger] profiles[i]).id != row.id && profiles[i].name@
            == row.name@
}

/// Selects every user but the one with the id `id`.
pub open spec fn user_other_than(id: i32) -> spec_fn(User) -> bool {
    |u: User| u.id != id
}

/// Selects every permission but the one with the id `id`.
pub open spec fn permission_other_than(id: i32) -> spec_fn(Permission) -> bool {
    |p: Permission| p.id != id
}

/// Selects every access profile but the one with the id `id`.
pub open spec fn profile_other_than(id: i32) -> spec_fn(AccessProfile) -> bool {
    |a: AccessProfile| a.id != id
}

/// Selects the access codes that do not belong to the user `user_id`.
pub open spec fn code_not_of_user(user_id: i32) -> spec_fn(AccessCode) -> bool {
    |c: AccessCode| c.user != user_id
}

/// Selects every access code but the one with the id `id` of `user_id`.
pub open spec fn code_other_than(user_id: i32, id: i32) -> spec_fn(AccessCode) -> bool {
    |c: AccessCode| !(c.user == user_id && c.id == id)
}

/// Selects the user-permission edges that do not start at `user_id`.
pub open spec fn user_edge_not_of_user(user_id: i32) -> spec_fn(UserPermission) -> bool {
    |e: UserPermission| e.user_id != user_id
}

/// Selects the user-permission edges that do not end at `permission_id`.
pub open spec fn user_edge_not_of_permission(permission_id: i32) -> spec_fn(
    UserPermission,
) -> bool {
    |e: UserPermission| e.permission_id != permission_id
}

/// Selects every user-permission edge but `edge`.
pub open spec fn user_edge_other_than(edge: UserPermission) -> spec_fn(UserPermission) -> bool {
    |e: UserPermission| e != edge
}

/// Selects the profile-permission edges that do not start at
/// `access_profile_id`.
pub open spec fn profile_edge_not_of_profile(access_profile_id: i32) -> spec_fn(
    AccessProfilePermission,
) -> bool {
    |e: AccessProfilePermission| e.access_profile_id != access_profile_id
}

/// Selects the profile-permission edges that do not end at `permission_id`.
pub open spec fn profile_edge_not_of_permission(permission_id: i32) -> spec_fn(
    AccessProfilePermission,
) -> bool {
    |e: AccessProfilePermission| e.permission_id != permission_id
}

/// Selects every profile-permission edge but `edge`.
pub open spec fn profile_edge_other_than(edge: AccessProfilePermission) -> spec_fn(
    AccessProfilePermission,
) -> bool {
    |e: AccessProfilePermission| e != edge
}

impl GraphView {
    /// The user `user_id` holds the permission `permission_id`.
    pub open spec fn user_holds(self, user_id: i32, permission_id: i32) -> bool {
        self.users_permissions.contains(UserPermission { user_id, permission_id })
    }

    /// The access profile `access_profile_id` admits the permission
    /// `permission_id`.
    pub open spec fn profile_admits(self, access_profile_id: i32, permission_id: i32) -> bool {
        self.access_profiles_permissions.contains(
            AccessProfilePermission { access_profile_id, permission_id },
        )
    }

    /// The access profile admits at least one of `permissions`.
    pub open spec fn profile_admits_any(
        self,
        access_profile_id: i32,
        permissions: Seq<Permission>,
    ) -> bool {
        exists|i: int|
            0 <= i < permissions.len() && self.profile_admits(
                access_profile_id,
                (#[trigger] permissions[i]).id,
            )
    }

    /// Selects the permissions that the user `user_id` holds.
    pub open spec fn held_by(self, user_id: i32) -> spec_fn(Permission) -> bool {
        |p: Permission| self.user_holds(user_id, p.id)
    }

    /// Selects the users that hold the permission `permission_id`.
    pub open spec fn holders_of(self, permission_id: i32) -> spec_fn(User) -> bool {
        |u: User| self.user_holds(u.id, permission_id)
    }

    /// Selects the access profiles that admit the permission `permission_id`.
    pub open spec fn admitting(self, permission_id: i32) -> spec_fn(AccessProfile) -> bool {
        |a: AccessProfile| self.profile_admits(a.id, permission_id)
    }

    /// Selects the access profiles that admit at least one of `permissions`.
    pub open spec fn admitting_any(self, permissions: Seq<Permission>) -> spec_fn(
        AccessProfile,
    ) -> bool {
        |a: AccessProfile| self.profile_admits_any(a.id, permissions)
    }

    /// Selects the permissions that the access profile `access_profile_id`
    /// admits.
    pub open spec fn admitted_by(self, access_profile_id: i32) -> spec_fn(Permission) -> bool {
        |p: Permission| self.profile_admits(access_profile_id, p.id)
    }

    /// The permissions of a user: the permission rows, in table order, that
    /// an edge links to the user.
    pub open spec fn permissions_of(self, user_id: i32) -> Seq<Permission> {
        self.permissions.filter(self.held_by(user_id))
    }

    /// The users of a permission.
    pub open spec fn users_of(self, permission_id: i32) -> Seq<User> {
        self.users.filter(self.holders_of(permission_id))
    }

    /// The access profiles of one permission.
    pub open spec fn profiles_of(self, permission_id: i32) -> Seq<AccessProfile> {
        self.access_profiles.filter(self.admitting(permission_id))
    }

    /// The access profiles reachable from any of `permissions`: a union, not
    /// an intersection.
    pub open spec fn profiles_of_all(self, permissions: Seq<Permission>) -> Seq<AccessProfile> {
        self.access_profiles.filter(self.admitting_any(permissions))
    }

    /// The permissions that an access profile admits.
    pub open spec fn permissions_of_profile(self, access_profile_id: i32) -> Seq<Permission> {
        self.permissions.filter(self.admitted_by(access_profile_id))
    }

    /// The access codes of a user.
    pub open spec fn access_codes_of(self, user_id: i32) -> Seq<AccessCode> {
        self.access_codes.filter(owned_by(user_id))
    }

    /// The invariants of the data model: ids and unique names tell rows
    /// apart, no edge occurs twice, and nothing refers to a row that is not
    /// there.
    pub open spec fn wf(self) -> bool {
        &&& distinct_by(self.users, user_id())
        &&& distinct_by(self.users, user_name())
        &&& distinct_by(self.permissions, permission_id())
        &&& distinct_by(self.permissions, permission_name())
        &&& distinct_by(self.access_profiles, profile_id())
        &&& distinct_by(self.access_profiles, profile_name())
        &&& distinct_by(self.access_codes, code_id())
        &&& distinct_by(self.access_codes, code_text())
        &&& distinct_by(self.users_permissions, user_edge())
        &&& distinct_by(self.access_profiles_permissions, profile_edge())
        &&& forall|i: int|
            0 <= i < self.access_codes.len() ==> has_key(
                self.users,
                user_id(),
                (#[trigger] self.access_codes[i]).user,
            )
        &&& forall|i: int|
            0 <= i < self.users_permissions.len() ==> has_key(
                self.users,
                user_id(),
                (#[trigger] self.users_permissions[i]).user_id,
            ) && has_key(self.permissions, permission_id(), self.users_permissions[i].permission_id)
        &&& forall|i: int|
            0 <= i < self.access_profiles_permissions.len() ==> has_key(
                self.access_profiles,
                profile_id(),
                (#[trigger] self.access_profiles_permissions[i]).access_profile_id,
            ) && has_key(
                self.permissions,
                permission_id(),
                self.access_profiles_permissions[i].permission_id,
            )
    }

    /// The graph with one more user row.
    pub open spec fn with_user(self, user: User) -> GraphView {
        GraphView { users: self.users.push(user), ..self }
    }

    /// The graph with one more permission row.
    pub open spec fn with_permission(self, permission: Permission) -> GraphView {
        GraphView { permissions: self.permissions.push(permission), ..self }
    }

    /// The graph with one more access profile row.
    pub open spec fn with_access_profile(self, access_profile: AccessProfile) -> GraphView {
        GraphView { access_profiles: self.access_profiles.push(access_profile), ..self }
    }

    /// The graph with one more access code row.
    pub open spec fn with_access_code(self, access_code: AccessCode) -> GraphView {
        GraphView { access_codes: self.access_codes.push(access_code), ..self }
    }

    /// The graph with one more user-permission edge.
    pub open spec fn with_user_permission(self, edge: UserPermission) -> GraphView {
        GraphView { users_permissions: self.users_permissions.push(edge), ..self }
    }

    /// The graph with one more profile-permission edge.
    pub open spec fn with_profile_permission(self, edge: AccessProfilePermission) -> GraphView {
        GraphView {
            access_profiles_permissions: self.access_profiles_permissions.push(edge),
            ..self
        }
    }

    /// The graph with `row` in the place of the user with its id.
    pub open spec fn with_user_replaced(self, row: User) -> GraphView {
        GraphView { users: self.users.map_values(user_replaced_by(row)), ..self }
    }

    /// The graph with `row` in the place of the permission with its id.
    pub open spec fn with_permission_replaced(self, row: Permission) -> GraphView {
        GraphView { permissions: self.permissions.map_values(permission_replaced_by(row)), ..self }
    }

    /// The graph with `row` in the place of the access profile with its id.
    pub open spec fn with_profile_replaced(self, row: AccessProfile) -> GraphView {
        GraphView {
            access_profiles: self.access_profiles.map_values(profile_replaced_by(row)),
            ..self
        }
    }

    /// The graph without the user-permission edge `edge`.
    pub open spec fn without_user_permission(self, edge: UserPermission) -> GraphView {
        GraphView {
            users_permissions: self.users_permissions.filter(user_edge_other_than(edge)),
            ..self
        }
    }

    /// The graph without the profile-permission edge `edge`.
    pub open spec fn without_profile_permission(self, edge: AccessProfilePermission) -> GraphView {
        GraphView {
            access_profiles_permissions: self.access_profiles_permissions.filter(
                profile_edge_other_than(edge),
            ),
            ..self
        }
    }

    /// The graph without the access code `id` of the user `user_id`.
    pub open spec fn without_access_code(self, user_id: i32, id: i32) -> GraphView {
        GraphView { access_codes: self.access_codes.filter(code_other_than(user_id, id)), ..self }
    }

    /// The graph after the user-permission edges of `user_id` are gone.
    pub open spec fn without_user_edges_of_user(self, user_id: i32) -> GraphView {
        GraphView {
            users_permissions: self.users_permissions.filter(user_edge_not_of_user(user_id)),
            ..self
        }
    }

    /// The graph after the access codes of `user_id` are gone.
    pub open spec fn without_codes_of_user(self, user_id: i32) -> GraphView {
        GraphView { access_codes: self.access_codes.filter(code_not_of_user(user_id)), ..self }
    }

    /// The graph after the user row `user_id` is gone.
    pub open spec fn without_user_row(self, user_id: i32) -> GraphView {
        GraphView { users: self.users.filter(user_other_than(user_id)), ..self }
    }

    /// The graph after the user-permission edges of `permission_id` are gone.
    pub open spec fn without_user_edges_of_permission(self, permission_id: i32) -> GraphView {
        GraphView {
            users_permissions: self.users_permissions.filter(
                user_edge_not_of_permission(permission_id),
            ),
            ..self
        }
    }

    /// The graph after the profile-permission edges of `permission_id` are
    /// gone.
    pub open spec fn without_profile_edges_of_permission(self, permission_id: i32) -> GraphView {
        GraphView {
            access_profiles_permissions: self.access_profiles_permissions.filter(
                profile_edge_not_of_permission(permission_id),
            ),
            ..self
        }
    }

    /// The graph after the permission row `permission_id` is gone.
    pub open spec fn without_permission_row(self, permission_id: i32) -> GraphView {
        GraphView {
            permissions: self.permissions.filter(permission_other_than(permission_id)),
            ..self
        }
    }

    /// The graph after the profile-permission edges of `access_profile_id`
    /// are gone.
    pub open spec fn without_profile_edges_of_profile(self, access_profile_id: i32) -> GraphView {
        GraphView {
            access_profiles_permissions: self.access_profiles_permissions.filter(
                profile_edge_not_of_profile(access_profile_id),
            ),
            ..self
        }
    }

    /// The graph after the access profile row `access_profile_id` is gone.
    pub open spec fn without_profile_row(self, access_profile_id: i32) -> GraphView {
        GraphView {
            access_profiles: self.access_profiles.filter(profile_other_than(access_profile_id)),
            ..self
        }
    }

    /// Deleting a user: first its permission edges, then its access codes,
    /// then the row.
    pub open spec fn without_user(self, user_id: i32) -> GraphView {
        self.without_user_edges_of_user(user_id).without_codes_of_user(user_id).without_user_row(
            user_id,
        )
    }

    /// Deleting a permission: first its user edges, then its profile edges,
    /// then the row.
    pub open spec fn without_permission(self, permission_id: i32) -> GraphView {
        self.without_user_edges_of_permission(permission_id).without_profile_edges_of_permission(
            permission_id,
        ).without_permission_row(permission_id)
    }

    /// Deleting an access profile: first its permission edges, then the row.
    pub open spec fn without_access_profile(self, access_profile_id: i32) -> GraphView {
        self.without_profile_edges_of_profile(access_profile_id).without_profile_row(
            access_profile_id,
        )
    }
}

} // verus!

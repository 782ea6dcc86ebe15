//! The permissions: which users hold them and which access profiles admit
//! them.

pub mod access_profiles;
pub mod users;

use vstd::prelude::*;
use vstd::string::*;

use crate::error::ApiError;
use crate::graph::{
    permission_id, permission_name, permission_name_taken, permission_named, AccessGraph,
    GraphView, StoreError,
};
use crate::guards::auth::{Auth, OperatorUser};
use crate::models::{
    AccessProfile, Permission, PermissionFull, PermissionInsert, PermissionUpdate, User,
};
use crate::seq_lemmas::{
    first_where, has_key, lemma_above_top_is_new, lemma_first_where_by_key, lemma_found_has_key,
    top_key,
};

verus! {

/// `full` is `permission` with its users and its access profiles, as
/// `graph` has them.
pub open spec fn is_full_permission(
    graph: GraphView,
    permission: Permission,
    full: PermissionFull,
) -> bool {
    &&& full.permission == permission
    &&& full.users@ == graph.users_of(permission.id)
    &&& full.access_profiles@ == graph.profiles_of(permission.id)
}

/// The message for a permission that is not there.
pub open spec fn permission_not_found(name: Seq<char>) -> Seq<char> {
    "Permission "@ + name + " not found."@
}

/// The result is the permission named `name` with all that hangs on it, or
/// says that there is no such permission.
pub open spec fn is_full_permission_named(
    graph: GraphView,
    name: Seq<char>,
    r: Result<PermissionFull, ApiError>,
) -> bool {
    match first_where(graph.permissions, permission_named(name)) {
        Some(permission) => r matches Ok(full) && is_full_permission(graph, permission, full),
        None => {
            &&& r matches Err(ApiError::NotFound(m))
            &&& m@ == permission_not_found(name)
        },
    }
}

/// The permission named `name`.
pub fn get_permission(name: &str, db: &AccessGraph) -> (r: Result<Permission, ApiError>)
    ensures
        match first_where(db@.permissions, permission_named(name@)) {
            Some(permission) => r == Ok::<Permission, ApiError>(permission),
            None => {
                &&& r matches Err(ApiError::NotFound(m))
                &&& m@ == permission_not_found(name@)
            },
        },
{
    match db.find_permission(name) {
        Some(permission) => Ok(permission),
        None => Err(
            ApiError::NotFound(String::from_str("Permission ").concat(name).concat(" not found.")),
        ),
    }
}

/// The users that hold `perm`.
pub fn get_all_users(perm: &Permission, db: &AccessGraph) -> (r: Vec<User>)
    ensures
        r@ == db@.users_of(perm.id),
{
    db.users_of(perm)
}

/// The access profiles that admit `perm`.
pub fn get_all_access_profiles(perm: &Permission, db: &AccessGraph) -> (r: Vec<AccessProfile>)
    ensures
        r@ == db@.profiles_of(perm.id),
{
    db.profiles_of(perm)
}

/// `permission` with all that hangs on it.
pub fn full_permission(permission: Permission, db: &AccessGraph) -> (full: PermissionFull)
    ensures
        is_full_permission(db@, permission, full),
{
    let users = db.users_of(&permission);
    let access_profiles = db.profiles_of(&permission);
    PermissionFull { permission, users, access_profiles }
}

/// The permission named `name` with all that hangs on it.
pub fn get_full_permission(name: &str, db: &AccessGraph) -> (r: Result<PermissionFull, ApiError>)
    ensures
        is_full_permission_named(db@, name@, r),
{
    match get_permission(name, db) {
        Ok(permission) => Ok(full_permission(permission, db)),
        Err(e) => Err(e),
    }
}

/// `GET /permissions`.
pub fn list(_auth: &Auth<OperatorUser>, db: &AccessGraph) -> (r: Vec<Permission>)
    ensures
        r@ == db@.permissions,
{
    db.all_permissions()
}

/// `GET /permissions/<name>`.
pub fn get(_auth: &Auth<OperatorUser>, name: &str, db: &AccessGraph) -> (r: Result<
    PermissionFull,
    ApiError,
>)
    ensures
        is_full_permission_named(db@, name@, r),
{
    get_full_permission(name, db)
}

/// `POST /permissions`: a permission with a new name is created under the
/// next id.
pub fn create(_auth: &Auth<OperatorUser>, permission: PermissionInsert, db: &mut AccessGraph) -> (r:
    Result<PermissionFull, ApiError>)
    requires
        old(db)@.wf(),
    ensures
        final(db)@.wf(),
        if has_key(old(db)@.permissions, permission_name(), permission.name@) {
            &&& final(db)@ == old(db)@
            &&& r matches Err(ApiError::Conflict(m))
            &&& m@ == "Permission "@ + permission.name@ + " already exists."@
        } else if top_key(old(db)@.permissions, permission_id()) == i32::MAX {
            &&& final(db)@ == old(db)@
            &&& r matches Err(ApiError::Internal(m))
            &&& m@ == "No id is left for another row."@
        } else {
            let row = Permission {
                id: (top_key(old(db)@.permissions, permission_id()) + 1) as i32,
                name: permission.name,
            };
            &&& final(db)@ == old(db)@.with_permission(row)
            &&& r matches Ok(full)
            &&& is_full_permission(final(db)@, row, full)
        },
{
    proof {
        lemma_first_where_by_key(
            db@.permissions,
            permission_named(permission.name@),
            permission_name(),
            permission.name@,
        );
    }
    if db.find_permission(permission.name.as_str()).is_some() {
        return Err(
            ApiError::Conflict(
                String::from_str("Permission ").concat(permission.name.as_str()).concat(
                    " already exists.",
                ),
            ),
        );
    }
    let id = match db.next_permission_id() {
        Some(id) => id,
        None => {
            return Err(ApiError::Internal(String::from_str("No id is left for another row.")));
        },
    };
    proof {
        lemma_above_top_is_new(db@.permissions, permission_id(), id);
    }
    let row = Permission { id, name: permission.name };
    let kept = row.clone();
    match db.insert_permission(row) {
        Ok(()) => Ok(full_permission(kept, db)),
        Err(e) => Err(ApiError::Internal(e.message())),
    }
}

/// `DELETE /permissions/<name>`: the user edges of the permission go first,
/// then its profile edges, then the permission itself. The answer is the
/// permission as it was.
pub fn delete(_auth: &Auth<OperatorUser>, name: &str, db: &mut AccessGraph) -> (r: Result<
    PermissionFull,
    ApiError,
>)
    requires
        old(db)@.wf(),
    ensures
        final(db)@.wf(),
        is_full_permission_named(old(db)@, name@, r),
        match first_where(old(db)@.permissions, permission_named(name@)) {
            Some(permission) => final(db)@ == old(db)@.without_permission(permission.id),
            None => final(db)@ == old(db)@,
        },
{
    let permission = match get_full_permission(name, db) {
        Ok(permission) => permission,
        Err(e) => {
            return Err(e);
        },
    };
    db.delete_permission(permission.permission.id);
    Ok(permission)
}

/// `PATCH /permissions/<name>`: the permission takes the new name, unless
/// another permission has it. A change that names no field cannot be
/// stored. The answer is what is then found under `name`, the name that the
/// request came in with.
pub fn update(
    _auth: &Auth<OperatorUser>,
    permission: PermissionUpdate,
    name: &str,
    db: &mut AccessGraph,
) -> (r: Result<PermissionFull, ApiError>)
    requires
        old(db)@.wf(),
    ensures
        final(db)@.wf(),
        match first_where(old(db)@.permissions, permission_named(name@)) {
            None => {
                &&& final(db)@ == old(db)@
                &&& r matches Err(ApiError::NotFound(m))
                &&& m@ == permission_not_found(name@)
            },
            Some(found) => match permission.name {
                None => {
                    &&& final(db)@ == old(db)@
                    &&& r matches Err(ApiError::Internal(m))
                    &&& m@ == "There are no changes to save. This query cannot be built"@
                },
                Some(new_name) => if permission_name_taken(
                    old(db)@.permissions,
                    Permission { id: found.id, name: new_name },
                ) {
                    &&& final(db)@ == old(db)@
                    &&& r matches Err(ApiError::Internal(m))
                    &&& m@ == StoreError::UniqueViolation.spec_message()
                } else {
                    &&& final(db)@ == old(db)@.with_permission_replaced(
                        Permission { id: found.id, name: new_name },
                    )
                    &&& is_full_permission_named(final(db)@, name@, r)
                },
            },
        },
{
    let old_permission = match get_permission(name, db) {
        Ok(old_permission) => old_permission,
        Err(e) => {
            return Err(e);
        },
    };
    let new_name = match permission.name {
        Some(new_name) => new_name,
        None => {
            return Err(
                ApiError::Internal(
                    String::from_str("There are no changes to save. This query cannot be built"),
                ),
            );
        },
    };
    proof {
        lemma_found_has_key(db@.permissions, permission_named(name@), permission_id());
    }
    match db.replace_permission(Permission { id: old_permission.id, name: new_name }) {
        Ok(_) => get_full_permission(name, db),
        Err(e) => Err(ApiError::Internal(e.message())),
    }
}

} // verus!

//! The users of a permission.

use vstd::prelude::*;
use vstd::string::*;

use crate::error::ApiError;
use crate::graph::{permission_id, permission_named, user_id, AccessGraph, StoreError};
use crate::guards::auth::{Auth, OperatorUser};
use crate::models::{PermissionFull, User, UserPermission, UserPermissionInsert};
use crate::routes::permissions::{
    full_permission, get_all_users, get_permission, is_full_permission, permission_not_found,
};
use crate::seq_lemmas::{first_where, has_key, lemma_found_has_key};
use crate::text::{decimal, decimal_of};

verus! {

/// A user that is to be given a permission.
#[derive(Clone, Copy, Debug, PartialEq, Eq, Structural)]
pub struct UserPermissionAppend {
    pub user_id: i32,
}

impl UserPermissionAppend {
    /// The edge to insert for the permission `permission_id`.
    pub fn into_insert(self, permission_id: i32) -> (r: UserPermissionInsert)
        ensures
            r == (UserPermissionInsert { user_id: self.user_id, permission_id }),
    {
        UserPermissionInsert { user_id: self.user_id, permission_id }
    }
}

/// `GET /permissions/<name>/users`.
pub fn list(_auth: &Auth<OperatorUser>, name: &str, db: &AccessGraph) -> (r: Result<
    Vec<User>,
    ApiError,
>)
    ensures
        match first_where(db@.permissions, permission_named(name@)) {
            Some(permission) => r matches Ok(users) && users@ == db@.users_of(permission.id),
            None => {
                &&& r matches Err(ApiError::NotFound(m))
                &&& m@ == permission_not_found(name@)
            },
        },
{
    match get_permission(name, db) {
        Ok(permission) => Ok(get_all_users(&permission, db)),
        Err(e) => Err(e),
    }
}

/// `POST /permissions/<name>/users`: an edge that is there already is a
/// conflict, and is not stored twice.
pub fn assign(
    _auth: &Auth<OperatorUser>,
    name: &str,
    user: UserPermissionAppend,
    db: &mut AccessGraph,
) -> (r: Result<PermissionFull, ApiError>)
    requires
        old(db)@.wf(),
    ensures
        final(db)@.wf(),
        match first_where(old(db)@.permissions, permission_named(name@)) {
            None => {
                &&& final(db)@ == old(db)@
                &&& r matches Err(ApiError::NotFound(m))
                &&& m@ == permission_not_found(name@)
            },
            Some(permission) => if old(db)@.user_holds(user.user_id, permission.id) {
                &&& final(db)@ == old(db)@
                &&& r matches Err(ApiError::Conflict(m))
                &&& m@ == "The user already has the permission "@ + name@ + "."@
            } else if !has_key(old(db)@.users, user_id(), user.user_id) {
                &&& final(db)@ == old(db)@
                &&& r matches Err(ApiError::Internal(m))
                &&& m@ == StoreError::ForeignKeyViolation.spec_message()
            } else {
                &&& final(db)@ == old(db)@.with_user_permission(
                    UserPermission { user_id: user.user_id, permission_id: permission.id },
                )
                &&& r matches Ok(full)
                &&& is_full_permission(final(db)@, permission, full)
            },
        },
{
    let perm = match get_permission(name, db) {
        Ok(perm) => perm,
        Err(e) => {
            return Err(e);
        },
    };
    proof {
        lemma_found_has_key(db@.permissions, permission_named(name@), permission_id());
    }
    let edge = user.into_insert(perm.id);
    match db.assign_user_permission(edge.user_id, edge.permission_id) {
        Ok(()) => Ok(full_permission(perm, db)),
        Err(StoreError::UniqueViolation) => Err(
            ApiError::Conflict(
                String::from_str("The user already has the permission ").concat(name).concat("."),
            ),
        ),
        Err(e) => Err(ApiError::Internal(e.message())),
    }
}

/// `DELETE /permissions/<name>/users/<id>`: an edge that is not there is
/// not found.
pub fn remove(_auth: &Auth<OperatorUser>, name: &str, id: i32, db: &mut AccessGraph) -> (r: Result<
    PermissionFull,
    ApiError,
>)
    requires
        old(db)@.wf(),
    ensures
        final(db)@.wf(),
        match first_where(old(db)@.permissions, permission_named(name@)) {
            None => {
                &&& final(db)@ == old(db)@
                &&& r matches Err(ApiError::NotFound(m))
                &&& m@ == permission_not_found(name@)
            },
            Some(permission) => {
                &&& final(db)@ == old(db)@.without_user_permission(
                    UserPermission { user_id: id, permission_id: permission.id },
                )
                &&& if old(db)@.user_holds(id, permission.id) {
                    r matches Ok(full) && is_full_permission(final(db)@, permission, full)
                } else {
                    &&& r matches Err(ApiError::NotFound(m))
                    &&& m@ == "User with ID "@ + decimal_of(id as int)
                        + " either does not exist, or does not have permission "@ + name@ + "."@
                }
            },
        },
{
    let perm = match get_permission(name, db) {
        Ok(perm) => perm,
        Err(e) => {
            return Err(e);
        },
    };
    if !db.remove_user_permission(id, perm.id) {
        return Err(
            ApiError::NotFound(
                String::from_str("User with ID ").concat(decimal(id).as_str()).concat(
                    " either does not exist, or does not have permission ",
                ).concat(name).concat("."),
            ),
        );
    }
    Ok(full_permission(perm, db))
}

} // verus!

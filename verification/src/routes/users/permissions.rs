//! The permissions of a user.

use vstd::prelude::*;
use vstd::string::*;

use crate::error::ApiError;
use crate::graph::{permission_id, user_id, user_named, AccessGraph, StoreError};
use crate::guards::auth::{Auth, OperatorUser};
use crate::models::{Permission, UserFull, UserPermission, UserPermissionInsert};
use crate::routes::users::{full_user, get_all_permissions, get_user, is_full_user, user_not_found};
use crate::seq_lemmas::{first_where, has_key, lemma_found_has_key};
use crate::text::{decimal, decimal_of};

verus! {

/// A permission that is to be given to a user.
#[derive(Clone, Copy, Debug, PartialEq, Eq, Structural)]
pub struct UserPermissionAppend {
    pub permission_id: i32,
}

impl UserPermissionAppend {
    /// The edge to insert for the user `user_id`.
    pub fn into_insert(self, user_id: i32) -> (r: UserPermissionInsert)
        ensures
            r == (UserPermissionInsert { user_id, permission_id: self.permission_id }),
    {
        UserPermissionInsert { user_id, permission_id: self.permission_id }
    }
}

/// `GET /users/<name>/permissions`.
pub fn list(_auth: &Auth<OperatorUser>, name: &str, db: &AccessGraph) -> (r: Result<
    Vec<Permission>,
    ApiError,
>)
    ensures
        match first_where(db@.users, user_named(name@)) {
            Some(user) => r matches Ok(permissions) && permissions@ == db@.permissions_of(user.id),
            None => {
                &&& r matches Err(ApiError::NotFound(m))
                &&& m@ == user_not_found(name@)
            },
        },
{
    match get_user(name, db) {
        Ok(user) => Ok(get_all_permissions(&user, db)),
        Err(e) => Err(e),
    }
}

/// `POST /users/<name>/permissions`: an edge that is there already is a
/// conflict, and is not stored twice.
pub fn assign(
    _auth: &Auth<OperatorUser>,
    name: &str,
    permission: UserPermissionAppend,
    db: &mut AccessGraph,
) -> (r: Result<UserFull, ApiError>)
    requires
        old(db)@.wf(),
    ensures
        final(db)@.wf(),
        match first_where(old(db)@.users, user_named(name@)) {
            None => {
                &&& final(db)@ == old(db)@
                &&& r matches Err(ApiError::NotFound(m))
                &&& m@ == user_not_found(name@)
            },
            Some(user) => if old(db)@.user_holds(user.id, permission.permission_id) {
                &&& final(db)@ == old(db)@
                &&& r matches Err(ApiError::Conflict(m))
                &&& m@ == "User "@ + name@ + " already has this permission."@
            } else if !has_key(old(db)@.permissions, permission_id(), permission.permission_id) {
                &&& final(db)@ == old(db)@
                &&& r matches Err(ApiError::Internal(m))
                &&& m@ == StoreError::ForeignKeyViolation.spec_message()
            } else {
                &&& final(db)@ == old(db)@.with_user_permission(
                    UserPermission { user_id: user.id, permission_id: permission.permission_id },
                )
                &&& r matches Ok(full)
                &&& is_full_user(final(db)@, user, full)
            },
        },
{
    let user = match get_user(name, db) {
        Ok(user) => user,
        Err(e) => {
            return Err(e);
        },
    };
    proof {
        lemma_found_has_key(db@.users, user_named(name@), user_id());
    }
    let edge = permission.into_insert(user.id);
    match db.assign_user_permission(edge.user_id, edge.permission_id) {
        Ok(()) => Ok(full_user(user, db)),
        Err(StoreError::UniqueViolation) => Err(
            ApiError::Conflict(
                String::from_str("User ").concat(name).concat(" already has this permission."),
            ),
        ),
        Err(e) => Err(ApiError::Internal(e.message())),
    }
}

/// `DELETE /users/<name>/permissions/<id>`: an edge that is not there is
/// not found.
pub fn remove(_auth: &Auth<OperatorUser>, name: &str, id: i32, db: &mut AccessGraph) -> (r: Result<
    UserFull,
    ApiError,
>)
    requires
        old(db)@.wf(),
    ensures
        final(db)@.wf(),
        match first_where(old(db)@.users, user_named(name@)) {
            None => {
                &&& final(db)@ == old(db)@
                &&& r matches Err(ApiError::NotFound(m))
                &&& m@ == user_not_found(name@)
            },
            Some(user) => {
                &&& final(db)@ == old(db)@.without_user_permission(
                    UserPermission { user_id: user.id, permission_id: id },
                )
                &&& if old(db)@.user_holds(user.id, id) {
                    r matches Ok(full) && is_full_user(final(db)@, user, full)
                } else {
                    &&& r matches Err(ApiError::NotFound(m))
                    &&& m@ == "Permission "@ + decimal_of(id as int)
                        + " either does not exist, or does not belong to user "@ + name@
                }
            },
        },
{
    let user = match get_user(name, db) {
        Ok(user) => user,
        Err(e) => {
            return Err(e);
        },
    };
    if !db.remove_user_permission(user.id, id) {
        return Err(
            ApiError::NotFound(
                String::from_str("Permission ").concat(decimal(id).as_str()).concat(
                    " either does not exist, or does not belong to user ",
                ).concat(name),
            ),
        );
    }
    Ok(full_user(user, db))
}

} // verus!

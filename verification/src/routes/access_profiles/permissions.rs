//! The permissions that an access profile admits.

use vstd::prelude::*;
use vstd::string::*;

use crate::error::ApiError;
use crate::graph::{permission_id, profile_id, profile_named, AccessGraph, StoreError};
use crate::guards::auth::{Auth, OperatorUser};
use crate::models::{
    AccessProfileFull, AccessProfilePermission, AccessProfilePermissionInsert, Permission,
};
use crate::routes::access_profiles::{
    access_profile_not_found, full_access_profile, get_access_profile, get_all_permissions,
    is_full_access_profile,
};
use crate::seq_lemmas::{first_where, has_key, lemma_found_has_key};
use crate::text::{decimal, decimal_of};

verus! {

/// A permission that an access profile is to admit.
#[derive(Clone, Copy, Debug, PartialEq, Eq, Structural)]
pub struct AccessProfilePermissionAppend {
    pub permission_id: i32,
}

impl AccessProfilePermissionAppend {
    /// The edge to insert for the access profile `access_profile_id`.
    pub fn into_insert(self, access_profile_id: i32) -> (r: AccessProfilePermissionInsert)
        ensures
            r == (AccessProfilePermissionInsert {
                access_profile_id,
                permission_id: self.permission_id,
            }),
    {
        AccessProfilePermissionInsert { access_profile_id, permission_id: self.permission_id }
    }
}

/// `GET /access-profiles/<name>/permissions`.
pub fn list(_auth: &Auth<OperatorUser>, name: &str, db: &AccessGraph) -> (r: Result<
    Vec<Permission>,
    ApiError,
>)
    ensures
        match first_where(db@.access_profiles, profile_named(name@)) {
            Some(profile) => r matches Ok(permissions) && permissions@
                == db@.permissions_of_profile(profile.id),
            None => {
                &&& r matches Err(ApiError::NotFound(m))
                &&& m@ == access_profile_not_found(name@)
            },
        },
{
    match get_access_profile(name, db) {
        Ok(profile) => Ok(get_all_permissions(&profile, db)),
        Err(e) => Err(e),
    }
}

/// `POST /access-profiles/<name>/permissions`: an edge that is there
/// already is a conflict, and is not stored twice.
pub fn assign(
    _auth: &Auth<OperatorUser>,
    name: &str,
    permission: AccessProfilePermissionAppend,
    db: &mut AccessGraph,
) -> (r: Result<AccessProfileFull, ApiError>)
    requires
        old(db)@.wf(),
    ensures
        final(db)@.wf(),
        match first_where(old(db)@.access_profiles, profile_named(name@)) {
            None => {
                &&& final(db)@ == old(db)@
                &&& r matches Err(ApiError::NotFound(m))
                &&& m@ == access_profile_not_found(name@)
            },
            Some(profile) => if old(db)@.profile_admits(profile.id, permission.permission_id) {
                &&& final(db)@ == old(db)@
                &&& r matches Err(ApiError::Conflict(m))
                &&& m@ == "The permission is already assigned to profile "@ + name@ + "."@
            } else if !has_key(old(db)@.permissions, permission_id(), permission.permission_id) {
                &&& final(db)@ == old(db)@
                &&& r matches Err(ApiError::Internal(m))
                &&& m@ == StoreError::ForeignKeyViolation.spec_message()
            } else {
                &&& final(db)@ == old(db)@.with_profile_permission(
                    AccessProfilePermission {
                        access_profile_id: profile.id,
                        permission_id: permission.permission_id,
                    },
                )
                &&& r matches Ok(full)
                &&& is_full_access_profile(final(db)@, profile, full)
            },
        },
{
    let access_profile = match get_access_profile(name, db) {
        Ok(access_profile) => access_profile,
        Err(e) => {
            return Err(e);
        },
    };
    proof {
        lemma_found_has_key(db@.access_profiles, profile_named(name@), profile_id());
    }
    let edge = permission.into_insert(access_profile.id);
    match db.assign_profile_permission(edge.access_profile_id, edge.permission_id) {
        Ok(()) => Ok(full_access_profile(access_profile, db)),
        Err(StoreError::UniqueViolation) => Err(
            ApiError::Conflict(
                String::from_str("The permission is already assigned to profile ").concat(
                    name,
                ).concat("."),
            ),
        ),
        Err(e) => Err(ApiError::Internal(e.message())),
    }
}

/// `DELETE /access-profiles/<name>/permissions/<id>`: an edge that is not
/// there is not found.
pub fn remove(_auth: &Auth<OperatorUser>, name: &str, id: i32, db: &mut AccessGraph) -> (r: Result<
    AccessProfileFull,
    ApiError,
>)
    requires
        old(db)@.wf(),
    ensures
        final(db)@.wf(),
        match first_where(old(db)@.access_profiles, profile_named(name@)) {
            None => {
                &&& final(db)@ == old(db)@
                &&& r matches Err(ApiError::NotFound(m))
                &&& m@ == access_profile_not_found(name@)
            },
            Some(profile) => {
                &&& final(db)@ == old(db)@.without_profile_permission(
                    AccessProfilePermission { access_profile_id: profile.id, permission_id: id },
                )
                &&& if old(db)@.profile_admits(profile.id, id) {
                    r matches Ok(full) && is_full_access_profile(final(db)@, profile, full)
                } else {
                    &&& r matches Err(ApiError::NotFound(m))
                    &&& m@ == "Permission of id "@ + decimal_of(id as int)
                        + " either does not exist or is not associated with profile "@ + name@
                        + "."@
                }
            },
        },
{
    let access_profile = match get_access_profile(name, db) {
        Ok(access_profile) => access_profile,
        Err(e) => {
            return Err(e);
        },
    };
    if !db.remove_profile_permission(access_profile.id, id) {
        return Err(
            ApiError::NotFound(
                String::from_str("Permission of id ").concat(decimal(id).as_str()).concat(
                    " either does not exist or is not associated with profile ",
                ).concat(name).concat("."),
            ),
        );
    }
    Ok(full_access_profile(access_profile, db))
}

} // verus!

//! The entities of the access-control data model and the edges between them.

use vstd::prelude::*;

verus! {

/// A person who may be let in.
#[derive(Debug, PartialEq, Eq)]
pub struct User {
    pub id: i32,
    pub name: String,
}

/// A credential bound to one user.
#[derive(Debug, PartialEq, Eq)]
pub struct AccessCode {
    pub id: i32,
    pub code: String,
    pub user: i32,
}

/// A named permission, linked to users on one side and to access profiles
/// on the other.
#[derive(Debug, PartialEq, Eq)]
pub struct Permission {
    pub id: i32,
    pub name: String,
}

/// What an access profile does to the lock while it is active.
#[derive(Clone, Copy, Debug, PartialEq, Eq, Structural)]
pub enum AccessProfileAccessMode {
    OpenLock,
    Normal,
}

/// A named policy bundle that can be made the active one.
#[derive(Debug, PartialEq, Eq)]
pub struct AccessProfile {
    pub id: i32,
    pub name: String,
    pub display_text: String,
    pub color: String,
    pub access_mode: AccessProfileAccessMode,
}

/// The edge "this user holds this permission".
#[derive(Clone, Copy, Debug, PartialEq, Eq, Structural)]
pub struct UserPermission {
    pub user_id: i32,
    pub permission_id: i32,
}

/// The edge "this access profile admits this permission".
#[derive(Clone, Copy, Debug, PartialEq, Eq, Structural)]
pub struct AccessProfilePermission {
    pub access_profile_id: i32,
    pub permission_id: i32,
}

/// An operator or administrator of the backend itself.
#[derive(Debug, PartialEq, Eq)]
pub struct WebUIUser {
    pub id: i32,
    pub name: String,
    pub password_hash: String,
    pub is_admin: bool,
    pub ac_does_not_expire: bool,
}

/// A user together with everything that hangs on it.
#[derive(Debug, PartialEq, Eq)]
pub struct UserFull {
    pub user: User,
    pub access_codes: Vec<AccessCode>,
    pub permissions: Vec<Permission>,
}

/// A permission together with its users and its access profiles.
#[derive(Debug, PartialEq, Eq)]
pub struct PermissionFull {
    pub permission: Permission,
    pub users: Vec<User>,
    pub access_profiles: Vec<AccessProfile>,
}

/// An access profile together with the permissions it admits.
#[derive(Debug, PartialEq, Eq)]
pub struct AccessProfileFull {
    pub access_profile: AccessProfile,
    pub permissions: Vec<Permission>,
}

/// A user that is to be created.
#[derive(Debug, PartialEq, Eq)]
pub struct UserInsert {
    pub name: String,
}

/// A permission that is to be created.
#[derive(Debug, PartialEq, Eq)]
pub struct PermissionInsert {
    pub name: String,
}

/// An access profile that is to be created.
#[derive(Debug, PartialEq, Eq)]
pub struct AccessProfileInsert {
    pub name: String,
    pub display_text: String,
    pub color: String,
    pub access_mode: AccessProfileAccessMode,
}

/// An access code that is to be created for the user `user`.
#[derive(Debug, PartialEq, Eq)]
pub struct AccessCodeInsert {
    pub code: String,
    pub user: i32,
}

/// An edge between a user and a permission that is to be created.
#[derive(Clone, Copy, Debug, PartialEq, Eq, Structural)]
pub struct UserPermissionInsert {
    pub user_id: i32,
    pub permission_id: i32,
}

/// An edge between an access profile and a permission that is to be
/// created.
#[derive(Clone, Copy, Debug, PartialEq, Eq, Structural)]
pub struct AccessProfilePermissionInsert {
    pub access_profile_id: i32,
    pub permission_id: i32,
}

/// What is to be changed of a user; `None` leaves a field as it is.
#[derive(Debug, PartialEq, Eq)]
pub struct UserUpdate {
    pub name: Option<String>,
}

/// What is to be changed of a permission; `None` leaves a field as it is.
#[derive(Debug, PartialEq, Eq)]
pub struct PermissionUpdate {
    pub name: Option<String>,
}

/// What is to be changed of an access profile; `None` leaves a field as it
/// is.
#[derive(Debug, PartialEq, Eq)]
pub struct AccessProfileUpdate {
    pub name: Option<String>,
    pub display_text: Option<String>,
    pub color: Option<String>,
    pub access_mode: Option<AccessProfileAccessMode>,
}

/// An account of the backend that is to be created.
#[derive(Debug, PartialEq, Eq)]
pub struct WebUIUserInsert {
    pub name: String,
    pub password_hash: String,
    pub is_admin: bool,
    pub ac_does_not_expire: bool,
}

/// What is to be changed of an account of the backend; `None` leaves a
/// field as it is.
#[derive(Debug, PartialEq, Eq)]
pub struct WebUIUserUpdate {
    pub password_hash: Option<String>,
    pub is_admin: Option<bool>,
    pub ac_does_not_expire: Option<bool>,
}

impl Clone for User {
    fn clone(&self) -> (r: Self)
        ensures
            r == *self,
    {
        User { id: self.id, name: self.name.clone() }
    }
}

impl Clone for AccessCode {
    fn clone(&self) -> (r: Self)
        ensures
            r == *self,
    {
        AccessCode { id: self.id, code: self.code.clone(), user: self.user }
    }
}

impl Clone for Permission {
    fn clone(&self) -> (r: Self)
        ensures
            r == *self,
    {
        Permission { id: self.id, name: self.name.clone() }
    }
}

impl Clone for AccessProfile {
    fn clone(&self) -> (r: Self)
        ensures
            r == *self,
    {
        AccessProfile {
            id: self.id,
            name: self.name.clone(),
            display_text: self.display_text.clone(),
            color: self.color.clone(),
            access_mode: self.access_mode,
        }
    }
}

impl Clone for WebUIUser {
    fn clone(&self) -> (r: Self)
        ensures
            r == *self,
    {
        WebUIUser {
            id: self.id,
            name: self.name.clone(),
            password_hash: self.password_hash.clone(),
            is_admin: self.is_admin,
            ac_does_not_expire: self.ac_does_not_expire,
        }
    }
}

} // verus!

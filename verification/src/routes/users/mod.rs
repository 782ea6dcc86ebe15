//! The users: who they are, what codes they carry and what they may do.

pub mod access_codes;
pub mod paging;
pub mod permissions;

pub use self::paging::list;

use vstd::prelude::*;
use vstd::string::*;

use crate::error::ApiError;
use crate::graph::{
    code_of_user_with_id, user_id, user_name, user_name_taken, user_named, AccessGraph, GraphView,
    StoreError,
};
use crate::guards::auth::{Auth, OperatorUser};
use crate::models::{AccessCode, Permission, User, UserFull, UserInsert, UserUpdate};
use crate::seq_lemmas::{
    first_where, has_key, lemma_above_top_is_new, lemma_first_where_by_key, lemma_found_has_key,
    top_key,
};
use crate::text::{decimal, decimal_of};

verus! {

/// `full` is `user` with its access codes and its permissions, as `graph`
/// has them.
pub open spec fn is_full_user(graph: GraphView, user: User, full: UserFull) -> bool {
    &&& full.user == user
    &&& full.access_codes@ == graph.access_codes_of(user.id)
    &&& full.permissions@ == graph.permissions_of(user.id)
}

/// The message for a user that is not there.
pub open spec fn user_not_found(name: Seq<char>) -> Seq<char> {
    "User "@ + name + " not found."@
}

/// The result is the user named `name`, or says that there is none.
pub open spec fn is_user_named(graph: GraphView, name: Seq<char>, r: Result<User, ApiError>) -> bool {
    match first_where(graph.users, user_named(name)) {
        Some(user) => r == Ok::<User, ApiError>(user),
        None => {
            &&& r matches Err(ApiError::NotFound(m))
            &&& m@ == user_not_found(name)
        },
    }
}

/// The result is the user named `name` with all that hangs on it, or says
/// that there is no such user.
pub open spec fn is_full_user_named(
    graph: GraphView,
    name: Seq<char>,
    r: Result<UserFull, ApiError>,
) -> bool {
    match first_where(graph.users, user_named(name)) {
        Some(user) => r matches Ok(full) && is_full_user(graph, user, full),
        None => {
            &&& r matches Err(ApiError::NotFound(m))
            &&& m@ == user_not_found(name)
        },
    }
}

/// The user named `name`.
pub fn get_user(name: &str, db: &AccessGraph) -> (r: Result<User, ApiError>)
    ensures
        is_user_named(db@, name@, r),
{
    match db.find_user(name) {
        Some(user) => Ok(user),
        None => Err(
            ApiError::NotFound(String::from_str("User ").concat(name).concat(" not found.")),
        ),
    }
}

/// The access codes of `user`.
pub fn get_all_access_codes(user: &User, db: &AccessGraph) -> (r: Vec<AccessCode>)
    ensures
        r@ == db@.access_codes_of(user.id),
{
    db.access_codes_of(user)
}

/// The permissions of `user`.
pub fn get_all_permissions(user: &User, db: &AccessGraph) -> (r: Vec<Permission>)
    ensures
        r@ == db@.permissions_of(user.id),
{
    db.permissions_of(user)
}

/// The access code `id` of `user`.
pub fn get_access_code(user: &User, id: i32, db: &AccessGraph) -> (r: Result<AccessCode, ApiError>)
    ensures
        match first_where(db@.access_codes, code_of_user_with_id(user.id, id)) {
            Some(access_code) => r == Ok::<AccessCode, ApiError>(access_code),
            None => {
                &&& r matches Err(ApiError::NotFound(m))
                &&& m@ == "Access code "@ + decimal_of(id as int)
                    + " does not exist or does not belong to user "@ + user.name@
            },
        },
{
    match db.find_access_code_of(user, id) {
        Some(access_code) => Ok(access_code),
        None => Err(
            ApiError::NotFound(
                String::from_str("Access code ").concat(decimal(id).as_str()).concat(
                    " does not exist or does not belong to user ",
                ).concat(user.name.as_str()),
            ),
        ),
    }
}

/// `user` with all that hangs on it.
pub fn full_user(user: User, db: &AccessGraph) -> (full: UserFull)
    ensures
        is_full_user(db@, user, full),
{
    let access_codes = db.access_codes_of(&user);
    let permissions = db.permissions_of(&user);
    UserFull { user, access_codes, permissions }
}

/// The user named `name` with all that hangs on it.
pub fn get_full_user(name: &str, db: &AccessGraph) -> (r: Result<UserFull, ApiError>)
    ensures
        is_full_user_named(db@, name@, r),
{
    match get_user(name, db) {
        Ok(user) => Ok(full_user(user, db)),
        Err(e) => Err(e),
    }
}

/// `GET /users/<name>`.
pub fn get(_auth: &Auth<OperatorUser>, name: &str, db: &AccessGraph) -> (r: Result<
    UserFull,
    ApiError,
>)
    ensures
        is_full_user_named(db@, name@, r),
{
    get_full_user(name, db)
}

/// `POST /users`: a user with a new name is created under the next id.
pub fn create(_auth: &Auth<OperatorUser>, user: UserInsert, db: &mut AccessGraph) -> (r: Result<
    UserFull,
    ApiError,
>)
    requires
        old(db)@.wf(),
    ensures
        final(db)@.wf(),
        if has_key(old(db)@.users, user_name(), user.name@) {
            &&& final(db)@ == old(db)@
            &&& r matches Err(ApiError::Conflict(m))
            &&& m@ == "User "@ + user.name@ + " already exists."@
        } else if top_key(old(db)@.users, user_id()) == i32::MAX {
            &&& final(db)@ == old(db)@
            &&& r matches Err(ApiError::Internal(m))
            &&& m@ == "No id is left for another row."@
        } else {
            let row = User { id: (top_key(old(db)@.users, user_id()) + 1) as i32, name: user.name };
            &&& final(db)@ == old(db)@.with_user(row)
            &&& r matches Ok(full)
            &&& is_full_user(final(db)@, row, full)
        },
{
    proof {
        lemma_first_where_by_key(db@.users, user_named(user.name@), user_name(), user.name@);
    }
    if db.find_user(user.name.as_str()).is_some() {
        return Err(
            ApiError::Conflict(
                String::from_str("User ").concat(user.name.as_str()).concat(" already exists."),
            ),
        );
    }
    let id = match db.next_user_id() {
        Some(id) => id,
        None => {
            return Err(ApiError::Internal(String::from_str("No id is left for another row.")));
        },
    };
    proof {
        lemma_above_top_is_new(db@.users, user_id(), id);
    }
    let row = User { id, name: user.name };
    let kept = row.clone();
    match db.insert_user(row) {
        Ok(()) => Ok(full_user(kept, db)),
        Err(e) => Err(ApiError::Internal(e.message())),
    }
}

/// `DELETE /users/<name>`: the edges of the user go first, then its access
/// codes, then the user itself. The answer is the user as it was.
pub fn delete(_auth: &Auth<OperatorUser>, name: &str, db: &mut AccessGraph) -> (r: Result<
    UserFull,
    ApiError,
>)
    requires
        old(db)@.wf(),
    ensures
        final(db)@.wf(),
        is_full_user_named(old(db)@, name@, r),
        match first_where(old(db)@.users, user_named(name@)) {
            Some(user) => final(db)@ == old(db)@.without_user(user.id),
            None => final(db)@ == old(db)@,
        },
{
    let user = match get_full_user(name, db) {
        Ok(user) => user,
        Err(e) => {
            return Err(e);
        },
    };
    db.delete_user(user.user.id);
    Ok(user)
}

/// `PATCH /users/<name>`: the user takes the new name, unless another
/// user has it. A change that names no field cannot be stored. The answer
/// is what is then found under `name`, the name that the request came in
/// with.
pub fn update(_auth: &Auth<OperatorUser>, name: &str, user: UserUpdate, db: &mut AccessGraph) -> (r:
    Result<UserFull, ApiError>)
    requires
        old(db)@.wf(),
    ensures
        final(db)@.wf(),
        match first_where(old(db)@.users, user_named(name@)) {
            None => {
                &&& final(db)@ == old(db)@
                &&& r matches Err(ApiError::NotFound(m))
                &&& m@ == user_not_found(name@)
            },
            Some(found) => match user.name {
                None => {
                    &&& final(db)@ == old(db)@
                    &&& r matches Err(ApiError::Internal(m))
                    &&& m@ == "There are no changes to save. This query cannot be built"@
                },
                Some(new_name) => if user_name_taken(
                    old(db)@.users,
                    User { id: found.id, name: new_name },
                ) {
                    &&& final(db)@ == old(db)@
                    &&& r matches Err(ApiError::Internal(m))
                    &&& m@ == StoreError::UniqueViolation.spec_message()
                } else {
                    &&& final(db)@ == old(db)@.with_user_replaced(
                        User { id: found.id, name: new_name },
                    )
                    &&& is_full_user_named(final(db)@, name@, r)
                },
            },
        },
{
    let old_user = match get_user(name, db) {
        Ok(old_user) => old_user,
        Err(e) => {
            return Err(e);
        },
    };
    let new_name = match user.name {
        Some(new_name) => new_name,
        None => {
            return Err(
                ApiError::Internal(
                    String::from_str("There are no changes to save. This query cannot be built"),
                ),
            );
        },
    };
    proof {
        lemma_found_has_key(db@.users, user_named(name@), user_id());
    }
    match db.replace_user(User { id: old_user.id, name: new_name }) {
        Ok(_) => get_full_user(name, db),
        Err(e) => Err(ApiError::Internal(e.message())),
    }
}

} // verus!

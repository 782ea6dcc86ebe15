//! The access codes of a user.

use vstd::prelude::*;
use vstd::string::*;

use crate::command::CommandReply;
use crate::error::ApiError;
use crate::graph::{
    code_equal, code_id, code_of_user_with_id, code_text, user_id, user_named, AccessGraph,
    GraphView,
};
use crate::guards::auth::{Auth, OperatorUser};
use crate::models::{AccessCode, AccessCodeInsert, UserFull};
use crate::routes::users::{
    full_user, get_access_code, get_all_access_codes, get_user, is_full_user, user_not_found,
};
use crate::seq_lemmas::{
    first_where, has_key, lemma_above_top_is_new, lemma_first_where_by_key, lemma_found_has_key,
    top_key,
};
use crate::text::decimal_of;

verus! {

/// A code that is to be registered.
#[derive(Debug, PartialEq, Eq)]
pub struct AccessCodeCreate {
    pub code: String,
}

impl AccessCodeCreate {
    /// The row to insert for the user `user_id`.
    pub fn into_insert(self, user_id: i32) -> (r: AccessCodeInsert)
        ensures
            r == (AccessCodeInsert { code: self.code, user: user_id }),
    {
        AccessCodeInsert { code: self.code, user: user_id }
    }
}

/// The status by which the controller hands out a code it has read.
pub const OK: u16 = 200;

/// The status by which the controller says that nobody presented a code.
pub const NOT_FOUND: u16 = 404;

/// `GET /users/<name>/access-codes`.
pub fn list(_auth: &Auth<OperatorUser>, name: &str, db: &AccessGraph) -> (r: Result<
    Vec<AccessCode>,
    ApiError,
>)
    ensures
        match first_where(db@.users, user_named(name@)) {
            Some(user) => r matches Ok(codes) && codes@ == db@.access_codes_of(user.id),
            None => {
                &&& r matches Err(ApiError::NotFound(m))
                &&& m@ == user_not_found(name@)
            },
        },
{
    match get_user(name, db) {
        Ok(user) => Ok(get_all_access_codes(&user, db)),
        Err(e) => Err(e),
    }
}

/// `GET /users/<name>/access-codes/<id>`.
pub fn get(_auth: &Auth<OperatorUser>, name: &str, id: i32, db: &AccessGraph) -> (r: Result<
    AccessCode,
    ApiError,
>)
    ensures
        match first_where(db@.users, user_named(name@)) {
            Some(user) => match first_where(
                db@.access_codes,
                code_of_user_with_id(user.id, id),
            ) {
                Some(access_code) => r == Ok::<AccessCode, ApiError>(access_code),
                None => {
                    &&& r matches Err(ApiError::NotFound(m))
                    &&& m@ == "Access code "@ + decimal_of(id as int)
                        + " does not exist or does not belong to user "@ + user.name@
                },
            },
            None => {
                &&& r matches Err(ApiError::NotFound(m))
                &&& m@ == user_not_found(name@)
            },
        },
{
    match get_user(name, db) {
        Ok(user) => get_access_code(&user, id, db),
        Err(e) => Err(e),
    }
}

/// What adding the code `code` to the user named `name` comes to: the user
/// has to be there, the code has to be new, and an id has to be left; then
/// the code is stored under the next id and the answer is the user with all
/// that hangs on it.
pub open spec fn added(
    before: GraphView,
    name: Seq<char>,
    code: String,
    after: GraphView,
    r: Result<UserFull, ApiError>,
) -> bool {
    match first_where(before.users, user_named(name)) {
        None => {
            &&& after == before
            &&& r matches Err(ApiError::NotFound(m))
            &&& m@ == user_not_found(name)
        },
        Some(user) => if has_key(before.access_codes, code_text(), code@) {
            &&& after == before
            &&& r matches Err(ApiError::Conflict(m))
            &&& m@ == "This access code is already registered."@
        } else if top_key(before.access_codes, code_id()) == i32::MAX {
            &&& after == before
            &&& r matches Err(ApiError::Internal(m))
            &&& m@ == "No id is left for another row."@
        } else {
            let row = AccessCode {
                id: (top_key(before.access_codes, code_id()) + 1) as i32,
                code,
                user: user.id,
            };
            &&& after == before.with_access_code(row)
            &&& r matches Ok(full)
            &&& is_full_user(after, user, full)
        },
    }
}

/// Stores `code` for the user named `name`.
fn store_code(name: &str, code: AccessCodeCreate, db: &mut AccessGraph) -> (r: Result<UserFull, ApiError>)
    requires
        old(db)@.wf(),
    ensures
        final(db)@.wf(),
        added(old(db)@, name@, code.code, final(db)@, r),
{
    let user = match get_user(name, db) {
        Ok(user) => user,
        Err(e) => {
            return Err(e);
        },
    };
    let row = code.into_insert(user.id);
    proof {
        lemma_first_where_by_key(db@.access_codes, code_equal(row.code@), code_text(), row.code@);
        lemma_found_has_key(db@.users, user_named(name@), user_id());
    }
    if db.find_access_code(row.code.as_str()).is_some() {
        return Err(ApiError::Conflict(String::from_str("This access code is already registered.")));
    }
    let id = match db.next_access_code_id() {
        Some(id) => id,
        None => {
            return Err(ApiError::Internal(String::from_str("No id is left for another row.")));
        },
    };
    proof {
        lemma_above_top_is_new(db@.access_codes, code_id(), id);
    }
    match db.insert_access_code(AccessCode { id, code: row.code, user: row.user }) {
        Ok(()) => Ok(full_user(user, db)),
        Err(e) => Err(ApiError::Internal(e.message())),
    }
}

/// `POST /users/<name>/access-codes`.
pub fn manual_add(
    _auth: &Auth<OperatorUser>,
    name: &str,
    code: AccessCodeCreate,
    db: &mut AccessGraph,
) -> (r: Result<UserFull, ApiError>)
    requires
        old(db)@.wf(),
    ensures
        final(db)@.wf(),
        added(old(db)@, name@, code.code, final(db)@, r),
{
    store_code(name, code, db)
}

/// What the controller's answer to a request for a new code comes to: the
/// code it has read, or the error that the request ends with.
pub open spec fn spec_read_code(reply: CommandReply) -> Result<String, (bool, Seq<char>)> {
    match reply {
        CommandReply::Answered { status, body } => if status == OK {
            match body {
                Some(code) => Ok(code),
                None => Err((false, "Command server returned garbage,"@)),
            }
        } else if status == NOT_FOUND {
            Err((true, "Request timed out."@))
        } else {
            Err((false, "Command server returned "@ + reply.complaint()))
        },
        CommandReply::Unreachable { .. } => Err(
            (false, "Command server returned "@ + reply.complaint()),
        ),
    }
}

/// Reads the new code out of the controller's answer. A code that nobody
/// presented in time is not found; anything else that is no code is the
/// controller's failure.
pub fn read_code(reply: CommandReply) -> (r: Result<AccessCodeCreate, ApiError>)
    ensures
        match spec_read_code(reply) {
            Ok(code) => r == Ok::<AccessCodeCreate, ApiError>(AccessCodeCreate { code }),
            Err((true, text)) => r matches Err(ApiError::NotFound(m)) && m@ == text,
            Err((false, text)) => r matches Err(ApiError::Internal(m)) && m@ == text,
        },
{
    let complaint = reply.complain("Command server returned ");
    match reply {
        CommandReply::Answered { status, body } => {
            if status == OK {
                match body {
                    Some(code) => Ok(AccessCodeCreate { code }),
                    None => Err(
                        ApiError::Internal(String::from_str("Command server returned garbage,")),
                    ),
                }
            } else if status == NOT_FOUND {
                Err(ApiError::NotFound(String::from_str("Request timed out.")))
            } else {
                Err(ApiError::Internal(complaint))
            }
        },
        CommandReply::Unreachable { .. } => Err(ApiError::Internal(complaint)),
    }
}

/// `POST /users/<name>/access-codes/register`: `reply` is the controller's
/// answer to the request for a new code. The answer is looked at first, the
/// user after it.
pub fn register(
    _auth: &Auth<OperatorUser>,
    reply: CommandReply,
    name: &str,
    db: &mut AccessGraph,
) -> (r: Result<UserFull, ApiError>)
    requires
        old(db)@.wf(),
    ensures
        final(db)@.wf(),
        match spec_read_code(reply) {
            Ok(code) => added(old(db)@, name@, code, final(db)@, r),
            Err((true, text)) => {
                &&& final(db)@ == old(db)@
                &&& r matches Err(ApiError::NotFound(m))
                &&& m@ == text
            },
            Err((false, text)) => {
                &&& final(db)@ == old(db)@
                &&& r matches Err(ApiError::Internal(m))
                &&& m@ == text
            },
        },
{
    match read_code(reply) {
        Ok(code) => store_code(name, code, db),
        Err(e) => Err(e),
    }
}

/// `DELETE /users/<name>/access-codes/<id>`, for operators as every other
/// change: the code goes, if the user has it; the answer is the user as it
/// is then.
pub fn delete(_auth: &Auth<OperatorUser>, name: &str, id: i32, db: &mut AccessGraph) -> (r: Result<
    UserFull,
    ApiError,
>)
    requires
        old(db)@.wf(),
    ensures
        final(db)@.wf(),
        match first_where(old(db)@.users, user_named(name@)) {
            Some(user) => {
                &&& final(db)@ == old(db)@.without_access_code(user.id, id)
                &&& r matches Ok(full)
                &&& is_full_user(final(db)@, user, full)
            },
            None => {
                &&& final(db)@ == old(db)@
                &&& r matches Err(ApiError::NotFound(m))
                &&& m@ == user_not_found(name@)
            },
        },
{
    let user = match get_user(name, db) {
        Ok(user) => user,
        Err(e) => {
            return Err(e);
        },
    };
    db.delete_access_code(user.id, id);
    Ok(full_user(user, db))
}

} // verus!

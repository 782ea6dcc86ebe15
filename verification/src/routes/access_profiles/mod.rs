//! The access profiles: the policies that can be made the active one.

pub mod permissions;

use vstd::prelude::*;
use vstd::string::*;

use crate::error::ApiError;
use crate::graph::{
    profile_id, profile_name, profile_name_taken, profile_named, profile_other_than,
    profile_replaced_by, AccessGraph, GraphView, StoreError,
};
use crate::guards::auth::{Auth, OperatorUser};
use crate::models::{
    AccessProfile, AccessProfileFull, AccessProfileInsert, AccessProfileUpdate, Permission,
};
use crate::routes::active_access_profile::ActiveAccessProfile;
use crate::seq_lemmas::{
    first_where, has_key, lemma_above_top_is_new, lemma_filter_has_key, lemma_first_where,
    lemma_first_where_by_key, lemma_found_has_key, top_key,
};

verus! {

/// `full` is `access_profile` with the permissions it admits, as `graph`
/// has them.
pub open spec fn is_full_access_profile(
    graph: GraphView,
    access_profile: AccessProfile,
    full: AccessProfileFull,
) -> bool {
    &&& full.access_profile == access_profile
    &&& full.permissions@ == graph.permissions_of_profile(access_profile.id)
}

/// The message for an access profile that is not there.
pub open spec fn access_profile_not_found(name: Seq<char>) -> Seq<char> {
    "Access profile "@ + name + " not found."@
}

/// The result is the access profile named `name` with all that hangs on it,
/// or says that there is no such profile.
pub open spec fn is_full_access_profile_named(
    graph: GraphView,
    name: Seq<char>,
    r: Result<AccessProfileFull, ApiError>,
) -> bool {
    match first_where(graph.access_profiles, profile_named(name)) {
        Some(profile) => r matches Ok(full) && is_full_access_profile(graph, profile, full),
        None => {
            &&& r matches Err(ApiError::NotFound(m))
            &&& m@ == access_profile_not_found(name)
        },
    }
}

/// The access profile named `name`.
pub fn get_access_profile(name: &str, db: &AccessGraph) -> (r: Result<AccessProfile, ApiError>)
    ensures
        match first_where(db@.access_profiles, profile_named(name@)) {
            Some(profile) => r == Ok::<AccessProfile, ApiError>(profile),
            None => {
                &&& r matches Err(ApiError::NotFound(m))
                &&& m@ == access_profile_not_found(name@)
            },
        },
{
    match db.find_access_profile(name) {
        Some(profile) => Ok(profile),
        None => Err(
            ApiError::NotFound(
                String::from_str("Access profile ").concat(name).concat(" not found."),
            ),
        ),
    }
}

/// The permissions that `access_profile` admits.
pub fn get_all_permissions(access_profile: &AccessProfile, db: &AccessGraph) -> (r: Vec<Permission>)
    ensures
        r@ == db@.permissions_of_profile(access_profile.id),
{
    db.permissions_of_profile(access_profile)
}

/// `access_profile` with all that hangs on it.
pub fn full_access_profile(access_profile: AccessProfile, db: &AccessGraph) -> (full:
    AccessProfileFull)
    ensures
        is_full_access_profile(db@, access_profile, full),
{
    let permissions = db.permissions_of_profile(&access_profile);
    AccessProfileFull { access_profile, permissions }
}

/// The access profile named `name` with all that hangs on it.
pub fn get_full_access_profile(name: &str, db: &AccessGraph) -> (r: Result<
    AccessProfileFull,
    ApiError,
>)
    ensures
        is_full_access_profile_named(db@, name@, r),
{
    match get_access_profile(name, db) {
        Ok(profile) => Ok(full_access_profile(profile, db)),
        Err(e) => Err(e),
    }
}

/// `GET /access-profiles`.
pub fn list(_auth: &Auth<OperatorUser>, db: &AccessGraph) -> (r: Vec<AccessProfile>)
    ensures
        r@ == db@.access_profiles,
{
    db.all_access_profiles()
}

/// `GET /access-profiles/<name>`.
pub fn get(_auth: &Auth<OperatorUser>, name: &str, db: &AccessGraph) -> (r: Result<
    AccessProfileFull,
    ApiError,
>)
    ensures
        is_full_access_profile_named(db@, name@, r),
{
    get_full_access_profile(name, db)
}

/// `POST /access-profiles`: an access profile with a new name is created
/// under the next id.
pub fn create(
    _auth: &Auth<OperatorUser>,
    access_profile: AccessProfileInsert,
    db: &mut AccessGraph,
) -> (r: Result<AccessProfileFull, ApiError>)
    requires
        old(db)@.wf(),
    ensures
        final(db)@.wf(),
        if has_key(old(db)@.access_profiles, profile_name(), access_profile.name@) {
            &&& final(db)@ == old(db)@
            &&& r matches Err(ApiError::Conflict(m))
            &&& m@ == "Access profile "@ + access_profile.name@ + " already exists."@
        } else if top_key(old(db)@.access_profiles, profile_id()) == i32::MAX {
            &&& final(db)@ == old(db)@
            &&& r matches Err(ApiError::Internal(m))
            &&& m@ == "No id is left for another row."@
        } else {
            let row = AccessProfile {
                id: (top_key(old(db)@.access_profiles, profile_id()) + 1) as i32,
                name: access_profile.name,
                display_text: access_profile.display_text,
                color: access_profile.color,
                access_mode: access_profile.access_mode,
            };
            &&& final(db)@ == old(db)@.with_access_profile(row)
            &&& r matches Ok(full)
            &&& is_full_access_profile(final(db)@, row, full)
        },
{
    proof {
        lemma_first_where_by_key(
            db@.access_profiles,
            profile_named(access_profile.name@),
            profile_name(),
            access_profile.name@,
        );
    }
    if db.find_access_profile(access_profile.name.as_str()).is_some() {
        return Err(
            ApiError::Conflict(
                String::from_str("Access profile ").concat(access_profile.name.as_str()).concat(
                    " already exists.",
                ),
            ),
        );
    }
    let id = match db.next_access_profile_id() {
        Some(id) => id,
        None => {
            return Err(ApiError::Internal(String::from_str("No id is left for another row.")));
        },
    };
    proof {
        lemma_above_top_is_new(db@.access_profiles, profile_id(), id);
    }
    let row = AccessProfile {
        id,
        name: access_profile.name,
        display_text: access_profile.display_text,
        color: access_profile.color,
        access_mode: access_profile.access_mode,
    };
    let kept = row.clone();
    match db.insert_access_profile(row) {
        Ok(()) => Ok(full_access_profile(kept, db)),
        Err(e) => Err(ApiError::Internal(e.message())),
    }
}

/// `DELETE /access-profiles/<name>`: the profile that is enforced right now
/// stays; of any other, the permission edges go first, then the profile
/// itself. The answer is the profile as it was.
pub fn delete(
    _auth: &Auth<OperatorUser>,
    name: &str,
    db: &mut AccessGraph,
    aacp: &ActiveAccessProfile,
) -> (r: Result<AccessProfileFull, ApiError>)
    requires
        old(db)@.wf(),
    ensures
        final(db)@.wf(),
        match first_where(old(db)@.access_profiles, profile_named(name@)) {
            None => {
                &&& final(db)@ == old(db)@
                &&& r matches Err(ApiError::NotFound(m))
                &&& m@ == access_profile_not_found(name@)
            },
            Some(profile) => if aacp@.name == name@ {
                &&& final(db)@ == old(db)@
                &&& r matches Err(ApiError::Conflict(m))
                &&& m@ == "Access profile "@ + name@ + " is active."@
            } else {
                &&& final(db)@ == old(db)@.without_access_profile(profile.id)
                &&& r matches Ok(full)
                &&& is_full_access_profile(old(db)@, profile, full)
            },
        },
        has_key(old(db)@.access_profiles, profile_name(), aacp@.name) ==> has_key(
            final(db)@.access_profiles,
            profile_name(),
            aacp@.name,
        ),
{
    let access_profile = match get_full_access_profile(name, db) {
        Ok(access_profile) => access_profile,
        Err(e) => {
            return Err(e);
        },
    };
    if aacp.get() == String::from_str(name) {
        return Err(
            ApiError::Conflict(
                String::from_str("Access profile ").concat(name).concat(" is active."),
            ),
        );
    }
    proof {
        let id = access_profile.access_profile.id;
        let rows = db@.access_profiles;
        lemma_first_where(rows, profile_named(name@));
        let at = choose|i: int|
            0 <= i < rows.len() && #[trigger] rows[i] == access_profile.access_profile
                && profile_named(name@)(access_profile.access_profile);
        if has_key(rows, profile_name(), aacp@.name) {
            let k = choose|k: int|
                0 <= k < rows.len() && profile_name()(#[trigger] rows[k]) == aacp@.name;
            assert(rows[k].name@ != rows[at].name@);
            if k < at {
                assert(profile_id()(rows[k]) != profile_id()(rows[at]));
            } else {
                assert(profile_id()(rows[at]) != profile_id()(rows[k]));
            }
            assert(profile_other_than(id)(rows[k]));
            lemma_filter_has_key(rows, profile_other_than(id), profile_name(), aacp@.name);
        }
    }
    db.delete_access_profile(access_profile.access_profile.id);
    Ok(access_profile)
}

/// The access profile after the change: each field that the change names
/// is replaced.
pub open spec fn profile_patched(profile: AccessProfile, change: AccessProfileUpdate) -> AccessProfile {
    AccessProfile {
        id: profile.id,
        name: match change.name {
            Some(name) => name,
            None => profile.name,
        },
        display_text: match change.display_text {
            Some(text) => text,
            None => profile.display_text,
        },
        color: match change.color {
            Some(color) => color,
            None => profile.color,
        },
        access_mode: match change.access_mode {
            Some(mode) => mode,
            None => profile.access_mode,
        },
    }
}

/// The change names no field at all.
pub open spec fn profile_change_is_empty(change: AccessProfileUpdate) -> bool {
    change.name is None && change.display_text is None && change.color is None
        && change.access_mode is None
}

/// `PATCH /access-profiles/<name>`: the fields that the change names are
/// replaced, unless another profile has the new name. The profile that is
/// enforced right now keeps its name. A change that names no field cannot
/// be stored. The answer is what is then found under `name`, the name that
/// the request came in with.
pub fn update(
    _auth: &Auth<OperatorUser>,
    name: &str,
    access_profile: AccessProfileUpdate,
    db: &mut AccessGraph,
    aacp: &ActiveAccessProfile,
) -> (r: Result<AccessProfileFull, ApiError>)
    requires
        old(db)@.wf(),
    ensures
        final(db)@.wf(),
        match first_where(old(db)@.access_profiles, profile_named(name@)) {
            None => {
                &&& final(db)@ == old(db)@
                &&& r matches Err(ApiError::NotFound(m))
                &&& m@ == access_profile_not_found(name@)
            },
            Some(found) => if profile_change_is_empty(access_profile) {
                &&& final(db)@ == old(db)@
                &&& r matches Err(ApiError::Internal(m))
                &&& m@ == "There are no changes to save. This query cannot be built"@
            } else if aacp@.name == name@ && profile_patched(found, access_profile).name@ != name@ {
                &&& final(db)@ == old(db)@
                &&& r matches Err(ApiError::Conflict(m))
                &&& m@ == "Access profile "@ + name@ + " is active."@
            } else if profile_name_taken(
                old(db)@.access_profiles,
                profile_patched(found, access_profile),
            ) {
                &&& final(db)@ == old(db)@
                &&& r matches Err(ApiError::Internal(m))
                &&& m@ == StoreError::UniqueViolation.spec_message()
            } else {
                &&& final(db)@ == old(db)@.with_profile_replaced(
                    profile_patched(found, access_profile),
                )
                &&& is_full_access_profile_named(final(db)@, name@, r)
            },
        },
        has_key(old(db)@.access_profiles, profile_name(), aacp@.name) ==> has_key(
            final(db)@.access_profiles,
            profile_name(),
            aacp@.name,
        ),
{
    let found = match get_access_profile(name, db) {
        Ok(found) => found,
        Err(e) => {
            return Err(e);
        },
    };
    if access_profile.name.is_none() && access_profile.display_text.is_none()
        && access_profile.color.is_none() && access_profile.access_mode.is_none() {
        return Err(
            ApiError::Internal(
                String::from_str("There are no changes to save. This query cannot be built"),
            ),
        );
    }
    let ghost before = found;
    let row = AccessProfile {
        id: found.id,
        name: match access_profile.name {
            Some(name) => name,
            None => found.name,
        },
        display_text: match access_profile.display_text {
            Some(text) => text,
            None => found.display_text,
        },
        color: match access_profile.color {
            Some(color) => color,
            None => found.color,
        },
        access_mode: match access_profile.access_mode {
            Some(mode) => mode,
            None => found.access_mode,
        },
    };
    assert(row == profile_patched(before, access_profile));
    let wanted = String::from_str(name);
    if aacp.get() == wanted && row.name != wanted {
        return Err(
            ApiError::Conflict(
                String::from_str("Access profile ").concat(name).concat(" is active."),
            ),
        );
    }
    proof {
        let rows = db@.access_profiles;
        lemma_found_has_key(rows, profile_named(name@), profile_id());
        lemma_first_where(rows, profile_named(name@));
        let at = choose|i: int|
            0 <= i < rows.len() && #[trigger] rows[i] == before && profile_named(name@)(before);
        if has_key(rows, profile_name(), aacp@.name) && !profile_name_taken(rows, row) {
            let k = choose|k: int|
                0 <= k < rows.len() && profile_name()(#[trigger] rows[k]) == aacp@.name;
            let after = rows.map_values(profile_replaced_by(row));
            if rows[k].id == row.id {
                if k < at {
                    assert(profile_id()(rows[k]) != profile_id()(rows[at]));
                } else if at < k {
                    assert(profile_id()(rows[at]) != profile_id()(rows[k]));
                }
                assert(after[k] == row);
                assert(profile_name()(after[k]) == aacp@.name);
            } else {
                assert(after[k] == rows[k]);
                assert(profile_name()(after[k]) == aacp@.name);
            }
        }
    }
    match db.replace_access_profile(row) {
        Ok(_) => get_full_access_profile(name, db),
        Err(e) => Err(ApiError::Internal(e.message())),
    }
}

} // verus!

//! The accounts of the backend itself: the operators and administrators
//! that log in to it.

use vstd::prelude::*;
use vstd::string::*;

use crate::crypto::{sha256_digest, sha256_hex};
use crate::error::ApiError;
use crate::graph::StoreError;
use crate::guards::auth::{AdminUser, Auth, OperatorUser};
use crate::models::{WebUIUser, WebUIUserInsert, WebUIUserUpdate};
use crate::seq_lemmas::{
    distinct_by, first_where, has_key, lemma_above_top_is_new, lemma_filter_distinct_by,
    lemma_first_where, lemma_first_where_by_key, lemma_first_where_skip, lemma_push_distinct_by,
    top_key,
};

verus! {

/// An account as it is shown: without the hash of its password.
#[derive(Debug, PartialEq, Eq)]
pub struct WebUIUserOutput {
    pub id: i32,
    pub name: String,
    pub is_admin: bool,
    pub ac_does_not_expire: bool,
}

/// An account that is to be created.
#[derive(Debug, PartialEq, Eq)]
pub struct WebUIUserCreate {
    pub name: String,
    pub password: String,
    pub is_admin: bool,
    pub ac_does_not_expire: bool,
}

/// What is to be changed of an account; `None` leaves a field as it is.
#[derive(Debug, PartialEq, Eq)]
pub struct WebUIUserPatch {
    pub password: Option<String>,
    pub is_admin: Option<bool>,
    pub ac_does_not_expire: Option<bool>,
}

/// The table of accounts.
pub struct WebUIUsers {
    rows: Vec<WebUIUser>,
}

/// The key of an account.
pub open spec fn account_id() -> spec_fn(WebUIUser) -> i32 {
    |u: WebUIUser| u.id
}

/// The unique name of an account.
pub open spec fn account_name() -> spec_fn(WebUIUser) -> Seq<char> {
    |u: WebUIUser| u.name@
}

/// Selects the accounts named `name`.
pub open spec fn account_named(name: Seq<char>) -> spec_fn(WebUIUser) -> bool {
    |u: WebUIUser| u.name@ == name
}

/// Selects every account but the ones named `name`.
pub open spec fn account_not_named(name: Seq<char>) -> spec_fn(WebUIUser) -> bool {
    |u: WebUIUser| u.name@ != name
}

/// Ids and names tell the accounts apart.
pub open spec fn accounts_wf(rows: Seq<WebUIUser>) -> bool {
    &&& distinct_by(rows, account_id())
    &&& distinct_by(rows, account_name())
}

/// What is shown of an account.
pub open spec fn shown(user: WebUIUser, out: WebUIUserOutput) -> bool {
    &&& out.id == user.id
    &&& out.name@ == user.name@
    &&& out.is_admin == user.is_admin
    &&& out.ac_does_not_expire == user.ac_does_not_expire
}

/// The account after the change: each field that the change names is
/// replaced.
pub open spec fn patched(user: WebUIUser, change: WebUIUserUpdate) -> WebUIUser {
    WebUIUser {
        id: user.id,
        name: user.name,
        password_hash: match change.password_hash {
            Some(hash) => hash,
            None => user.password_hash,
        },
        is_admin: match change.is_admin {
            Some(flag) => flag,
            None => user.is_admin,
        },
        ac_does_not_expire: match change.ac_does_not_expire {
            Some(flag) => flag,
            None => user.ac_does_not_expire,
        },
    }
}

/// Applies the change to the accounts named `name`.
pub open spec fn patch_named(name: Seq<char>, change: WebUIUserUpdate) -> spec_fn(
    WebUIUser,
) -> WebUIUser {
    |u: WebUIUser|
        if u.name@ == name {
            patched(u, change)
        } else {
            u
        }
}

/// The change names no field at all.
pub open spec fn changes_nothing(change: WebUIUserUpdate) -> bool {
    change.password_hash is None && change.is_admin is None && change.ac_does_not_expire is None
}

/// The message for an account that is not there.
pub open spec fn account_not_found(name: Seq<char>) -> Seq<char> {
    "User "@ + name + " not found."@
}

impl View for WebUIUsers {
    type V = Seq<WebUIUser>;

    closed spec fn view(&self) -> Seq<WebUIUser> {
        self.rows@
    }
}

impl vstd::std_specs::convert::FromSpecImpl<WebUIUser> for WebUIUserOutput {
    open spec fn obeys_from_spec() -> bool {
        true
    }

    open spec fn from_spec(user: WebUIUser) -> WebUIUserOutput {
        WebUIUserOutput {
            id: user.id,
            name: user.name,
            is_admin: user.is_admin,
            ac_does_not_expire: user.ac_does_not_expire,
        }
    }
}

impl From<WebUIUser> for WebUIUserOutput {
    fn from(user: WebUIUser) -> (out: WebUIUserOutput) {
        WebUIUserOutput {
            id: user.id,
            name: user.name,
            is_admin: user.is_admin,
            ac_does_not_expire: user.ac_does_not_expire,
        }
    }
}

impl WebUIUserCreate {
    /// The row to insert: the password is stored as its digest.
    pub fn into_insert(self) -> (r: WebUIUserInsert)
        ensures
            r.name == self.name,
            r.password_hash@ == sha256_digest(self.password@),
            r.is_admin == self.is_admin,
            r.ac_does_not_expire == self.ac_does_not_expire,
    {
        WebUIUserInsert {
            password_hash: sha256_hex(self.password.as_str()),
            name: self.name,
            is_admin: self.is_admin,
            ac_does_not_expire: self.ac_does_not_expire,
        }
    }
}

impl WebUIUserPatch {
    /// The change to store: a new password is stored as its digest.
    pub fn into_update(self) -> (r: WebUIUserUpdate)
        ensures
            match self.password {
                Some(password) => r.password_hash matches Some(hash) && hash@ == sha256_digest(
                    password@,
                ),
                None => r.password_hash is None,
            },
            r.is_admin == self.is_admin,
            r.ac_does_not_expire == self.ac_does_not_expire,
    {
        let password_hash = match self.password {
            Some(password) => Some(sha256_hex(password.as_str())),
            None => None,
        };
        WebUIUserUpdate {
            password_hash,
            is_admin: self.is_admin,
            ac_does_not_expire: self.ac_does_not_expire,
        }
    }
}

impl WebUIUsers {
    /// The empty table.
    pub fn new() -> (t: WebUIUsers)
        ensures
            t@ == Seq::<WebUIUser>::empty(),
            accounts_wf(t@),
    {
        WebUIUsers { rows: Vec::new() }
    }

    /// The account named `name`.
    pub fn find(&self, name: &str) -> (r: Option<WebUIUser>)
        ensures
            r == first_where(self@, account_named(name@)),
    {
        let wanted = String::from_str(name);
        let mut i: usize = 0;
        proof {
            assert(self.rows@.skip(0) =~= self.rows@);
        }
        while i < self.rows.len()
            invariant
                i <= self.rows.len(),
                wanted@ == name@,
                first_where(self.rows@, account_named(name@)) == first_where(
                    self.rows@.skip(i as int),
                    account_named(name@),
                ),
            decreases self.rows.len() - i,
        {
            if self.rows[i].name == wanted {
                return Some(self.rows[i].clone());
            }
            proof {
                lemma_first_where_skip(self.rows@, account_named(name@), i as int);
            }
            i += 1;
        }
        None
    }

    /// Adds an account as it stands. The store refuses a row whose id or
    /// name is taken.
    pub fn insert(&mut self, row: WebUIUser) -> (r: Result<(), StoreError>)
        requires
            accounts_wf(old(self)@),
        ensures
            accounts_wf(final(self)@),
            r is Ok <==> !has_key(old(self)@, account_id(), row.id) && !has_key(
                old(self)@,
                account_name(),
                row.name@,
            ),
            r is Ok ==> final(self)@ == old(self)@.push(row),
            r is Err ==> r == Err::<(), StoreError>(StoreError::UniqueViolation) && final(self)@
                == old(self)@,
    {
        let mut i: usize = 0;
        while i < self.rows.len()
            invariant
                i <= self.rows.len(),
                *self == *old(self),
                accounts_wf(old(self)@),
                forall|k: int|
                    0 <= k < i ==> (#[trigger] self.rows@[k]).id != row.id && self.rows@[k].name@
                        != row.name@,
            decreases self.rows.len() - i,
        {
            if self.rows[i].id == row.id || self.rows[i].name == row.name {
                proof {
                    if self.rows@[i as int].id == row.id {
                        assert(account_id()(self.rows@[i as int]) == row.id);
                    } else {
                        assert(account_name()(self.rows@[i as int]) == row.name@);
                    }
                }
                return Err(StoreError::UniqueViolation);
            }
            i += 1;
        }
        proof {
            lemma_push_distinct_by(self@, row, account_id());
            lemma_push_distinct_by(self@, row, account_name());
        }
        self.rows.push(row);
        Ok(())
    }

    /// The id that the store gives to the next account, if one is left.
    fn next_id(&self) -> (r: Option<i32>)
        ensures
            match r {
                Some(id) => id == top_key(self@, account_id()) + 1,
                None => top_key(self@, account_id()) == i32::MAX,
            },
    {
        let mut top: i32 = 0;
        let mut i: usize = 0;
        while i < self.rows.len()
            invariant
                i <= self.rows.len(),
                top == top_key(self.rows@.take(i as int), account_id()),
            decreases self.rows.len() - i,
        {
            proof {
                let next = self.rows@.take(i as int + 1);
                assert(next.drop_last() =~= self.rows@.take(i as int));
                assert(next.last() == self.rows@[i as int]);
            }
            if self.rows[i].id > top {
                top = self.rows[i].id;
            }
            i += 1;
        }
        proof {
            self.rows@.lemma_take_len();
        }
        if top == i32::MAX {
            None
        } else {
            Some(top + 1)
        }
    }
}

/// `GET /web-ui-users`.
pub fn list(_auth: &Auth<OperatorUser>, db: &WebUIUsers) -> (r: Vec<WebUIUserOutput>)
    ensures
        r@.len() == db@.len(),
        forall|i: int| 0 <= i < r@.len() ==> shown(db@[i], #[trigger] r@[i]),
{
    let mut out: Vec<WebUIUserOutput> = Vec::new();
    let mut i: usize = 0;
    while i < db.rows.len()
        invariant
            i <= db.rows.len(),
            out@.len() == i,
            forall|k: int| 0 <= k < i ==> shown(db.rows@[k], #[trigger] out@[k]),
        decreases db.rows.len() - i,
    {
        out.push(WebUIUserOutput::from(db.rows[i].clone()));
        i += 1;
    }
    out
}

/// `GET /web-ui-users/<name>`.
pub fn get(_auth: &Auth<OperatorUser>, name: &str, db: &WebUIUsers) -> (r: Result<
    WebUIUserOutput,
    ApiError,
>)
    ensures
        match first_where(db@, account_named(name@)) {
            Some(user) => r matches Ok(out) && shown(user, out),
            None => {
                &&& r matches Err(ApiError::NotFound(m))
                &&& m@ == account_not_found(name@)
            },
        },
{
    match db.find(name) {
        Some(user) => Ok(WebUIUserOutput::from(user)),
        None => Err(
            ApiError::NotFound(String::from_str("User ").concat(name).concat(" not found.")),
        ),
    }
}

/// `POST /web-ui-users`, for administrators: an account with a new name is
/// created under the next id, with the digest of its password.
pub fn create(_auth: &Auth<AdminUser>, wu_user: WebUIUserCreate, db: &mut WebUIUsers) -> (r: Result<
    WebUIUserOutput,
    ApiError,
>)
    requires
        accounts_wf(old(db)@),
    ensures
        accounts_wf(final(db)@),
        if has_key(old(db)@, account_name(), wu_user.name@) {
            &&& final(db)@ == old(db)@
            &&& r matches Err(ApiError::Conflict(m))
            &&& m@ == "User "@ + wu_user.name@ + " already exists."@
        } else if top_key(old(db)@, account_id()) == i32::MAX {
            &&& final(db)@ == old(db)@
            &&& r matches Err(ApiError::Internal(m))
            &&& m@ == "No id is left for another row."@
        } else {
            &&& final(db)@.len() == old(db)@.len() + 1
            &&& final(db)@.drop_last() == old(db)@
            &&& final(db)@.last().id == top_key(old(db)@, account_id()) + 1
            &&& final(db)@.last().name == wu_user.name
            &&& final(db)@.last().password_hash@ == sha256_digest(wu_user.password@)
            &&& final(db)@.last().is_admin == wu_user.is_admin
            &&& final(db)@.last().ac_does_not_expire == wu_user.ac_does_not_expire
            &&& r matches Ok(out)
            &&& shown(final(db)@.last(), out)
        },
{
    proof {
        lemma_first_where_by_key(db@, account_named(wu_user.name@), account_name(), wu_user.name@);
    }
    if db.find(wu_user.name.as_str()).is_some() {
        return Err(
            ApiError::Conflict(
                String::from_str("User ").concat(wu_user.name.as_str()).concat(" already exists."),
            ),
        );
    }
    let id = match db.next_id() {
        Some(id) => id,
        None => {
            return Err(ApiError::Internal(String::from_str("No id is left for another row.")));
        },
    };
    let insert = wu_user.into_insert();
    let row = WebUIUser {
        id,
        name: insert.name,
        password_hash: insert.password_hash,
        is_admin: insert.is_admin,
        ac_does_not_expire: insert.ac_does_not_expire,
    };
    let out = WebUIUserOutput::from(row.clone());
    proof {
        lemma_above_top_is_new(db@, account_id(), id);
        lemma_push_distinct_by(db@, row, account_id());
        lemma_push_distinct_by(db@, row, account_name());
    }
    db.rows.push(row);
    assert(db@.drop_last() =~= old(db)@);
    Ok(out)
}

/// `PATCH /web-ui-users/<name>`, for administrators: the fields that the
/// change names are replaced. A change that names no field cannot be
/// stored.
pub fn update(
    _auth: &Auth<AdminUser>,
    name: &str,
    wu_user: WebUIUserPatch,
    db: &mut WebUIUsers,
) -> (r: Result<WebUIUserOutput, ApiError>)
    requires
        accounts_wf(old(db)@),
    ensures
        accounts_wf(final(db)@),
        match first_where(old(db)@, account_named(name@)) {
            None => {
                &&& final(db)@ == old(db)@
                &&& r matches Err(ApiError::NotFound(m))
                &&& m@ == account_not_found(name@)
            },
            Some(user) => if wu_user.password is None && wu_user.is_admin is None
                && wu_user.ac_does_not_expire is None {
                &&& final(db)@ == old(db)@
                &&& r matches Err(ApiError::Internal(m))
                &&& m@ == "There are no changes to save. This query cannot be built"@
            } else {
                &&& final(db)@.len() == old(db)@.len()
                &&& forall|i: int|
                    0 <= i < old(db)@.len() && (#[trigger] old(db)@[i]).name@ != name@
                        ==> final(db)@[i] == old(db)@[i]
                &&& forall|i: int|
                    0 <= i < old(db)@.len() && (#[trigger] old(db)@[i]).name@ == name@ ==> {
                        &&& final(db)@[i].id == old(db)@[i].id
                        &&& final(db)@[i].name == old(db)@[i].name
                        &&& final(db)@[i].password_hash@ == (match wu_user.password {
                            Some(password) => sha256_digest(password@),
                            None => old(db)@[i].password_hash@,
                        })
                        &&& final(db)@[i].is_admin == (match wu_user.is_admin {
                            Some(flag) => flag,
                            None => old(db)@[i].is_admin,
                        })
                        &&& final(db)@[i].ac_does_not_expire == (match wu_user.ac_does_not_expire {
                            Some(flag) => flag,
                            None => old(db)@[i].ac_does_not_expire,
                        })
                    }
                &&& r matches Ok(out)
                &&& exists|i: int|
                    0 <= i < final(db)@.len() && final(db)@[i].name@ == name@ && shown(
                        #[trigger] final(db)@[i],
                        out,
                    )
            },
        },
{
    proof {
        lemma_first_where(db@, account_named(name@));
    }
    if db.find(name).is_none() {
        return Err(
            ApiError::NotFound(String::from_str("User ").concat(name).concat(" not found.")),
        );
    }
    let change = wu_user.into_update();
    if change.password_hash.is_none() && change.is_admin.is_none()
        && change.ac_does_not_expire.is_none() {
        return Err(
            ApiError::Internal(
                String::from_str("There are no changes to save. This query cannot be built"),
            ),
        );
    }
    let wanted = String::from_str(name);
    let mut shown_row: Option<WebUIUserOutput> = None;
    let mut out: Vec<WebUIUser> = Vec::new();
    let mut i: usize = 0;
    let ghost witness: int = choose|k: int|
        0 <= k < db@.len() && account_named(name@)(#[trigger] db@[k]);
    let ghost mut at: int = 0;
    while i < db.rows.len()
        invariant
            i <= db.rows.len(),
            *db == *old(db),
            wanted@ == name@,
            out@.len() == i,
            0 <= witness < db@.len() && db@[witness].name@ == name@,
            forall|k: int| 0 <= k < i ==> (#[trigger] out@[k]).id == db@[k].id && out@[k].name
                == db@[k].name,
            forall|k: int| 0 <= k < i && (#[trigger] db@[k]).name@ != name@ ==> out@[k] == db@[k],
            forall|k: int| 0 <= k < i && (#[trigger] db@[k]).name@ == name@ ==> out@[k] == patched(
                db@[k],
                change,
            ),
            forall|k: int| 0 <= k < i && (#[trigger] db@[k]).name@ == name@ ==> shown_row is Some,
            shown_row is Some ==> 0 <= at < i && db@[at].name@ == name@ && shown(
                out@[at],
                shown_row->Some_0,
            ),
        decreases db.rows.len() - i,
    {
        let row = db.rows[i].clone();
        if row.name == wanted {
            let password_hash = match &change.password_hash {
                Some(hash) => hash.clone(),
                None => row.password_hash,
            };
            let is_admin = match change.is_admin {
                Some(flag) => flag,
                None => row.is_admin,
            };
            let ac_does_not_expire = match change.ac_does_not_expire {
                Some(flag) => flag,
                None => row.ac_does_not_expire,
            };
            let new_row = WebUIUser {
                id: row.id,
                name: row.name,
                password_hash,
                is_admin,
                ac_does_not_expire,
            };
            shown_row = Some(WebUIUserOutput::from(new_row.clone()));
            out.push(new_row);
            proof {
                at = i as int;
            }
        } else {
            out.push(row);
        }
        i += 1;
    }
    proof {
        assert forall|a: int, b: int| 0 <= a < b < out@.len() implies account_id()(
            #[trigger] out@[a],
        ) != account_id()(#[trigger] out@[b]) by {
            assert(account_id()(db@[a]) != account_id()(db@[b]));
        }
        assert forall|a: int, b: int| 0 <= a < b < out@.len() implies account_name()(
            #[trigger] out@[a],
        ) != account_name()(#[trigger] out@[b]) by {
            assert(account_name()(db@[a]) != account_name()(db@[b]));
        }
    }
    proof {
        assert(db@[witness].name@ == name@);
    }
    db.rows = out;
    match shown_row {
        Some(seen) => Ok(seen),
        None => Err(
            ApiError::NotFound(String::from_str("User ").concat(name).concat(" not found.")),
        ),
    }
}

/// `DELETE /web-ui-users/<name>`, for administrators. The answer is the
/// account as it was.
pub fn delete(_auth: &Auth<AdminUser>, name: &str, db: &mut WebUIUsers) -> (r: Result<
    WebUIUserOutput,
    ApiError,
>)
    requires
        accounts_wf(old(db)@),
    ensures
        accounts_wf(final(db)@),
        match first_where(old(db)@, account_named(name@)) {
            Some(user) => {
                &&& final(db)@ == old(db)@.filter(account_not_named(name@))
                &&& r matches Ok(out)
                &&& shown(user, out)
            },
            None => {
                &&& final(db)@ == old(db)@
                &&& r matches Err(ApiError::NotFound(m))
                &&& m@ == account_not_found(name@)
            },
        },
{
    let wu_user = match db.find(name) {
        Some(wu_user) => wu_user,
        None => {
            return Err(
                ApiError::NotFound(String::from_str("User ").concat(name).concat(" not found.")),
            );
        },
    };
    let wanted = String::from_str(name);
    let ghost keep = account_not_named(name@);
    let mut out: Vec<WebUIUser> = Vec::new();
    let mut i: usize = 0;
    while i < db.rows.len()
        invariant
            i <= db.rows.len(),
            *db == *old(db),
            wanted@ == name@,
            keep == account_not_named(name@),
            out@ == db.rows@.take(i as int).filter(keep),
        decreases db.rows.len() - i,
    {
        proof {
            db.rows@.lemma_take_succ_push(i as int);
            db.rows@.take(i as int).lemma_filter_push(db.rows@[i as int], keep);
        }
        if db.rows[i].name != wanted {
            out.push(db.rows[i].clone());
        }
        i += 1;
    }
    proof {
        db.rows@.lemma_take_len();
        lemma_filter_distinct_by(db@, keep, account_id());
        lemma_filter_distinct_by(db@, keep, account_name());
    }
    db.rows = out;
    Ok(WebUIUserOutput::from(wu_user))
}

} // verus!

//! Letting someone in: the operator's direct override, and the decision on
//! a presented access code.

use vstd::prelude::*;
use vstd::string::*;

use crate::command::{Command, CommandReply};
use crate::db::get_active_profile_name;
use crate::error::{ApiError, NoContent};
use crate::graph::{code_equal, code_id, user_id, user_with_id, AccessGraph, GraphView};
use crate::guards::auth::{Auth, OperatorUser};
use crate::models::{AccessProfile, Permission};
use crate::routes::active_access_profile::ActiveAccessProfile;
use crate::seq_lemmas::{
    first_where, has_key, lemma_filter_members, lemma_first_where_by_key, lemma_found_has_key,
};

verus! {

/// A presented access code.
#[derive(Debug, PartialEq, Eq)]
pub struct AccessCodeAccess {
    pub code: String,
}

/// The base address of the door controller.
pub struct CommandAddress(pub String);

/// The answer to a presented access code.
#[derive(Clone, Copy, Debug, PartialEq, Eq, Structural)]
pub enum Decision {
    /// The door opens.
    Grant,
    /// The code is registered, but none of its user's permissions is linked
    /// to the active profile.
    Deny,
    /// The code is not registered.
    NotRegistered,
}

/// One of `profiles` is named `name`.
pub open spec fn names_profile(profiles: Seq<AccessProfile>, name: Seq<char>) -> bool {
    exists|i: int| 0 <= i < profiles.len() && (#[trigger] profiles[i]).name@ == name
}

/// The decision: the code is looked up, then the permissions of its user,
/// then every profile that any of these permissions is linked to; the door
/// opens exactly if the active profile is among them.
pub open spec fn spec_decide(graph: GraphView, code: Seq<char>, active: Seq<char>) -> Decision {
    match first_where(graph.access_codes, code_equal(code)) {
        None => Decision::NotRegistered,
        Some(access_code) => if names_profile(
            graph.profiles_of_all(graph.permissions_of(access_code.user)),
            active,
        ) {
            Decision::Grant
        } else {
            Decision::Deny
        },
    }
}

/// Whether one of `profiles` is named `name`.
pub fn any_named(profiles: &Vec<AccessProfile>, name: &str) -> (b: bool)
    ensures
        b == names_profile(profiles@, name@),
{
    let wanted = String::from_str(name);
    let mut i: usize = 0;
    while i < profiles.len()
        invariant
            i <= profiles.len(),
            wanted@ == name@,
            forall|k: int| 0 <= k < i ==> (#[trigger] profiles@[k]).name@ != name@,
        decreases profiles.len() - i,
    {
        if profiles[i].name == wanted {
            return true;
        }
        i += 1;
    }
    false
}

/// Decides on a presented code while the profile named `active` is
/// enforced.
pub fn decide(graph: &AccessGraph, code: &str, active: &str) -> (d: Decision)
    requires
        graph@.wf(),
    ensures
        d == spec_decide(graph@, code@, active@),
{
    let access_code = match graph.find_access_code(code) {
        Some(access_code) => access_code,
        None => {
            return Decision::NotRegistered;
        },
    };
    proof {
        lemma_found_has_key(graph@.access_codes, code_equal(code@), code_id());
        let at = choose|i: int|
            0 <= i < graph@.access_codes.len() && #[trigger] graph@.access_codes[i] == access_code;
        assert(has_key(graph@.users, user_id(), graph@.access_codes[at].user));
        lemma_first_where_by_key(
            graph@.users,
            user_with_id(access_code.user),
            user_id(),
            access_code.user,
        );
        lemma_found_has_key(graph@.users, user_with_id(access_code.user), user_id());
    }
    match graph.find_user_by_id(access_code.user) {
        Some(user) => {
            let permissions = graph.permissions_of(&user);
            let profiles = graph.profiles_of_all(&permissions);
            if any_named(&profiles, active) {
                Decision::Grant
            } else {
                Decision::Deny
            }
        },
        None => {
            // A code without its user: a well-formed graph has none.
            assert(false);
            Decision::Deny
        },
    }
}

/// The command of the operator's override: open for five seconds, with a
/// greeting, no light and a sound.
pub fn open(_auth: &Auth<OperatorUser>) -> (c: Command)
    ensures
        c.open_for_ms == Some(5000u32),
        c.display_text matches Some(text) && text@ == "Wejdz"@,
        c.display_text_for_ms == Some(5000u32),
        c.color == Some((0u8, 0u8, 0u8)),
        c.color_for_ms == Some(5000u32),
        c.play_sound == Some(1u32),
        c.close is None,
{
    Command::new().open_for(5000).display_text_for(String::from_str("Wejdz"), 5000).set_color_for(
        0,
        0,
        0,
        5000,
    ).play_sound(1)
}

/// What the reply to the override command makes of the request.
pub fn opened(reply: &CommandReply) -> (r: Result<NoContent, ApiError>)
    ensures
        reply.acknowledged() ==> r == Ok::<NoContent, ApiError>(NoContent),
        !reply.acknowledged() ==> (r matches Err(ApiError::Internal(m)) && m@ == (match reply {
            CommandReply::Answered { .. } => "Command server returned "@,
            CommandReply::Unreachable { .. } => "Error while connecting to command server: "@,
        }) + reply.complaint()),
{
    if reply.is_acknowledged() {
        return Ok(NoContent);
    }
    match reply {
        CommandReply::Answered { .. } => Err(
            ApiError::Internal(reply.complain("Command server returned ")),
        ),
        CommandReply::Unreachable { .. } => Err(
            ApiError::Internal(reply.complain("Error while connecting to command server: ")),
        ),
    }
}

/// Answers a presented access code. The name of the active profile is read
/// from the controller at the time of the call.
pub fn code(access: &AccessCodeAccess, graph: &AccessGraph, aacp: &ActiveAccessProfile) -> (r:
    Result<NoContent, ApiError>)
    requires
        graph@.wf(),
    ensures
        match spec_decide(graph@, access.code@, aacp@.name) {
            Decision::Grant => r == Ok::<NoContent, ApiError>(NoContent),
            Decision::Deny => {
                &&& r matches Err(ApiError::BadRequest(m))
                &&& m@ == "You don't have the permission to enter now."@
            },
            Decision::NotRegistered => {
                &&& r matches Err(ApiError::NotFound(m))
                &&& m@ == "Access code not registered."@
            },
        },
{
    let apn = match get_active_profile_name(aacp) {
        Ok(apn) => apn,
        Err(e) => {
            return Err(e);
        },
    };
    match decide(graph, access.code.as_str(), apn.as_str()) {
        Decision::Grant => Ok(NoContent),
        Decision::Deny => Err(
            ApiError::BadRequest(String::from_str("You don't have the permission to enter now.")),
        ),
        Decision::NotRegistered => Err(
            ApiError::NotFound(String::from_str("Access code not registered.")),
        ),
    }
}

impl CommandAddress {
    /// Where commands are posted: the address and a slash.
    pub fn endpoint(&self) -> (url: String)
        ensures
            url@ == self.0@ + "/"@,
    {
        self.0.clone().concat("/")
    }

    /// Where a new access code is asked for.
    pub fn register_endpoint(&self) -> (url: String)
        ensures
            url@ == self.0@ + "/register"@,
    {
        self.0.clone().concat("/register")
    }
}

/// A registered code is granted exactly if some permission row links its
/// user to a profile row with the active name. One such permission is
/// enough: the profiles of all the user's permissions are united.
pub proof fn lemma_grant_iff_linked(graph: GraphView, code: Seq<char>, active: Seq<char>)
    requires
        first_where(graph.access_codes, code_equal(code)) is Some,
    ensures
        spec_decide(graph, code, active) == Decision::Grant <==> exists|
            p: Permission,
            a: AccessProfile,
        |
            {
                &&& graph.permissions.contains(p)
                &&& graph.access_profiles.contains(a)
                &&& graph.user_holds(
                    first_where(graph.access_codes, code_equal(code))->Some_0.user,
                    p.id,
                )
                &&& #[trigger] graph.profile_admits(a.id, p.id)
                &&& a.name@ == active
            },
{
    let user = first_where(graph.access_codes, code_equal(code))->Some_0.user;
    let held = graph.permissions_of(user);
    let reached = graph.profiles_of_all(held);
    lemma_filter_members(graph.permissions, graph.held_by(user));
    lemma_filter_members(graph.access_profiles, graph.admitting_any(held));
    if names_profile(reached, active) {
        let i = choose|i: int| 0 <= i < reached.len() && (#[trigger] reached[i]).name@ == active;
        let a = reached[i];
        assert(reached.contains(a));
        assert(graph.profile_admits_any(a.id, held));
        let k = choose|k: int|
            0 <= k < held.len() && graph.profile_admits(a.id, (#[trigger] held[k]).id);
        let p = held[k];
        assert(held.contains(p));
        assert(graph.permissions.contains(p) && graph.access_profiles.contains(a)
            && graph.user_holds(user, p.id) && graph.profile_admits(a.id, p.id) && a.name@
            == active);
    }
    if exists|p: Permission, a: AccessProfile|
        {
            &&& graph.permissions.contains(p)
            &&& graph.access_profiles.contains(a)
            &&& graph.user_holds(user, p.id)
            &&& #[trigger] graph.profile_admits(a.id, p.id)
            &&& a.name@ == active
        } {
        let (p, a) = choose|p: Permission, a: AccessProfile|
            {
                &&& graph.permissions.contains(p)
                &&& graph.access_profiles.contains(a)
                &&& graph.user_holds(user, p.id)
                &&& #[trigger] graph.profile_admits(a.id, p.id)
                &&& a.name@ == active
            };
        assert(held.contains(p));
        let k = choose|k: int| 0 <= k < held.len() && held[k] == p;
        assert(graph.profile_admits(a.id, held[k].id));
        assert(graph.profile_admits_any(a.id, held));
        assert(reached.contains(a));
        let i = choose|i: int| 0 <= i < reached.len() && reached[i] == a;
        assert(reached[i].name@ == active);
    }
}

} // verus!

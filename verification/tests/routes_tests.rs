use cherrydoor_backend::command::CommandReply;
use cherrydoor_backend::error::ApiError;
use cherrydoor_backend::graph::AccessGraph;
use cherrydoor_backend::guards::auth::{Auth, OperatorUser, WebUIUserAuthorization};
use cherrydoor_backend::models::{
    AccessCode, AccessCodeInsert, AccessProfile, AccessProfileAccessMode, AccessProfileFull,
    AccessProfileInsert, AccessProfilePermissionInsert, Permission, PermissionFull,
    PermissionInsert, User, UserFull, UserInsert, UserPermissionInsert,
};
use cherrydoor_backend::routes::access_profiles;
use cherrydoor_backend::routes::active_access_profile::ActiveAccessProfile;
use cherrydoor_backend::routes::permissions;
use cherrydoor_backend::routes::status;
use cherrydoor_backend::routes::users;

fn operator() -> Auth<OperatorUser> {
    let claim = WebUIUserAuthorization { exp: 10, name: String::from("op"), is_admin: false };
    match Auth::<OperatorUser>::check(claim, 5) {
        Ok(auth) => auth,
        Err(_) => panic!("an operator passes"),
    }
}

fn user(id: i32, name: &str) -> User {
    User { id, name: String::from(name) }
}

fn permission(id: i32, name: &str) -> Permission {
    Permission { id, name: String::from(name) }
}

fn profile(id: i32, name: &str) -> AccessProfile {
    AccessProfile {
        id,
        name: String::from(name),
        display_text: String::from("hello"),
        color: String::from("#fff"),
        access_mode: AccessProfileAccessMode::Normal,
    }
}

fn new_profile(name: &str) -> AccessProfileInsert {
    AccessProfileInsert {
        name: String::from(name),
        display_text: String::from("hello"),
        color: String::from("#fff"),
        access_mode: AccessProfileAccessMode::Normal,
    }
}

fn code(id: i32, text: &str, user: i32) -> AccessCode {
    AccessCode { id, code: String::from(text), user }
}

/// ann (1) and ben (2); guard (1) and clean (2); day (1) and night (2).
/// ann holds guard; day admits guard.
fn sample() -> AccessGraph {
    let auth = operator();
    let mut g = AccessGraph::new();
    assert!(users::create(&auth, UserInsert { name: String::from("ann") }, &mut g).is_ok());
    assert!(users::create(&auth, UserInsert { name: String::from("ben") }, &mut g).is_ok());
    assert!(permissions::create(&auth, PermissionInsert { name: String::from("guard") }, &mut g).is_ok());
    assert!(permissions::create(&auth, PermissionInsert { name: String::from("clean") }, &mut g).is_ok());
    assert!(access_profiles::create(&auth, new_profile("day"), &mut g).is_ok());
    assert!(access_profiles::create(&auth, new_profile("night"), &mut g).is_ok());
    let give = users::permissions::UserPermissionAppend { permission_id: 1 };
    assert!(users::permissions::assign(&auth, "ann", give, &mut g).is_ok());
    let allow = access_profiles::permissions::AccessProfilePermissionAppend { permission_id: 1 };
    assert!(access_profiles::permissions::assign(&auth, "day", allow, &mut g).is_ok());
    g
}

fn controller(g: &AccessGraph) -> ActiveAccessProfile {
    let (mut c, _) = ActiveAccessProfile::new(g, String::from("http://door")).unwrap();
    c.acknowledge(CommandReply::Answered { status: 204, body: None });
    c.acknowledge(CommandReply::Answered { status: 204, body: None });
    c
}

fn not_found(text: &str) -> ApiError {
    ApiError::NotFound(String::from(text))
}

fn conflict(text: &str) -> ApiError {
    ApiError::Conflict(String::from(text))
}

fn internal(text: &str) -> ApiError {
    ApiError::Internal(String::from(text))
}

const NO_PARENT: &str = "Cannot add or update a child row: a foreign key constraint fails";

#[test]
fn a_user_is_created_under_the_next_id() {
    let auth = operator();
    let mut g = AccessGraph::new();
    assert_eq!(
        users::create(&auth, UserInsert { name: String::from("ann") }, &mut g),
        Ok(UserFull { user: user(1, "ann"), access_codes: vec![], permissions: vec![] })
    );
    assert_eq!(
        users::create(&auth, UserInsert { name: String::from("ben") }, &mut g).map(|f| f.user),
        Ok(user(2, "ben"))
    );
    assert_eq!(
        users::create(&auth, UserInsert { name: String::from("ann") }, &mut g),
        Err(conflict("User ann already exists."))
    );
    assert_eq!(g.all_users(), vec![user(1, "ann"), user(2, "ben")]);
}

#[test]
fn no_row_is_created_once_the_ids_are_used_up() {
    let auth = operator();
    let mut g = AccessGraph::new();
    assert_eq!(g.insert_user(user(i32::MAX, "last")), Ok(()));
    assert_eq!(
        users::create(&auth, UserInsert { name: String::from("more") }, &mut g),
        Err(internal("No id is left for another row."))
    );
    assert_eq!(g.all_users(), vec![user(i32::MAX, "last")]);
}

#[test]
fn a_user_is_shown_with_all_that_hangs_on_it() {
    let auth = operator();
    let mut g = sample();
    let add = users::access_codes::AccessCodeCreate { code: String::from("4711") };
    assert!(users::access_codes::manual_add(&auth, "ann", add, &mut g).is_ok());
    let full = UserFull {
        user: user(1, "ann"),
        access_codes: vec![code(1, "4711", 1)],
        permissions: vec![permission(1, "guard")],
    };
    assert_eq!(users::get(&auth, "ann", &g), Ok(full.clone_for_test()));
    assert_eq!(users::get_full_user("ann", &g), Ok(full.clone_for_test()));
    assert_eq!(users::get_user("ann", &g), Ok(user(1, "ann")));
    assert_eq!(users::get_all_access_codes(&user(1, "ann"), &g), vec![code(1, "4711", 1)]);
    assert_eq!(users::get_all_permissions(&user(1, "ann"), &g), vec![permission(1, "guard")]);
    assert_eq!(users::get_access_code(&user(1, "ann"), 1, &g), Ok(code(1, "4711", 1)));
    assert_eq!(
        users::get_access_code(&user(2, "ben"), 1, &g),
        Err(not_found("Access code 1 does not exist or does not belong to user ben"))
    );
    assert_eq!(users::get(&auth, "zed", &g), Err(not_found("User zed not found.")));
    assert_eq!(users::get_user("", &g), Err(not_found("User  not found.")));
}

trait CloneForTest {
    fn clone_for_test(&self) -> Self;
}

impl CloneForTest for UserFull {
    fn clone_for_test(&self) -> Self {
        UserFull {
            user: self.user.clone(),
            access_codes: self.access_codes.clone(),
            permissions: self.permissions.clone(),
        }
    }
}

#[test]
fn a_deleted_user_is_answered_as_it_was() {
    let auth = operator();
    let mut g = sample();
    let add = users::access_codes::AccessCodeCreate { code: String::from("4711") };
    assert!(users::access_codes::manual_add(&auth, "ann", add, &mut g).is_ok());
    assert_eq!(
        users::delete(&auth, "ann", &mut g),
        Ok(UserFull {
            user: user(1, "ann"),
            access_codes: vec![code(1, "4711", 1)],
            permissions: vec![permission(1, "guard")],
        })
    );
    assert_eq!(users::get(&auth, "ann", &g), Err(not_found("User ann not found.")));
    assert_eq!(g.find_access_code("4711"), None);
    assert!(!g.holds(1, 1));
    assert_eq!(users::delete(&auth, "ann", &mut g), Err(not_found("User ann not found.")));
    assert_eq!(g.all_users(), vec![user(2, "ben")]);
}

#[test]
fn access_codes_are_added_listed_and_deleted() {
    let auth = operator();
    let mut g = sample();
    let add = |text: &str| users::access_codes::AccessCodeCreate { code: String::from(text) };
    assert_eq!(
        users::access_codes::manual_add(&auth, "ann", add("4711"), &mut g).map(|f| f.access_codes),
        Ok(vec![code(1, "4711", 1)])
    );
    assert_eq!(
        users::access_codes::manual_add(&auth, "ben", add("4711"), &mut g),
        Err(conflict("This access code is already registered."))
    );
    assert_eq!(
        users::access_codes::manual_add(&auth, "zed", add("0000"), &mut g),
        Err(not_found("User zed not found."))
    );
    assert_eq!(
        users::access_codes::manual_add(&auth, "ann", add("0815"), &mut g).map(|f| f.access_codes),
        Ok(vec![code(1, "4711", 1), code(2, "0815", 1)])
    );
    assert_eq!(
        users::access_codes::list(&auth, "ann", &g),
        Ok(vec![code(1, "4711", 1), code(2, "0815", 1)])
    );
    assert_eq!(users::access_codes::list(&auth, "ben", &g), Ok(vec![]));
    assert_eq!(users::access_codes::list(&auth, "zed", &g), Err(not_found("User zed not found.")));
    assert_eq!(users::access_codes::get(&auth, "ann", 2, &g), Ok(code(2, "0815", 1)));
    assert_eq!(
        users::access_codes::get(&auth, "ben", 2, &g),
        Err(not_found("Access code 2 does not exist or does not belong to user ben"))
    );
    assert_eq!(
        users::access_codes::get(&auth, "ann", -3, &g),
        Err(not_found("Access code -3 does not exist or does not belong to user ann"))
    );
    assert_eq!(
        users::access_codes::delete(&auth, "ben", 1, &mut g).map(|f| f.user),
        Ok(user(2, "ben"))
    );
    assert_eq!(users::access_codes::list(&auth, "ann", &g).map(|c| c.len()), Ok(2));
    assert_eq!(
        users::access_codes::delete(&auth, "ann", 1, &mut g).map(|f| f.access_codes),
        Ok(vec![code(2, "0815", 1)])
    );
    assert_eq!(users::access_codes::delete(&auth, "zed", 1, &mut g), Err(not_found("User zed not found.")));
}

#[test]
fn a_code_is_read_out_of_the_answer_of_the_controller() {
    let create = |text: &str| users::access_codes::AccessCodeCreate { code: String::from(text) };
    assert_eq!(
        users::access_codes::read_code(CommandReply::Answered { status: 200, body: Some(String::from("4711")) }),
        Ok(create("4711"))
    );
    assert_eq!(
        users::access_codes::read_code(CommandReply::Answered { status: 200, body: None }),
        Err(internal("Command server returned garbage,"))
    );
    assert_eq!(
        users::access_codes::read_code(CommandReply::Answered { status: 404, body: Some(String::from("late")) }),
        Err(not_found("Request timed out."))
    );
    assert_eq!(
        users::access_codes::read_code(CommandReply::Answered { status: 500, body: Some(String::from("oops")) }),
        Err(internal("Command server returned oops"))
    );
    assert_eq!(
        users::access_codes::read_code(CommandReply::Answered { status: 204, body: None }),
        Err(internal("Command server returned garbage"))
    );
    assert_eq!(
        users::access_codes::read_code(CommandReply::Unreachable { reason: String::from("timeout") }),
        Err(internal("Command server returned timeout"))
    );
}

#[test]
fn a_code_is_registered_from_the_answer_of_the_controller() {
    let auth = operator();
    let mut g = sample();
    let read = |text: &str| CommandReply::Answered { status: 200, body: Some(String::from(text)) };
    assert_eq!(
        users::access_codes::register(&auth, read("4711"), "ann", &mut g).map(|f| f.access_codes),
        Ok(vec![code(1, "4711", 1)])
    );
    assert_eq!(
        users::access_codes::register(&auth, read("4711"), "ben", &mut g),
        Err(conflict("This access code is already registered."))
    );
    assert_eq!(
        users::access_codes::register(&auth, read("1"), "zed", &mut g),
        Err(not_found("User zed not found."))
    );
    assert_eq!(
        users::access_codes::register(&auth, CommandReply::Answered { status: 404, body: None }, "zed", &mut g),
        Err(not_found("Request timed out."))
    );
    assert_eq!(
        users::access_codes::register(&auth, CommandReply::Unreachable { reason: String::from("down") }, "ann", &mut g),
        Err(internal("Command server returned down"))
    );
    assert_eq!(users::access_codes::list(&auth, "ann", &g).map(|c| c.len()), Ok(1));
}

#[test]
fn the_rows_to_insert_take_the_id_of_their_anchor() {
    assert_eq!(
        users::access_codes::AccessCodeCreate { code: String::from("4711") }.into_insert(5),
        AccessCodeInsert { code: String::from("4711"), user: 5 }
    );
    assert_eq!(
        users::permissions::UserPermissionAppend { permission_id: 3 }.into_insert(5),
        UserPermissionInsert { user_id: 5, permission_id: 3 }
    );
    assert_eq!(
        permissions::users::UserPermissionAppend { user_id: 3 }.into_insert(5),
        UserPermissionInsert { user_id: 3, permission_id: 5 }
    );
    assert_eq!(
        permissions::access_profiles::AccessProfilePermissionAppend { access_profile_id: 3 }.into_insert(5),
        AccessProfilePermissionInsert { access_profile_id: 3, permission_id: 5 }
    );
    assert_eq!(
        access_profiles::permissions::AccessProfilePermissionAppend { permission_id: 3 }.into_insert(5),
        AccessProfilePermissionInsert { access_profile_id: 5, permission_id: 3 }
    );
}

#[test]
fn a_permission_is_given_to_a_user_once() {
    let auth = operator();
    let mut g = sample();
    let give = |permission_id: i32| users::permissions::UserPermissionAppend { permission_id };
    assert_eq!(
        users::permissions::assign(&auth, "ann", give(1), &mut g),
        Err(conflict("User ann already has this permission."))
    );
    assert_eq!(
        users::permissions::assign(&auth, "ann", give(2), &mut g).map(|f| f.permissions),
        Ok(vec![permission(1, "guard"), permission(2, "clean")])
    );
    assert_eq!(users::permissions::assign(&auth, "ann", give(9), &mut g), Err(internal(NO_PARENT)));
    assert_eq!(
        users::permissions::assign(&auth, "zed", give(1), &mut g),
        Err(not_found("User zed not found."))
    );
    assert_eq!(
        users::permissions::list(&auth, "ann", &g),
        Ok(vec![permission(1, "guard"), permission(2, "clean")])
    );
    assert_eq!(users::permissions::list(&auth, "ben", &g), Ok(vec![]));
    assert_eq!(users::permissions::list(&auth, "zed", &g), Err(not_found("User zed not found.")));
}

#[test]
fn a_permission_is_taken_from_a_user_that_has_it() {
    let auth = operator();
    let mut g = sample();
    assert_eq!(
        users::permissions::remove(&auth, "ann", 1, &mut g).map(|f| f.permissions),
        Ok(vec![])
    );
    assert_eq!(
        users::permissions::remove(&auth, "ann", 1, &mut g),
        Err(not_found("Permission 1 either does not exist, or does not belong to user ann"))
    );
    assert_eq!(
        users::permissions::remove(&auth, "ben", 42, &mut g),
        Err(not_found("Permission 42 either does not exist, or does not belong to user ben"))
    );
    assert_eq!(
        users::permissions::remove(&auth, "zed", 1, &mut g),
        Err(not_found("User zed not found."))
    );
}

#[test]
fn a_permission_is_shown_with_its_users_and_profiles() {
    let auth = operator();
    let g = sample();
    assert_eq!(
        permissions::get(&auth, "guard", &g),
        Ok(PermissionFull {
            permission: permission(1, "guard"),
            users: vec![user(1, "ann")],
            access_profiles: vec![profile(1, "day")],
        })
    );
    assert_eq!(
        permissions::get_full_permission("clean", &g),
        Ok(PermissionFull { permission: permission(2, "clean"), users: vec![], access_profiles: vec![] })
    );
    assert_eq!(permissions::get(&auth, "cook", &g), Err(not_found("Permission cook not found.")));
    assert_eq!(permissions::get_permission("guard", &g), Ok(permission(1, "guard")));
    assert_eq!(permissions::get_all_users(&permission(1, "guard"), &g), vec![user(1, "ann")]);
    assert_eq!(permissions::get_all_access_profiles(&permission(1, "guard"), &g), vec![profile(1, "day")]);
    assert_eq!(permissions::list(&auth, &g), vec![permission(1, "guard"), permission(2, "clean")]);
}

#[test]
fn a_permission_is_created_once() {
    let auth = operator();
    let mut g = sample();
    assert_eq!(
        permissions::create(&auth, PermissionInsert { name: String::from("cook") }, &mut g),
        Ok(PermissionFull { permission: permission(3, "cook"), users: vec![], access_profiles: vec![] })
    );
    assert_eq!(
        permissions::create(&auth, PermissionInsert { name: String::from("cook") }, &mut g),
        Err(conflict("Permission cook already exists."))
    );
    assert_eq!(permissions::list(&auth, &g).len(), 3);
}

#[test]
fn a_deleted_permission_leaves_no_edge_behind() {
    let auth = operator();
    let mut g = sample();
    assert_eq!(
        permissions::delete(&auth, "guard", &mut g),
        Ok(PermissionFull {
            permission: permission(1, "guard"),
            users: vec![user(1, "ann")],
            access_profiles: vec![profile(1, "day")],
        })
    );
    assert_eq!(permissions::get(&auth, "guard", &g), Err(not_found("Permission guard not found.")));
    assert_eq!(users::permissions::list(&auth, "ann", &g), Ok(vec![]));
    assert_eq!(access_profiles::permissions::list(&auth, "day", &g), Ok(vec![]));
    assert_eq!(users::get(&auth, "ann", &g).map(|f| f.permissions), Ok(vec![]));
    assert_eq!(access_profiles::get(&auth, "day", &g).map(|f| f.permissions), Ok(vec![]));
    assert_eq!(permissions::delete(&auth, "guard", &mut g), Err(not_found("Permission guard not found.")));
    assert_eq!(
        permissions::create(&auth, PermissionInsert { name: String::from("guard") }, &mut g).map(|f| f.users),
        Ok(vec![])
    );
}

#[test]
fn users_are_linked_to_a_permission_from_its_side() {
    let auth = operator();
    let mut g = sample();
    let link = |user_id: i32| permissions::users::UserPermissionAppend { user_id };
    assert_eq!(
        permissions::users::assign(&auth, "guard", link(1), &mut g),
        Err(conflict("The user already has the permission guard."))
    );
    assert_eq!(
        permissions::users::assign(&auth, "guard", link(2), &mut g).map(|f| f.users),
        Ok(vec![user(1, "ann"), user(2, "ben")])
    );
    assert_eq!(permissions::users::assign(&auth, "guard", link(7), &mut g), Err(internal(NO_PARENT)));
    assert_eq!(
        permissions::users::assign(&auth, "cook", link(1), &mut g),
        Err(not_found("Permission cook not found."))
    );
    assert_eq!(permissions::users::list(&auth, "guard", &g), Ok(vec![user(1, "ann"), user(2, "ben")]));
    assert_eq!(permissions::users::list(&auth, "cook", &g), Err(not_found("Permission cook not found.")));
    assert_eq!(
        permissions::users::remove(&auth, "guard", 1, &mut g).map(|f| f.users),
        Ok(vec![user(2, "ben")])
    );
    assert_eq!(
        permissions::users::remove(&auth, "guard", 1, &mut g),
        Err(not_found("User with ID 1 either does not exist, or does not have permission guard."))
    );
    assert_eq!(
        permissions::users::remove(&auth, "cook", 1, &mut g),
        Err(not_found("Permission cook not found."))
    );
}

#[test]
fn profiles_are_linked_to_a_permission_from_its_side() {
    let auth = operator();
    let mut g = sample();
    let link = |access_profile_id: i32| permissions::access_profiles::AccessProfilePermissionAppend {
        access_profile_id,
    };
    assert_eq!(
        permissions::access_profiles::assign(&auth, "guard", link(1), &mut g),
        Err(conflict("The access profile is already assigned to permission guard."))
    );
    assert_eq!(
        permissions::access_profiles::assign(&auth, "guard", link(2), &mut g).map(|f| f.access_profiles),
        Ok(vec![profile(1, "day"), profile(2, "night")])
    );
    assert_eq!(
        permissions::access_profiles::assign(&auth, "guard", link(7), &mut g),
        Err(internal(NO_PARENT))
    );
    assert_eq!(
        permissions::access_profiles::list(&auth, "guard", &g),
        Ok(vec![profile(1, "day"), profile(2, "night")])
    );
    assert_eq!(
        permissions::access_profiles::remove(&auth, "guard", 1, &mut g).map(|f| f.access_profiles),
        Ok(vec![profile(2, "night")])
    );
    assert_eq!(
        permissions::access_profiles::remove(&auth, "guard", 1, &mut g),
        Err(not_found("User with ID 1 either does not exist, or does not have permission guard."))
    );
    assert_eq!(
        permissions::access_profiles::remove(&auth, "cook", 1, &mut g),
        Err(not_found("Permission cook not found."))
    );
}

#[test]
fn an_access_profile_is_shown_with_its_permissions() {
    let auth = operator();
    let g = sample();
    assert_eq!(
        access_profiles::get(&auth, "day", &g),
        Ok(AccessProfileFull { access_profile: profile(1, "day"), permissions: vec![permission(1, "guard")] })
    );
    assert_eq!(
        access_profiles::get_full_access_profile("night", &g),
        Ok(AccessProfileFull { access_profile: profile(2, "night"), permissions: vec![] })
    );
    assert_eq!(
        access_profiles::get(&auth, "dusk", &g),
        Err(not_found("Access profile dusk not found."))
    );
    assert_eq!(access_profiles::get_access_profile("day", &g), Ok(profile(1, "day")));
    assert_eq!(access_profiles::get_all_permissions(&profile(1, "day"), &g), vec![permission(1, "guard")]);
    assert_eq!(access_profiles::list(&auth, &g), vec![profile(1, "day"), profile(2, "night")]);
}

#[test]
fn an_access_profile_is_created_once() {
    let auth = operator();
    let mut g = sample();
    assert_eq!(
        access_profiles::create(&auth, new_profile("dusk"), &mut g),
        Ok(AccessProfileFull { access_profile: profile(3, "dusk"), permissions: vec![] })
    );
    assert_eq!(
        access_profiles::create(&auth, new_profile("dusk"), &mut g),
        Err(conflict("Access profile dusk already exists."))
    );
}

#[test]
fn permissions_are_linked_to_an_access_profile_from_its_side() {
    let auth = operator();
    let mut g = sample();
    let link = |permission_id: i32| access_profiles::permissions::AccessProfilePermissionAppend {
        permission_id,
    };
    assert_eq!(
        access_profiles::permissions::assign(&auth, "day", link(1), &mut g),
        Err(conflict("The permission is already assigned to profile day."))
    );
    assert_eq!(
        access_profiles::permissions::assign(&auth, "day", link(2), &mut g).map(|f| f.permissions),
        Ok(vec![permission(1, "guard"), permission(2, "clean")])
    );
    assert_eq!(
        access_profiles::permissions::assign(&auth, "day", link(7), &mut g),
        Err(internal(NO_PARENT))
    );
    assert_eq!(
        access_profiles::permissions::assign(&auth, "dusk", link(1), &mut g),
        Err(not_found("Access profile dusk not found."))
    );
    assert_eq!(
        access_profiles::permissions::list(&auth, "day", &g),
        Ok(vec![permission(1, "guard"), permission(2, "clean")])
    );
    assert_eq!(
        access_profiles::permissions::remove(&auth, "day", 1, &mut g).map(|f| f.permissions),
        Ok(vec![permission(2, "clean")])
    );
    assert_eq!(
        access_profiles::permissions::remove(&auth, "day", 1, &mut g),
        Err(not_found("Permission of id 1 either does not exist or is not associated with profile day."))
    );
    assert_eq!(
        access_profiles::permissions::remove(&auth, "dusk", 1, &mut g),
        Err(not_found("Access profile dusk not found."))
    );
}

#[test]
fn the_active_profile_is_not_deleted() {
    let auth = operator();
    let mut g = sample();
    let active = controller(&g);
    assert_eq!(active.get(), "day");
    assert_eq!(
        access_profiles::delete(&auth, "day", &mut g, &active),
        Err(conflict("Access profile day is active."))
    );
    assert_eq!(access_profiles::list(&auth, &g).len(), 2);
    assert!(g.admits(1, 1));
}

#[test]
fn another_profile_is_deleted_with_its_edges() {
    let auth = operator();
    let mut g = sample();
    let active = controller(&g);
    let allow = access_profiles::permissions::AccessProfilePermissionAppend { permission_id: 2 };
    assert!(access_profiles::permissions::assign(&auth, "night", allow, &mut g).is_ok());
    assert_eq!(
        access_profiles::delete(&auth, "night", &mut g, &active),
        Ok(AccessProfileFull { access_profile: profile(2, "night"), permissions: vec![permission(2, "clean")] })
    );
    assert_eq!(access_profiles::list(&auth, &g), vec![profile(1, "day")]);
    assert!(!g.admits(2, 2));
    assert_eq!(permissions::access_profiles::list(&auth, "clean", &g), Ok(vec![]));
    assert_eq!(
        access_profiles::delete(&auth, "night", &mut g, &active),
        Err(not_found("Access profile night not found."))
    );
}

#[test]
fn the_status_is_a_fixed_report() {
    let report = status::get(&operator());
    assert_eq!(report.controller, status::StatusEntry::Fine);
    assert_eq!(report.lock, status::StatusEntry::Warn { message: String::from("something is wrong") });
    assert_eq!(report.rfid, status::StatusEntry::Fine);
    assert_eq!(report.led, status::StatusEntry::Fail { message: String::from("down") });
    assert_eq!(report.speaker, status::StatusEntry::Fine);
    assert_eq!(report.wifi, status::StatusEntry::Fine);
}

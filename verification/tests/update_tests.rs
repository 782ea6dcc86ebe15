use cherrydoor_backend::command::CommandReply;
use cherrydoor_backend::error::ApiError;
use cherrydoor_backend::graph::{AccessGraph, StoreError};
use cherrydoor_backend::guards::auth::{Auth, OperatorUser, WebUIUserAuthorization};
use cherrydoor_backend::models::{
    AccessProfile, AccessProfileAccessMode, AccessProfileFull, AccessProfileUpdate, Permission,
    PermissionFull, PermissionUpdate, User, UserFull, UserUpdate,
};
use cherrydoor_backend::routes::access_profiles;
use cherrydoor_backend::routes::active_access_profile::ActiveAccessProfile;
use cherrydoor_backend::routes::permissions;
use cherrydoor_backend::routes::users;

const NOTHING: &str = "There are no changes to save. This query cannot be built";
const TAKEN: &str = "Duplicate entry for a unique key";

fn operator() -> Auth<OperatorUser> {
    let claim = WebUIUserAuthorization { exp: 10, name: String::from("op"), is_admin: false };
    match Auth::<OperatorUser>::check(claim, 5) {
        Ok(auth) => auth,
        Err(_) => panic!("an operator passes"),
    }
}

fn user(id: i32, name: &str) -> User {
    User { id, name: String::from(name) }
}

fn permission(id: i32, name: &str) -> Permission {
    Permission { id, name: String::from(name) }
}

fn profile(id: i32, name: &str, text: &str, color: &str, mode: AccessProfileAccessMode) -> AccessProfile {
    AccessProfile {
        id,
        name: String::from(name),
        display_text: String::from(text),
        color: String::from(color),
        access_mode: mode,
    }
}

fn sample() -> AccessGraph {
    let mut g = AccessGraph::new();
    assert_eq!(g.insert_user(user(1, "ann")), Ok(()));
    assert_eq!(g.insert_user(user(2, "ben")), Ok(()));
    assert_eq!(g.insert_permission(permission(1, "guard")), Ok(()));
    assert_eq!(g.insert_permission(permission(2, "clean")), Ok(()));
    assert_eq!(
        g.insert_access_profile(profile(1, "day", "hello", "#fff", AccessProfileAccessMode::Normal)),
        Ok(())
    );
    assert_eq!(
        g.insert_access_profile(profile(2, "night", "sleep", "#000", AccessProfileAccessMode::Normal)),
        Ok(())
    );
    assert_eq!(g.assign_user_permission(1, 1), Ok(()));
    assert_eq!(g.assign_profile_permission(1, 1), Ok(()));
    g
}

fn controller(g: &AccessGraph) -> ActiveAccessProfile {
    let (mut c, _) = ActiveAccessProfile::new(g, String::from("http://door")).unwrap();
    c.acknowledge(CommandReply::Answered { status: 204, body: None });
    c.acknowledge(CommandReply::Answered { status: 204, body: None });
    c
}

fn rename(name: Option<&str>) -> AccessProfileUpdate {
    AccessProfileUpdate {
        name: name.map(String::from),
        display_text: None,
        color: None,
        access_mode: None,
    }
}

#[test]
fn a_row_is_replaced_where_its_id_stands() {
    let mut g = sample();
    assert_eq!(g.replace_user(user(2, "bob")), Ok(true));
    assert_eq!(g.all_users(), vec![user(1, "ann"), user(2, "bob")]);
    assert_eq!(g.replace_user(user(2, "ann")), Err(StoreError::UniqueViolation));
    assert_eq!(g.replace_user(user(2, "bob")), Ok(true));
    assert_eq!(g.replace_user(user(7, "zed")), Ok(false));
    assert_eq!(g.replace_user(user(7, "ann")), Ok(false));
    assert_eq!(g.all_users(), vec![user(1, "ann"), user(2, "bob")]);
    assert_eq!(g.replace_permission(permission(1, "watch")), Ok(true));
    assert_eq!(g.replace_permission(permission(1, "clean")), Err(StoreError::UniqueViolation));
    assert_eq!(g.all_permissions(), vec![permission(1, "watch"), permission(2, "clean")]);
    let noon = profile(2, "noon", "lunch", "#abc", AccessProfileAccessMode::OpenLock);
    assert_eq!(g.replace_access_profile(noon.clone()), Ok(true));
    assert_eq!(g.find_access_profile("noon"), Some(noon));
    assert_eq!(g.find_access_profile("night"), None);
    assert!(g.holds(1, 1) && g.admits(1, 1));
}

#[test]
fn a_user_is_renamed_and_then_looked_up_under_the_old_name() {
    let auth = operator();
    let mut g = sample();
    assert_eq!(
        users::update(&auth, "ann", UserUpdate { name: Some(String::from("anna")) }, &mut g),
        Err(ApiError::NotFound(String::from("User ann not found.")))
    );
    assert_eq!(
        users::get(&auth, "anna", &g),
        Ok(UserFull { user: user(1, "anna"), access_codes: vec![], permissions: vec![permission(1, "guard")] })
    );
    assert_eq!(
        users::update(&auth, "anna", UserUpdate { name: Some(String::from("anna")) }, &mut g)
            .map(|f| f.user),
        Ok(user(1, "anna"))
    );
}

#[test]
fn a_user_is_not_renamed_to_a_taken_name_or_to_nothing() {
    let auth = operator();
    let mut g = sample();
    assert_eq!(
        users::update(&auth, "ann", UserUpdate { name: Some(String::from("ben")) }, &mut g),
        Err(ApiError::Internal(String::from(TAKEN)))
    );
    assert_eq!(
        users::update(&auth, "ann", UserUpdate { name: None }, &mut g),
        Err(ApiError::Internal(String::from(NOTHING)))
    );
    assert_eq!(
        users::update(&auth, "zed", UserUpdate { name: Some(String::from("x")) }, &mut g),
        Err(ApiError::NotFound(String::from("User zed not found.")))
    );
    assert_eq!(
        users::update(&auth, "zed", UserUpdate { name: None }, &mut g),
        Err(ApiError::NotFound(String::from("User zed not found.")))
    );
    assert_eq!(g.all_users(), vec![user(1, "ann"), user(2, "ben")]);
}

#[test]
fn a_permission_is_renamed_and_keeps_its_edges() {
    let auth = operator();
    let mut g = sample();
    assert_eq!(
        permissions::update(&auth, PermissionUpdate { name: Some(String::from("watch")) }, "guard", &mut g),
        Err(ApiError::NotFound(String::from("Permission guard not found.")))
    );
    assert_eq!(
        permissions::get(&auth, "watch", &g),
        Ok(PermissionFull {
            permission: permission(1, "watch"),
            users: vec![user(1, "ann")],
            access_profiles: vec![profile(1, "day", "hello", "#fff", AccessProfileAccessMode::Normal)],
        })
    );
    assert_eq!(
        permissions::update(&auth, PermissionUpdate { name: Some(String::from("clean")) }, "watch", &mut g),
        Err(ApiError::Internal(String::from(TAKEN)))
    );
    assert_eq!(
        permissions::update(&auth, PermissionUpdate { name: None }, "watch", &mut g),
        Err(ApiError::Internal(String::from(NOTHING)))
    );
    assert_eq!(
        permissions::update(&auth, PermissionUpdate { name: Some(String::from("x")) }, "guard", &mut g),
        Err(ApiError::NotFound(String::from("Permission guard not found.")))
    );
    assert_eq!(
        permissions::update(&auth, PermissionUpdate { name: Some(String::from("watch")) }, "watch", &mut g)
            .map(|f| f.permission),
        Ok(permission(1, "watch"))
    );
}

#[test]
fn an_access_profile_is_changed_field_by_field() {
    let auth = operator();
    let mut g = sample();
    let active = controller(&g);
    let change = AccessProfileUpdate {
        name: None,
        display_text: Some(String::from("good night")),
        color: Some(String::from("#123456")),
        access_mode: Some(AccessProfileAccessMode::OpenLock),
    };
    assert_eq!(
        access_profiles::update(&auth, "night", change, &mut g, &active),
        Ok(AccessProfileFull {
            access_profile: profile(2, "night", "good night", "#123456", AccessProfileAccessMode::OpenLock),
            permissions: vec![],
        })
    );
    let change = AccessProfileUpdate {
        name: None,
        display_text: None,
        color: Some(String::from("#abc")),
        access_mode: None,
    };
    assert_eq!(
        access_profiles::update(&auth, "day", change, &mut g, &active).map(|f| f.access_profile),
        Ok(profile(1, "day", "hello", "#abc", AccessProfileAccessMode::Normal))
    );
    assert_eq!(
        access_profiles::update(&auth, "night", rename(Some("dusk")), &mut g, &active),
        Err(ApiError::NotFound(String::from("Access profile night not found.")))
    );
    assert_eq!(
        g.find_access_profile("dusk"),
        Some(profile(2, "dusk", "good night", "#123456", AccessProfileAccessMode::OpenLock))
    );
}

#[test]
fn an_access_profile_is_not_changed_to_a_taken_name_or_to_nothing() {
    let auth = operator();
    let mut g = sample();
    let active = controller(&g);
    assert_eq!(
        access_profiles::update(&auth, "night", rename(Some("day")), &mut g, &active),
        Err(ApiError::Internal(String::from(TAKEN)))
    );
    assert_eq!(
        access_profiles::update(&auth, "night", rename(None), &mut g, &active),
        Err(ApiError::Internal(String::from(NOTHING)))
    );
    assert_eq!(
        access_profiles::update(&auth, "dusk", rename(Some("dawn")), &mut g, &active),
        Err(ApiError::NotFound(String::from("Access profile dusk not found.")))
    );
    assert_eq!(g.all_access_profiles().len(), 2);
    assert!(g.find_access_profile("night").is_some());
}

#[test]
fn the_active_profile_keeps_its_name() {
    let auth = operator();
    let mut g = sample();
    let active = controller(&g);
    assert_eq!(active.get(), "day");
    assert_eq!(
        access_profiles::update(&auth, "day", rename(Some("noon")), &mut g, &active),
        Err(ApiError::Conflict(String::from("Access profile day is active.")))
    );
    assert!(g.find_access_profile("day").is_some());
    assert_eq!(
        access_profiles::update(&auth, "day", rename(Some("day")), &mut g, &active).map(|f| f.access_profile.name),
        Ok(String::from("day"))
    );
    let change = AccessProfileUpdate {
        name: None,
        display_text: Some(String::from("welcome")),
        color: None,
        access_mode: None,
    };
    assert_eq!(
        access_profiles::update(&auth, "day", change, &mut g, &active).map(|f| f.access_profile.display_text),
        Ok(String::from("welcome"))
    );
}

#[test]
fn users_are_listed_ten_to_a_page_in_the_order_of_their_ids() {
    let auth = operator();
    let mut g = AccessGraph::new();
    for id in [17, 3, 25, 8, 1, 12, 30, 5, 21, 9, 14, 2, 28, 6, 19, 11, 23, 4, 16, 7, 26, 10, 13] {
        assert_eq!(g.insert_user(user(id, &format!("user{}", id))), Ok(()));
    }
    let ids = |r: Result<Vec<User>, ApiError>| r.map(|v| v.into_iter().map(|u| u.id).collect::<Vec<i32>>());
    assert_eq!(ids(users::list(&auth, None, &g)), Ok(vec![1, 2, 3, 4, 5, 6, 7, 8, 9, 10]));
    assert_eq!(ids(users::list(&auth, Some(0), &g)), Ok(vec![1, 2, 3, 4, 5, 6, 7, 8, 9, 10]));
    assert_eq!(ids(users::list(&auth, Some(1), &g)), Ok(vec![11, 12, 13, 14, 16, 17, 19, 21, 23, 25]));
    assert_eq!(ids(users::list(&auth, Some(2), &g)), Ok(vec![26, 28, 30]));
    assert_eq!(ids(users::list(&auth, Some(3), &g)), Ok(vec![]));
    assert_eq!(ids(users::list(&auth, Some(i64::MAX), &g)), Ok(vec![]));
    assert_eq!(
        users::list(&auth, Some(0), &g).map(|v| v[0].clone()),
        Ok(user(1, "user1"))
    );
}

#[test]
fn a_page_of_few_users_is_short() {
    let auth = operator();
    let mut g = AccessGraph::new();
    assert_eq!(users::list(&auth, None, &g), Ok(vec![]));
    assert_eq!(g.insert_user(user(-4, "neg")), Ok(()));
    assert_eq!(g.insert_user(user(i32::MAX, "max")), Ok(()));
    assert_eq!(g.insert_user(user(i32::MIN, "min")), Ok(()));
    assert_eq!(
        users::list(&auth, Some(0), &g),
        Ok(vec![user(i32::MIN, "min"), user(-4, "neg"), user(i32::MAX, "max")])
    );
    assert_eq!(users::list(&auth, Some(1), &g), Ok(vec![]));
}

#[test]
fn a_negative_page_is_refused() {
    let auth = operator();
    let g = sample();
    assert_eq!(
        users::list(&auth, Some(-1), &g),
        Err(ApiError::Internal(String::from("The offset of a page cannot be negative.")))
    );
    assert_eq!(
        users::list(&auth, Some(i64::MIN), &g),
        Err(ApiError::Internal(String::from("The offset of a page cannot be negative.")))
    );
}

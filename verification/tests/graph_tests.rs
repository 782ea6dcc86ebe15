use cherrydoor_backend::graph::{AccessGraph, StoreError};
use cherrydoor_backend::models::{
    AccessCode, AccessProfile, AccessProfileAccessMode, Permission, User,
};

fn user(id: i32, name: &str) -> User {
    User { id, name: String::from(name) }
}

fn permission(id: i32, name: &str) -> Permission {
    Permission { id, name: String::from(name) }
}

fn profile(id: i32, name: &str) -> AccessProfile {
    AccessProfile {
        id,
        name: String::from(name),
        display_text: format!("{} shift", name),
        color: String::from("#112233"),
        access_mode: AccessProfileAccessMode::Normal,
    }
}

fn code(id: i32, text: &str, user: i32) -> AccessCode {
    AccessCode { id, code: String::from(text), user }
}

/// Two users, three permissions, three profiles. Ann holds the first and the second permission,
/// Ben the second; the first leads to day, the second to night and to day,
/// the third to evening.
fn sample() -> AccessGraph {
    let mut g = AccessGraph::new();
    assert_eq!(g.insert_user(user(1, "ann")), Ok(()));
    assert_eq!(g.insert_user(user(2, "ben")), Ok(()));
    assert_eq!(g.insert_permission(permission(10, "first")), Ok(()));
    assert_eq!(g.insert_permission(permission(20, "second")), Ok(()));
    assert_eq!(g.insert_permission(permission(30, "third")), Ok(()));
    assert_eq!(g.insert_access_profile(profile(100, "day")), Ok(()));
    assert_eq!(g.insert_access_profile(profile(200, "night")), Ok(()));
    assert_eq!(g.insert_access_profile(profile(300, "evening")), Ok(()));
    assert_eq!(g.insert_access_code(code(7, "1234", 1)), Ok(()));
    assert_eq!(g.insert_access_code(code(8, "5678", 2)), Ok(()));
    assert_eq!(g.assign_user_permission(1, 20), Ok(()));
    assert_eq!(g.assign_user_permission(1, 10), Ok(()));
    assert_eq!(g.assign_user_permission(2, 20), Ok(()));
    assert_eq!(g.assign_profile_permission(200, 20), Ok(()));
    assert_eq!(g.assign_profile_permission(100, 10), Ok(()));
    assert_eq!(g.assign_profile_permission(100, 20), Ok(()));
    assert_eq!(g.assign_profile_permission(300, 30), Ok(()));
    g
}

#[test]
fn the_empty_graph_holds_nothing() {
    let g = AccessGraph::new();
    assert_eq!(g.all_users(), vec![]);
    assert_eq!(g.all_permissions(), vec![]);
    assert_eq!(g.all_access_profiles(), vec![]);
    assert_eq!(g.first_access_profile(), None);
    assert_eq!(g.find_user("ann"), None);
    assert_eq!(g.permissions_of(&user(1, "ann")), vec![]);
    assert!(!g.holds(1, 10));
    assert!(!g.admits(100, 10));
}

#[test]
fn lookups_follow_the_edges() {
    let g = sample();
    assert_eq!(g.permissions_of(&user(1, "ann")), vec![permission(10, "first"), permission(20, "second")]);
    assert_eq!(g.permissions_of(&user(2, "ben")), vec![permission(20, "second")]);
    assert_eq!(g.permissions_of(&user(3, "nobody")), vec![]);
    assert_eq!(g.users_of(&permission(20, "second")), vec![user(1, "ann"), user(2, "ben")]);
    assert_eq!(g.users_of(&permission(10, "first")), vec![user(1, "ann")]);
    assert_eq!(g.users_of(&permission(30, "third")), vec![]);
    assert_eq!(g.profiles_of(&permission(20, "second")), vec![profile(100, "day"), profile(200, "night")]);
    assert_eq!(g.profiles_of(&permission(30, "third")), vec![profile(300, "evening")]);
    assert_eq!(g.permissions_of_profile(&profile(100, "day")), vec![permission(10, "first"), permission(20, "second")]);
    assert_eq!(g.permissions_of_profile(&profile(300, "evening")), vec![permission(30, "third")]);
    assert_eq!(g.access_codes_of(&user(1, "ann")), vec![code(7, "1234", 1)]);
}

#[test]
fn the_profiles_of_several_permissions_are_united_without_duplicates() {
    let g = sample();
    let both = vec![permission(10, "first"), permission(20, "second")];
    assert_eq!(g.profiles_of_all(&both), vec![profile(100, "day"), profile(200, "night")]);
    let twice = vec![permission(20, "second"), permission(20, "second"), permission(10, "first")];
    assert_eq!(g.profiles_of_all(&twice), vec![profile(100, "day"), profile(200, "night")]);
    assert_eq!(g.profiles_of_all(&vec![permission(30, "third")]), vec![profile(300, "evening")]);
    assert_eq!(g.profiles_of_all(&vec![]), vec![]);
    assert_eq!(g.profiles_of_all(&vec![permission(99, "none")]), vec![]);
}

#[test]
fn lookups_do_not_depend_on_the_order_of_the_edges() {
    let mut a = AccessGraph::new();
    let mut b = AccessGraph::new();
    for g in [&mut a, &mut b] {
        assert_eq!(g.insert_user(user(1, "ann")), Ok(()));
        assert_eq!(g.insert_permission(permission(10, "first")), Ok(()));
        assert_eq!(g.insert_permission(permission(20, "second")), Ok(()));
        assert_eq!(g.insert_access_profile(profile(100, "day")), Ok(()));
        assert_eq!(g.insert_access_profile(profile(200, "night")), Ok(()));
    }
    assert_eq!(a.assign_user_permission(1, 10), Ok(()));
    assert_eq!(a.assign_user_permission(1, 20), Ok(()));
    assert_eq!(a.assign_profile_permission(100, 10), Ok(()));
    assert_eq!(a.assign_profile_permission(200, 20), Ok(()));
    assert_eq!(b.assign_profile_permission(200, 20), Ok(()));
    assert_eq!(b.assign_user_permission(1, 20), Ok(()));
    assert_eq!(b.assign_profile_permission(100, 10), Ok(()));
    assert_eq!(b.assign_user_permission(1, 10), Ok(()));
    let ann = user(1, "ann");
    assert_eq!(a.permissions_of(&ann), b.permissions_of(&ann));
    assert_eq!(a.permissions_of(&ann), vec![permission(10, "first"), permission(20, "second")]);
    assert_eq!(a.users_of(&permission(20, "second")), b.users_of(&permission(20, "second")));
    assert_eq!(a.profiles_of(&permission(10, "first")), b.profiles_of(&permission(10, "first")));
    let held = a.permissions_of(&ann);
    assert_eq!(a.profiles_of_all(&held), b.profiles_of_all(&held));
    assert_eq!(a.profiles_of_all(&held), vec![profile(100, "day"), profile(200, "night")]);
}

#[test]
fn rows_are_found_by_their_unique_keys() {
    let g = sample();
    assert_eq!(g.find_user("ben"), Some(user(2, "ben")));
    assert_eq!(g.find_user("Ben"), None);
    assert_eq!(g.find_user_by_id(1), Some(user(1, "ann")));
    assert_eq!(g.find_user_by_id(3), None);
    assert_eq!(g.find_permission("third"), Some(permission(30, "third")));
    assert_eq!(g.find_permission("fourth"), None);
    assert_eq!(g.find_access_profile("night"), Some(profile(200, "night")));
    assert_eq!(g.find_access_profile(""), None);
    assert_eq!(g.find_access_code("5678"), Some(code(8, "5678", 2)));
    assert_eq!(g.find_access_code("0000"), None);
    assert_eq!(g.find_access_code_of(&user(1, "ann"), 7), Some(code(7, "1234", 1)));
    assert_eq!(g.find_access_code_of(&user(2, "ben"), 7), None);
    assert_eq!(g.first_access_profile(), Some(profile(100, "day")));
    assert!(g.has_user(2) && !g.has_user(3));
    assert!(g.has_permission(30) && !g.has_permission(31));
    assert!(g.has_access_profile(300) && !g.has_access_profile(0));
}

#[test]
fn a_row_with_a_taken_key_is_refused() {
    let mut g = sample();
    assert_eq!(g.insert_user(user(1, "zed")), Err(StoreError::UniqueViolation));
    assert_eq!(g.insert_user(user(9, "ann")), Err(StoreError::UniqueViolation));
    assert_eq!(g.insert_permission(permission(10, "new")), Err(StoreError::UniqueViolation));
    assert_eq!(g.insert_permission(permission(11, "first")), Err(StoreError::UniqueViolation));
    assert_eq!(g.insert_access_profile(profile(100, "noon")), Err(StoreError::UniqueViolation));
    assert_eq!(g.insert_access_profile(profile(101, "day")), Err(StoreError::UniqueViolation));
    assert_eq!(g.insert_access_code(code(7, "9999", 1)), Err(StoreError::UniqueViolation));
    assert_eq!(g.insert_access_code(code(9, "1234", 2)), Err(StoreError::UniqueViolation));
    assert_eq!(g.insert_access_code(code(9, "9999", 5)), Err(StoreError::ForeignKeyViolation));
    assert_eq!(g.all_users(), vec![user(1, "ann"), user(2, "ben")]);
    assert_eq!(g.access_codes_of(&user(1, "ann")), vec![code(7, "1234", 1)]);
}

#[test]
fn an_edge_is_stored_once_and_only_between_rows_that_are_there() {
    let mut g = sample();
    assert_eq!(g.assign_user_permission(1, 10), Err(StoreError::UniqueViolation));
    assert_eq!(g.assign_profile_permission(100, 10), Err(StoreError::UniqueViolation));
    assert_eq!(g.assign_user_permission(5, 10), Err(StoreError::ForeignKeyViolation));
    assert_eq!(g.assign_user_permission(1, 11), Err(StoreError::ForeignKeyViolation));
    assert_eq!(g.assign_profile_permission(101, 10), Err(StoreError::ForeignKeyViolation));
    assert_eq!(g.assign_profile_permission(100, 11), Err(StoreError::ForeignKeyViolation));
    assert_eq!(g.permissions_of(&user(1, "ann")), vec![permission(10, "first"), permission(20, "second")]);
    assert_eq!(g.assign_user_permission(2, 30), Ok(()));
    assert_eq!(g.permissions_of(&user(2, "ben")), vec![permission(20, "second"), permission(30, "third")]);
}

#[test]
fn removing_an_edge_says_whether_it_was_there() {
    let mut g = sample();
    assert!(g.remove_user_permission(1, 10));
    assert!(!g.remove_user_permission(1, 10));
    assert!(!g.remove_user_permission(2, 10));
    assert_eq!(g.permissions_of(&user(1, "ann")), vec![permission(20, "second")]);
    assert_eq!(g.permissions_of(&user(2, "ben")), vec![permission(20, "second")]);
    assert!(g.remove_profile_permission(100, 20));
    assert!(!g.remove_profile_permission(100, 20));
    assert_eq!(g.profiles_of(&permission(20, "second")), vec![profile(200, "night")]);
    assert_eq!(g.profiles_of(&permission(10, "first")), vec![profile(100, "day")]);
}

#[test]
fn a_deleted_permission_is_gone_from_every_lookup() {
    let mut g = sample();
    g.delete_permission(20);
    assert_eq!(g.find_permission("second"), None);
    assert_eq!(g.all_permissions(), vec![permission(10, "first"), permission(30, "third")]);
    assert_eq!(g.permissions_of(&user(1, "ann")), vec![permission(10, "first")]);
    assert_eq!(g.permissions_of(&user(2, "ben")), vec![]);
    assert_eq!(g.permissions_of_profile(&profile(100, "day")), vec![permission(10, "first")]);
    assert_eq!(g.permissions_of_profile(&profile(200, "night")), vec![]);
    assert_eq!(g.users_of(&permission(20, "second")), vec![]);
    assert_eq!(g.profiles_of(&permission(20, "second")), vec![]);
    assert!(!g.holds(1, 20) && !g.holds(2, 20));
    assert!(!g.admits(100, 20) && !g.admits(200, 20));
    assert!(g.holds(1, 10) && g.admits(100, 10) && g.admits(300, 30));
    assert_eq!(g.assign_user_permission(1, 20), Err(StoreError::ForeignKeyViolation));
    assert_eq!(g.insert_permission(permission(20, "second")), Ok(()));
    assert_eq!(g.permissions_of(&user(2, "ben")), vec![]);
}

#[test]
fn deleting_a_permission_that_is_not_there_changes_nothing() {
    let mut g = sample();
    g.delete_permission(99);
    assert_eq!(g.all_permissions(), vec![permission(10, "first"), permission(20, "second"), permission(30, "third")]);
    assert_eq!(g.permissions_of(&user(1, "ann")), vec![permission(10, "first"), permission(20, "second")]);
}

#[test]
fn a_deleted_user_takes_its_codes_and_edges_along() {
    let mut g = sample();
    g.delete_user(1);
    assert_eq!(g.all_users(), vec![user(2, "ben")]);
    assert_eq!(g.find_access_code("1234"), None);
    assert_eq!(g.find_access_code("5678"), Some(code(8, "5678", 2)));
    assert_eq!(g.users_of(&permission(20, "second")), vec![user(2, "ben")]);
    assert_eq!(g.users_of(&permission(10, "first")), vec![]);
    assert!(!g.holds(1, 10) && !g.holds(1, 20) && g.holds(2, 20));
}

#[test]
fn a_deleted_access_profile_takes_its_edges_along() {
    let mut g = sample();
    g.delete_access_profile(100);
    assert_eq!(g.all_access_profiles(), vec![profile(200, "night"), profile(300, "evening")]);
    assert_eq!(g.profiles_of(&permission(10, "first")), vec![]);
    assert_eq!(g.profiles_of(&permission(20, "second")), vec![profile(200, "night")]);
    assert!(!g.admits(100, 10) && !g.admits(100, 20) && g.admits(200, 20));
}

#[test]
fn an_access_code_is_deleted_only_for_its_user() {
    let mut g = sample();
    g.delete_access_code(2, 7);
    assert_eq!(g.find_access_code("1234"), Some(code(7, "1234", 1)));
    g.delete_access_code(1, 7);
    assert_eq!(g.find_access_code("1234"), None);
    assert_eq!(g.access_codes_of(&user(1, "ann")), vec![]);
    assert_eq!(g.access_codes_of(&user(2, "ben")), vec![code(8, "5678", 2)]);
}

#[test]
fn the_next_id_is_one_above_the_greatest() {
    let g = sample();
    assert_eq!(g.next_user_id(), Some(3));
    assert_eq!(g.next_permission_id(), Some(31));
    assert_eq!(g.next_access_profile_id(), Some(301));
    assert_eq!(g.next_access_code_id(), Some(9));
    let mut g = AccessGraph::new();
    assert_eq!(g.next_user_id(), Some(1));
    assert_eq!(g.insert_user(user(-5, "neg")), Ok(()));
    assert_eq!(g.next_user_id(), Some(1));
    assert_eq!(g.insert_user(user(i32::MAX, "last")), Ok(()));
    assert_eq!(g.next_user_id(), None);
}

#[test]
fn the_store_says_why_it_refused() {
    assert_eq!(StoreError::UniqueViolation.message(), "Duplicate entry for a unique key");
    assert_eq!(
        StoreError::ForeignKeyViolation.message(),
        "Cannot add or update a child row: a foreign key constraint fails"
    );
}

use cherrydoor_backend::cleanup::{Cleanup, CleanupStep};
use cherrydoor_backend::error::ApiError;
use cherrydoor_backend::text::decimal;

#[test]
fn ids_are_written_in_decimal() {
    assert_eq!(decimal(0), "0");
    assert_eq!(decimal(7), "7");
    assert_eq!(decimal(10), "10");
    assert_eq!(decimal(42), "42");
    assert_eq!(decimal(1234567890), "1234567890");
    assert_eq!(decimal(-1), "-1");
    assert_eq!(decimal(-305), "-305");
    assert_eq!(decimal(i32::MAX), "2147483647");
    assert_eq!(decimal(i32::MIN), "-2147483648");
}

#[test]
fn a_deletion_runs_the_edges_first_and_the_row_last() {
    let mut c = Cleanup::of_permission(5);
    assert_eq!(c.current(), Some(CleanupStep::UserEdgesOfPermission(5)));
    assert!(!c.is_complete());
    assert_eq!(c.report(Ok(2)), Ok(()));
    assert_eq!(c.current(), Some(CleanupStep::ProfileEdgesOfPermission(5)));
    assert_eq!(c.report(Ok(0)), Ok(()));
    assert_eq!(c.current(), Some(CleanupStep::PermissionRow(5)));
    assert!(!c.is_complete());
    assert_eq!(c.report(Ok(1)), Ok(()));
    assert_eq!(c.current(), None);
    assert!(c.is_complete());
}

#[test]
fn the_steps_of_each_deletion_are_in_order() {
    let mut c = Cleanup::of_user(3);
    assert_eq!(c.current(), Some(CleanupStep::UserEdgesOfUser(3)));
    assert_eq!(c.report(Ok(0)), Ok(()));
    assert_eq!(c.current(), Some(CleanupStep::CodesOfUser(3)));
    assert_eq!(c.report(Ok(0)), Ok(()));
    assert_eq!(c.current(), Some(CleanupStep::UserRow(3)));
    assert_eq!(c.report(Ok(1)), Ok(()));
    assert!(c.is_complete());
    let mut c = Cleanup::of_access_profile(-4);
    assert_eq!(c.current(), Some(CleanupStep::ProfileEdgesOfProfile(-4)));
    assert_eq!(c.report(Ok(9)), Ok(()));
    assert_eq!(c.current(), Some(CleanupStep::ProfileRow(-4)));
    assert_eq!(c.report(Ok(1)), Ok(()));
    assert_eq!(c.current(), None);
    assert!(c.is_complete());
}

#[test]
fn a_deletion_stops_at_the_first_step_that_fails() {
    let mut c = Cleanup::of_permission(5);
    assert_eq!(c.report(Ok(1)), Ok(()));
    assert_eq!(
        c.report(Err(String::from("connection lost"))),
        Err(ApiError::Internal(String::from("connection lost")))
    );
    assert_eq!(c.current(), None);
    assert!(!c.is_complete());
    assert_eq!(c.report(Ok(1)), Ok(()));
    assert_eq!(c.current(), None);
    assert!(!c.is_complete());
    let mut c = Cleanup::of_user(1);
    assert_eq!(c.report(Err(String::from("x"))), Err(ApiError::Internal(String::from("x"))));
    assert_eq!(c.current(), None);
    assert!(!c.is_complete());
}

#[test]
fn a_report_after_the_end_changes_nothing() {
    let mut c = Cleanup::of_access_profile(1);
    assert_eq!(c.report(Ok(0)), Ok(()));
    assert_eq!(c.report(Ok(1)), Ok(()));
    assert!(c.is_complete());
    assert_eq!(c.report(Err(String::from("late"))), Err(ApiError::Internal(String::from("late"))));
    assert!(c.is_complete());
    assert_eq!(c.current(), None);
}

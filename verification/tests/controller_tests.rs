use cherrydoor_backend::command::{Command, CommandReply};
use cherrydoor_backend::error::ApiError;
use cherrydoor_backend::graph::AccessGraph;
use cherrydoor_backend::guards::auth::{Auth, OperatorUser, WebUIUserAuthorization};
use cherrydoor_backend::models::{AccessProfile, AccessProfileAccessMode};
use cherrydoor_backend::routes::active_access_profile::{
    get, proceed, ActiveAccessProfile, ActiveAccessProfileModel, SetError, SetProgress, StartError,
};

fn profile(id: i32, name: &str, color: &str, access_mode: AccessProfileAccessMode) -> AccessProfile {
    AccessProfile {
        id,
        name: String::from(name),
        display_text: format!("text of {}", name),
        color: String::from(color),
        access_mode,
    }
}

fn graph() -> AccessGraph {
    let mut g = AccessGraph::new();
    assert_eq!(g.insert_access_profile(profile(1, "day", "#112233", AccessProfileAccessMode::Normal)), Ok(()));
    assert_eq!(g.insert_access_profile(profile(2, "open", "#abc", AccessProfileAccessMode::OpenLock)), Ok(()));
    assert_eq!(g.insert_access_profile(profile(3, "broken", "#12", AccessProfileAccessMode::Normal)), Ok(()));
    g
}

fn ack() -> CommandReply {
    CommandReply::Answered { status: 204, body: None }
}

fn close() -> Command {
    Command::new().close()
}

fn apply(text: &str, color: (u8, u8, u8), open: bool) -> Command {
    Command {
        open_for_ms: None,
        display_text: Some(String::from(text)),
        display_text_for_ms: None,
        color: Some(color),
        color_for_ms: None,
        play_sound: None,
        close: if open { Some(false) } else { None },
    }
}

fn started() -> ActiveAccessProfile {
    let (mut controller, first) = ActiveAccessProfile::new(&graph(), String::from("http://door")).unwrap();
    assert_eq!(first, close());
    assert_eq!(
        controller.acknowledge(ack()),
        SetProgress::Send(apply("text of day", (0x11, 0x22, 0x33), false))
    );
    assert_eq!(controller.acknowledge(ack()), SetProgress::Done);
    controller
}

fn operator() -> Auth<OperatorUser> {
    let claim = WebUIUserAuthorization { exp: 10, name: String::from("op"), is_admin: false };
    match Auth::<OperatorUser>::check(claim, 5) {
        Ok(auth) => auth,
        Err(_) => panic!("an operator passes"),
    }
}

#[test]
fn the_controller_starts_on_the_first_profile() {
    let controller = started();
    assert_eq!(controller.get(), "day");
    assert_eq!(controller.endpoint(), "http://door/");
}

#[test]
fn no_controller_starts_without_a_profile() {
    let r = ActiveAccessProfile::new(&AccessGraph::new(), String::from("http://door"));
    assert_eq!(r.err(), Some(StartError::NoAccessProfile));
}

#[test]
fn no_controller_starts_on_a_profile_without_a_colour() {
    let mut g = AccessGraph::new();
    assert_eq!(g.insert_access_profile(profile(3, "broken", "#12", AccessProfileAccessMode::Normal)), Ok(()));
    let r = ActiveAccessProfile::new(&g, String::from("http://door"));
    assert_eq!(r.err(), Some(StartError::InvalidColor));
}

#[test]
fn a_change_closes_first_and_applies_then() {
    let mut controller = started();
    let open = profile(2, "open", "#abc", AccessProfileAccessMode::OpenLock);
    assert_eq!(controller.set(open), Ok(close()));
    assert_eq!(controller.get(), "open");
    assert_eq!(
        controller.acknowledge(ack()),
        SetProgress::Send(apply("text of open", (0xaa, 0xbb, 0xcc), true))
    );
    assert_eq!(controller.acknowledge(ack()), SetProgress::Done);
    assert_eq!(controller.get(), "open");
}

#[test]
fn only_a_profile_that_holds_the_lock_open_sends_the_open_instruction() {
    let mut controller = started();
    assert_eq!(controller.set(profile(1, "day", "#112233", AccessProfileAccessMode::Normal)), Ok(close()));
    match controller.acknowledge(ack()) {
        SetProgress::Send(command) => assert_eq!(command.close, None),
        _ => panic!("the apply command follows"),
    }
    assert_eq!(controller.acknowledge(ack()), SetProgress::Done);
    assert_eq!(controller.set(profile(2, "open", "#112233", AccessProfileAccessMode::OpenLock)), Ok(close()));
    match controller.acknowledge(ack()) {
        SetProgress::Send(command) => assert_eq!(command.close, Some(false)),
        _ => panic!("the apply command follows"),
    }
}

#[test]
fn a_profile_without_a_colour_sends_nothing_but_is_named_already() {
    let mut controller = started();
    let broken = profile(3, "broken", "#gggggg", AccessProfileAccessMode::Normal);
    assert_eq!(controller.set(broken), Err(SetError::InvalidColor));
    assert_eq!(controller.get(), "broken");
    assert_eq!(controller.acknowledge(ack()), SetProgress::Failed(SetError::NothingPending));
    assert_eq!(controller.set(profile(1, "day", "#112233", AccessProfileAccessMode::Normal)), Ok(close()));
}

#[test]
fn a_close_that_is_not_acknowledged_ends_the_change_with_the_new_name() {
    let mut controller = started();
    assert_eq!(controller.set(profile(2, "open", "#abc", AccessProfileAccessMode::OpenLock)), Ok(close()));
    let reply = CommandReply::Answered { status: 500, body: Some(String::from("jammed")) };
    assert_eq!(
        controller.acknowledge(reply),
        SetProgress::Failed(SetError::Refused(Some(String::from("jammed"))))
    );
    assert_eq!(controller.get(), "open");
    assert_eq!(controller.acknowledge(ack()), SetProgress::Failed(SetError::NothingPending));
    assert_eq!(controller.get(), "open");
}

#[test]
fn an_apply_that_is_not_acknowledged_ends_the_change_with_the_new_name() {
    let mut controller = started();
    assert_eq!(controller.set(profile(2, "open", "#abc", AccessProfileAccessMode::OpenLock)), Ok(close()));
    assert!(matches!(controller.acknowledge(ack()), SetProgress::Send(_)));
    let reply = CommandReply::Unreachable { reason: String::from("timeout") };
    assert_eq!(
        controller.acknowledge(reply),
        SetProgress::Failed(SetError::Unreachable(String::from("timeout")))
    );
    assert_eq!(controller.get(), "open");
    assert_eq!(controller.set(profile(1, "day", "#112233", AccessProfileAccessMode::Normal)), Ok(close()));
    assert_eq!(controller.get(), "day");
}

#[test]
fn a_second_change_waits_for_the_first() {
    let mut controller = started();
    let a = profile(1, "A", "#111111", AccessProfileAccessMode::Normal);
    let b = profile(2, "B", "#222222", AccessProfileAccessMode::Normal);
    assert_eq!(controller.set(a), Ok(close()));
    assert_eq!(controller.set(b.clone()), Err(SetError::Busy));
    assert_eq!(controller.get(), "A");
    assert_eq!(
        controller.acknowledge(ack()),
        SetProgress::Send(apply("text of A", (0x11, 0x11, 0x11), false))
    );
    assert_eq!(controller.set(b.clone()), Err(SetError::Busy));
    assert_eq!(controller.get(), "A");
    assert_eq!(controller.acknowledge(ack()), SetProgress::Done);
    assert_eq!(controller.set(b), Ok(close()));
    assert_eq!(controller.get(), "B");
    assert_eq!(
        controller.acknowledge(ack()),
        SetProgress::Send(apply("text of B", (0x22, 0x22, 0x22), false))
    );
    assert_eq!(controller.acknowledge(ack()), SetProgress::Done);
}

#[test]
fn the_name_stays_until_the_next_change() {
    let mut controller = started();
    assert_eq!(controller.set(profile(2, "open", "#abc", AccessProfileAccessMode::OpenLock)), Ok(close()));
    for _ in 0..3 {
        assert_eq!(controller.get(), "open");
    }
    controller.acknowledge(ack());
    assert_eq!(controller.get(), "open");
    controller.acknowledge(ack());
    for _ in 0..3 {
        assert_eq!(controller.get(), "open");
    }
    controller.acknowledge(CommandReply::Unreachable { reason: String::from("late") });
    assert_eq!(controller.get(), "open");
}

#[test]
fn the_errors_of_a_change_have_their_messages() {
    assert_eq!(SetError::InvalidColor.message(), "Invalid RGB string.");
    assert_eq!(
        SetError::Refused(Some(String::from("jammed"))).message(),
        "Command server returned jammed"
    );
    assert_eq!(SetError::Refused(None).message(), "Command server returned garbage");
    assert_eq!(SetError::Unreachable(String::from("timeout")).message(), "timeout");
    assert_eq!(SetError::Busy.message(), "Another profile change is in progress.");
    assert_eq!(SetError::NothingPending.message(), "No command is waiting for a reply.");
}

#[test]
fn the_set_route_looks_the_profile_up_by_its_name() {
    let g = graph();
    let mut controller = started();
    let auth = operator();
    let wanted = ActiveAccessProfileModel { name: String::from("open") };
    assert_eq!(cherrydoor_backend::routes::active_access_profile::set(&auth, &g, &mut controller, &wanted), Ok(close()));
    assert_eq!(
        proceed(&mut controller, ack()),
        Ok(Some(apply("text of open", (0xaa, 0xbb, 0xcc), true)))
    );
    assert_eq!(proceed(&mut controller, ack()), Ok(None));
    assert_eq!(get(&auth, &controller), ActiveAccessProfileModel { name: String::from("open") });
}

#[test]
fn the_set_route_does_not_find_an_unknown_profile() {
    let g = graph();
    let mut controller = started();
    let wanted = ActiveAccessProfileModel { name: String::from("dusk") };
    assert_eq!(
        cherrydoor_backend::routes::active_access_profile::set(&operator(), &g, &mut controller, &wanted),
        Err(ApiError::NotFound(String::from("Access profile dusk not found.")))
    );
    assert_eq!(controller.get(), "day");
}

#[test]
fn the_set_route_reports_a_failed_sequence_as_internal() {
    let g = graph();
    let mut controller = started();
    let auth = operator();
    let broken = ActiveAccessProfileModel { name: String::from("broken") };
    assert_eq!(
        cherrydoor_backend::routes::active_access_profile::set(&auth, &g, &mut controller, &broken),
        Err(ApiError::Internal(String::from("Invalid RGB string.")))
    );
    assert_eq!(get(&auth, &controller).name, "broken");
    let wanted = ActiveAccessProfileModel { name: String::from("open") };
    assert_eq!(cherrydoor_backend::routes::active_access_profile::set(&auth, &g, &mut controller, &wanted), Ok(close()));
    assert_eq!(
        proceed(&mut controller, CommandReply::Answered { status: 404, body: None }),
        Err(ApiError::Internal(String::from("Command server returned garbage")))
    );
    assert_eq!(get(&auth, &controller).name, "open");
    assert_eq!(cherrydoor_backend::routes::active_access_profile::set(&auth, &g, &mut controller, &wanted), Ok(close()));
    assert_eq!(
        proceed(&mut controller, CommandReply::Unreachable { reason: String::from("no route to host") }),
        Err(ApiError::Internal(String::from("no route to host")))
    );
}

#[test]
fn commands_are_built_part_by_part() {
    let c = Command::new();
    assert_eq!(
        c,
        Command {
            open_for_ms: None,
            display_text: None,
            display_text_for_ms: None,
            color: None,
            color_for_ms: None,
            play_sound: None,
            close: None,
        }
    );
    let c = Command::new().open().display_text(String::from("hi")).set_color(1, 2, 3);
    assert_eq!(c.close, Some(false));
    assert_eq!(Command::new().close().close, Some(true));
    assert_eq!(Command::new().open().close().close, Some(true));
    assert_eq!(c.display_text, Some(String::from("hi")));
    assert_eq!(c.color, Some((1, 2, 3)));
    assert_eq!(c.display_text_for_ms, None);
    let c = Command::new().open_for(7).display_text_for(String::from("x"), 8).set_color_for(4, 5, 6, 9).play_sound(2);
    assert_eq!(c.open_for_ms, Some(7));
    assert_eq!(c.display_text, Some(String::from("x")));
    assert_eq!(c.display_text_for_ms, Some(8));
    assert_eq!(c.color, Some((4, 5, 6)));
    assert_eq!(c.color_for_ms, Some(9));
    assert_eq!(c.play_sound, Some(2));
    assert_eq!(c.clone(), c);
}

#[test]
fn a_reply_is_an_acknowledgement_only_with_status_204() {
    assert!(CommandReply::Answered { status: 204, body: None }.is_acknowledged());
    assert!(!CommandReply::Answered { status: 200, body: None }.is_acknowledged());
    assert!(!CommandReply::Answered { status: 205, body: Some(String::from("ok")) }.is_acknowledged());
    assert!(!CommandReply::Unreachable { reason: String::from("down") }.is_acknowledged());
    assert_eq!(
        CommandReply::Answered { status: 500, body: Some(String::from("oops")) }.complain("It said: "),
        "It said: oops"
    );
    assert_eq!(CommandReply::Answered { status: 500, body: None }.complain(""), "garbage");
    assert_eq!(CommandReply::Unreachable { reason: String::from("down") }.complain("> "), "> down");
}

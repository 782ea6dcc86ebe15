//! What holds of the controller however callers and replies interleave.

use vstd::prelude::*;

use crate::command::{Command, CommandReply};
use crate::graph::{profile_name, profile_named, GraphView};
use crate::models::AccessProfile;
use crate::routes::active_access_profile::{close_command, ControllerView, SetProgress};
use crate::seq_lemmas::{first_where, has_key, lemma_first_where_by_key, lemma_found_has_key};

verus! {

/// One thing that happens to the controller: a caller begins a change, or
/// the reply to the command that is out comes in.
pub enum ControllerEvent {
    Begin(AccessProfile),
    Reply(CommandReply),
}

/// A command as the door controller sees it arrive: `by` is the position,
/// among the events, of the `Begin` that it belongs to, and `closes` tells the
/// close command from the apply command.
pub struct SentCommand {
    pub by: int,
    pub command: Command,
    pub closes: bool,
}

/// The controller after a run of events, with the commands that were handed
/// out, in order, and the position of the `Begin` that was accepted last.
pub struct ControllerTrace {
    pub state: ControllerView,
    pub sent: Seq<SentCommand>,
    pub owner: int,
}

/// Runs the events, in order, from `start`.
pub open spec fn run(start: ControllerView, events: Seq<ControllerEvent>) -> ControllerTrace
    decreases events.len(),
{
    if events.len() == 0 {
        ControllerTrace { state: start, sent: Seq::empty(), owner: -1 }
    } else {
        let before = run(start, events.drop_last());
        let at = events.len() - 1;
        match events.last() {
            ControllerEvent::Begin(profile) => {
                let (state, begun) = before.state.spec_set(profile);
                match begun {
                    Ok(command) => ControllerTrace {
                        state,
                        sent: before.sent.push(SentCommand { by: at, command, closes: true }),
                        owner: at,
                    },
                    Err(_) => ControllerTrace { state, ..before },
                }
            },
            ControllerEvent::Reply(reply) => {
                let (state, progress) = before.state.spec_acknowledge(reply);
                match progress {
                    SetProgress::Send(command) => ControllerTrace {
                        state,
                        sent: before.sent.push(
                            SentCommand { by: before.owner, command, closes: false },
                        ),
                        ..before
                    },
                    _ => ControllerTrace { state, ..before },
                }
            },
        }
    }
}

/// The controller after the replies, in order, have come in.
pub open spec fn after_replies(start: ControllerView, replies: Seq<CommandReply>) -> ControllerView
    decreases replies.len(),
{
    if replies.len() == 0 {
        start
    } else {
        after_replies(start, replies.drop_last()).spec_acknowledge(replies.last()).0
    }
}

/// However callers and replies interleave, the commands of two changes
/// never do: every apply command comes directly after the close command of
/// the same `Begin`, every close command is the plain close, and no `Begin`
/// hands out a second close.
pub proof fn lemma_changes_do_not_interleave(start: ControllerView, events: Seq<ControllerEvent>)
    requires
        start.phase is Idle,
    ensures
        ({
            let sent = run(start, events).sent;
            &&& forall|i: int|
                0 <= i < sent.len() ==> 0 <= (#[trigger] sent[i]).by < events.len()
                    && events[sent[i].by] is Begin
            &&& forall|i: int|
                0 <= i < sent.len() && (#[trigger] sent[i]).closes ==> sent[i].command
                    == close_command()
            &&& forall|i: int|
                0 <= i < sent.len() && !(#[trigger] sent[i]).closes ==> i > 0 && sent[i
                    - 1].closes && sent[i - 1].by == sent[i].by
            &&& forall|i: int, j: int|
                0 <= i < j < sent.len() && (#[trigger] sent[i]).closes && (
                #[trigger] sent[j]).closes ==> sent[i].by < sent[j].by
        }),
        run(start, events).owner < events.len(),
        forall|i: int|
            0 <= i < run(start, events).sent.len() ==> (#[trigger] run(start, events).sent[i]).by
                <= run(start, events).owner,
        run(start, events).state.phase is Closing ==> run(start, events).sent.len() > 0 && run(
            start,
            events,
        ).sent.last().closes && run(start, events).sent.last().by == run(start, events).owner,
    decreases events.len(),
{
    if events.len() > 0 {
        let prefix = events.drop_last();
        lemma_changes_do_not_interleave(start, prefix);
        let before = run(start, prefix);
        let after = run(start, events);
        assert forall|i: int| 0 <= i < before.sent.len() implies events[(
        #[trigger] before.sent[i]).by] is Begin by {
            assert(prefix[before.sent[i].by] == events[before.sent[i].by]);
        }
        match events.last() {
            ControllerEvent::Begin(profile) => {
                if before.state.spec_set(profile).1 is Ok {
                    assert(before.state.phase is Idle);
                    assert forall|i: int| 0 <= i < before.sent.len() implies after.sent[i]
                        == before.sent[i] by {}
                    assert(after.sent[before.sent.len() as int].closes);
                }
            },
            ControllerEvent::Reply(reply) => {
                if before.state.spec_acknowledge(reply).1 is Send {
                    assert(before.state.phase is Closing);
                    assert forall|i: int| 0 <= i < before.sent.len() implies after.sent[i]
                        == before.sent[i] by {}
                    assert(!after.sent[before.sent.len() as int].closes);
                }
            },
        }
    }
}

/// Once a change to `profile` is begun, the name is that of `profile`,
/// whether the change then succeeds or fails, and whatever replies come in:
/// it stays so until the next change is begun.
pub proof fn lemma_name_holds_until_next_set(
    start: ControllerView,
    profile: AccessProfile,
    replies: Seq<CommandReply>,
)
    requires
        start.phase is Idle,
    ensures
        after_replies(start.spec_set(profile).0, replies).name == profile.name@,
    decreases replies.len(),
{
    if replies.len() > 0 {
        lemma_name_holds_until_next_set(start, profile, replies.drop_last());
    }
}

/// A change that the `set` route begins names a profile that is there: the
/// profile is looked up by the name before the controller takes the name.
pub proof fn lemma_set_names_a_profile(
    graph: GraphView,
    controller: ControllerView,
    name: Seq<char>,
)
    requires
        controller.phase is Idle,
        first_where(graph.access_profiles, profile_named(name)) is Some,
    ensures
        ({
            let profile = first_where(graph.access_profiles, profile_named(name))->Some_0;
            let after = controller.spec_set(profile).0;
            after.name == name && has_key(graph.access_profiles, profile_name(), after.name)
        }),
{
    lemma_first_where_by_key(graph.access_profiles, profile_named(name), profile_name(), name);
    lemma_found_has_key(graph.access_profiles, profile_named(name), profile_name());
}

} // verus!

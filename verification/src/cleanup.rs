//! Deleting a row that others refer to: an ordered list of steps, run one
//! by one against the data store, that stops at the first step that fails.

use vstd::prelude::*;

use crate::error::ApiError;
use crate::graph::GraphView;

verus! {

/// One step of a deletion, as one statement for the data store.
#[derive(Clone, Copy, Debug, PartialEq, Eq, Structural)]
pub enum CleanupStep {
    /// Delete the user-permission edges of this user.
    UserEdgesOfUser(i32),
    /// Delete the access codes of this user.
    CodesOfUser(i32),
    /// Delete this user.
    UserRow(i32),
    /// Delete the user-permission edges of this permission.
    UserEdgesOfPermission(i32),
    /// Delete the profile-permission edges of this permission.
    ProfileEdgesOfPermission(i32),
    /// Delete this permission.
    PermissionRow(i32),
    /// Delete the profile-permission edges of this access profile.
    ProfileEdgesOfProfile(i32),
    /// Delete this access profile.
    ProfileRow(i32),
}

/// The graph after one step.
pub open spec fn after(graph: GraphView, step: CleanupStep) -> GraphView {
    match step {
        CleanupStep::UserEdgesOfUser(id) => graph.without_user_edges_of_user(id),
        CleanupStep::CodesOfUser(id) => graph.without_codes_of_user(id),
        CleanupStep::UserRow(id) => graph.without_user_row(id),
        CleanupStep::UserEdgesOfPermission(id) => graph.without_user_edges_of_permission(id),
        CleanupStep::ProfileEdgesOfPermission(id) => graph.without_profile_edges_of_permission(id),
        CleanupStep::PermissionRow(id) => graph.without_permission_row(id),
        CleanupStep::ProfileEdgesOfProfile(id) => graph.without_profile_edges_of_profile(id),
        CleanupStep::ProfileRow(id) => graph.without_profile_row(id),
    }
}

/// The graph after the steps, in order.
pub open spec fn after_all(graph: GraphView, steps: Seq<CleanupStep>) -> GraphView
    decreases steps.len(),
{
    if steps.len() == 0 {
        graph
    } else {
        after(after_all(graph, steps.drop_last()), steps.last())
    }
}

/// The steps that delete a user: edges first, the row last.
pub open spec fn user_steps(id: i32) -> Seq<CleanupStep> {
    seq![CleanupStep::UserEdgesOfUser(id), CleanupStep::CodesOfUser(id), CleanupStep::UserRow(id)]
}

/// The steps that delete a permission: edges first, the row last.
pub open spec fn permission_steps(id: i32) -> Seq<CleanupStep> {
    seq![
        CleanupStep::UserEdgesOfPermission(id),
        CleanupStep::ProfileEdgesOfPermission(id),
        CleanupStep::PermissionRow(id),
    ]
}

/// The steps that delete an access profile: edges first, the row last.
pub open spec fn access_profile_steps(id: i32) -> Seq<CleanupStep> {
    seq![CleanupStep::ProfileEdgesOfProfile(id), CleanupStep::ProfileRow(id)]
}

/// A deletion under way.
pub struct Cleanup {
    steps: Vec<CleanupStep>,
    done: usize,
    failed: bool,
}

/// The deletion as mathematics: the steps, how many of them have been run
/// with success, and whether one has failed.
pub struct CleanupView {
    pub steps: Seq<CleanupStep>,
    pub done: nat,
    pub failed: bool,
}

impl CleanupView {
    /// The step that is to be run now: the next one, unless a step has
    /// failed or none is left.
    pub open spec fn current(self) -> Option<CleanupStep> {
        if !self.failed && self.done < self.steps.len() {
            Some(self.steps[self.done as int])
        } else {
            None
        }
    }

    /// All the steps have been run with success.
    pub open spec fn complete(self) -> bool {
        !self.failed && self.done == self.steps.len()
    }

    /// The deletion after the data store has reported on the step that was
    /// to be run: success moves on to the next step, failure ends the
    /// deletion where it stands.
    pub open spec fn reported(self, success: bool) -> CleanupView {
        if self.current() is None {
            self
        } else if success {
            CleanupView { done: self.done + 1, ..self }
        } else {
            CleanupView { failed: true, ..self }
        }
    }

    /// What the data store holds after the steps that were run with
    /// success: no step that was run is undone.
    pub open spec fn committed(self, graph: GraphView) -> GraphView {
        after_all(graph, self.steps.take(self.done as int))
    }
}

impl View for Cleanup {
    type V = CleanupView;

    closed spec fn view(&self) -> CleanupView {
        CleanupView { steps: self.steps@, done: self.done as nat, failed: self.failed }
    }
}

impl Cleanup {
    /// The deletion of the user `id`.
    pub fn of_user(id: i32) -> (c: Cleanup)
        ensures
            c@ == (CleanupView { steps: user_steps(id), done: 0, failed: false }),
    {
        let mut steps: Vec<CleanupStep> = Vec::new();
        steps.push(CleanupStep::UserEdgesOfUser(id));
        steps.push(CleanupStep::CodesOfUser(id));
        steps.push(CleanupStep::UserRow(id));
        assert(steps@ =~= user_steps(id));
        Cleanup { steps, done: 0, failed: false }
    }

    /// The deletion of the permission `id`.
    pub fn of_permission(id: i32) -> (c: Cleanup)
        ensures
            c@ == (CleanupView { steps: permission_steps(id), done: 0, failed: false }),
    {
        let mut steps: Vec<CleanupStep> = Vec::new();
        steps.push(CleanupStep::UserEdgesOfPermission(id));
        steps.push(CleanupStep::ProfileEdgesOfPermission(id));
        steps.push(CleanupStep::PermissionRow(id));
        assert(steps@ =~= permission_steps(id));
        Cleanup { steps, done: 0, failed: false }
    }

    /// The deletion of the access profile `id`.
    pub fn of_access_profile(id: i32) -> (c: Cleanup)
        ensures
            c@ == (CleanupView { steps: access_profile_steps(id), done: 0, failed: false }),
    {
        let mut steps: Vec<CleanupStep> = Vec::new();
        steps.push(CleanupStep::ProfileEdgesOfProfile(id));
        steps.push(CleanupStep::ProfileRow(id));
        assert(steps@ =~= access_profile_steps(id));
        Cleanup { steps, done: 0, failed: false }
    }

    /// The step that is to be run now, if any.
    pub fn current(&self) -> (step: Option<CleanupStep>)
        ensures
            step == self@.current(),
    {
        if !self.failed && self.done < self.steps.len() {
            Some(self.steps[self.done])
        } else {
            None
        }
    }

    /// Whether all the steps have been run with success.
    pub fn is_complete(&self) -> (b: bool)
        ensures
            b == self@.complete(),
    {
        !self.failed && self.done == self.steps.len()
    }

    /// Takes the data store's report on the step that was to be run: the
    /// number of rows it deleted, or the text of its error. A failure is
    /// handed back as an internal error and ends the deletion.
    pub fn report(&mut self, outcome: Result<usize, String>) -> (r: Result<(), ApiError>)
        ensures
            final(self)@ == old(self)@.reported(outcome is Ok),
            match outcome {
                Ok(_) => r is Ok,
                Err(text) => r == Err::<(), ApiError>(ApiError::Internal(text)),
            },
    {
        match outcome {
            Ok(_) => {
                if !self.failed && self.done < self.steps.len() {
                    self.done = self.done + 1;
                }
                Ok(())
            },
            Err(text) => {
                if !self.failed && self.done < self.steps.len() {
                    self.failed = true;
                }
                Err(ApiError::Internal(text))
            },
        }
    }
}

/// The steps of each deletion, run to the end, come to the deletion itself.
pub proof fn lemma_steps_are_the_deletion(graph: GraphView, id: i32)
    ensures
        after_all(graph, user_steps(id)) == graph.without_user(id),
        after_all(graph, permission_steps(id)) == graph.without_permission(id),
        after_all(graph, access_profile_steps(id)) == graph.without_access_profile(id),
{
    reveal_with_fuel(after_all, 4);
    let u = user_steps(id);
    assert(u.drop_last() =~= seq![CleanupStep::UserEdgesOfUser(id), CleanupStep::CodesOfUser(id)]);
    assert(u.drop_last().drop_last() =~= seq![CleanupStep::UserEdgesOfUser(id)]);
    assert(u.drop_last().drop_last().drop_last() =~= Seq::<CleanupStep>::empty());
    let p = permission_steps(id);
    assert(p.drop_last() =~= seq![
        CleanupStep::UserEdgesOfPermission(id),
        CleanupStep::ProfileEdgesOfPermission(id),
    ]);
    assert(p.drop_last().drop_last() =~= seq![CleanupStep::UserEdgesOfPermission(id)]);
    assert(p.drop_last().drop_last().drop_last() =~= Seq::<CleanupStep>::empty());
    let a = access_profile_steps(id);
    assert(a.drop_last() =~= seq![CleanupStep::ProfileEdgesOfProfile(id)]);
    assert(a.drop_last().drop_last() =~= Seq::<CleanupStep>::empty());
}

/// Once a step has failed, no report brings the deletion to run another:
/// it stops at the first failure, with the steps before it committed.
pub proof fn lemma_cleanup_stops_at_first_failure(c: CleanupView, reports: Seq<bool>)
    requires
        c.failed,
    ensures
        after_reports(c, reports) == c,
        after_reports(c, reports).current() is None,
    decreases reports.len(),
{
    if reports.len() > 0 {
        lemma_cleanup_stops_at_first_failure(c, reports.drop_last());
    }
}

/// The deletion after the reports, in order.
pub open spec fn after_reports(c: CleanupView, reports: Seq<bool>) -> CleanupView
    decreases reports.len(),
{
    if reports.len() == 0 {
        c
    } else {
        after_reports(c, reports.drop_last()).reported(reports.last())
    }
}

} // verus!

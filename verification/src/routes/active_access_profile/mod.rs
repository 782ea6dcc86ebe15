//! The active access profile: the one place that knows which profile is
//! enforced, and the command sequence that makes the door controller
//! follow a change.

pub mod laws;
pub mod rgb;

pub use self::rgb::{Rgb, RgbParseError};

use vstd::prelude::*;
use vstd::string::*;

use self::rgb::spec_from_hex_string;
use crate::command::{Command, CommandReply};
use crate::error::ApiError;
use crate::graph::{profile_named, AccessGraph};
use crate::guards::auth::{Auth, OperatorUser};
use crate::models::{AccessProfile, AccessProfileAccessMode};
use crate::seq_lemmas::first_where;

verus! {

/// Why a change of the active profile came to nothing.
#[derive(Debug, PartialEq, Eq)]
pub enum SetError {
    /// The colour of the profile is no colour. No command was sent.
    InvalidColor,
    /// Another change has not run to its end yet. Nothing was changed.
    Busy,
    /// A reply came in although no command was waiting for one.
    NothingPending,
    /// The controller answered, but did not acknowledge; the body of its
    /// answer, where it could be read.
    Refused(Option<String>),
    /// The command did not reach the controller.
    Unreachable(String),
}

/// How far a change of the active profile has come.
#[derive(Debug, PartialEq, Eq)]
pub enum SetPhase {
    /// No change is in flight.
    Idle,
    /// The close command is out; `apply` follows once it is acknowledged.
    Closing { apply: Command },
    /// The apply command is out.
    Applying,
}

/// What is to be done next for the change in flight.
#[derive(Debug, PartialEq, Eq)]
pub enum SetProgress {
    /// Send this command and hand back its reply.
    Send(Command),
    /// The change is complete.
    Done,
    /// The change failed; nothing more is sent for it.
    Failed(SetError),
}

/// The single authority for which profile is enforced right now.
pub struct ActiveAccessProfile {
    active_profile_name: String,
    command_addr: String,
    phase: SetPhase,
}

/// The controller as mathematics.
pub struct ControllerView {
    pub name: Seq<char>,
    pub command_addr: Seq<char>,
    pub phase: SetPhase,
}

/// Why no controller could be started.
#[derive(Clone, Copy, Debug, PartialEq, Eq, Structural)]
pub enum StartError {
    /// There is no access profile to enforce.
    NoAccessProfile,
    /// The colour of the profile is no colour.
    InvalidColor,
}

/// The name of a profile, as it is exchanged with the caller.
#[derive(Debug, PartialEq, Eq)]
pub struct ActiveAccessProfileModel {
    pub name: String,
}

/// The command that closes the lock before a profile is applied.
pub open spec fn close_command() -> Command {
    Command { close: Some(true), ..Command::spec_new() }
}

/// The command that applies a profile: its text, its colour, and the open
/// instruction exactly if the profile holds the lock open.
pub open spec fn apply_command(profile: AccessProfile, color: Rgb) -> Command {
    Command {
        display_text: Some(profile.display_text),
        color: Some((color.r, color.g, color.b)),
        close: if profile.access_mode == AccessProfileAccessMode::OpenLock {
            Some(false)
        } else {
            None
        },
        ..Command::spec_new()
    }
}

/// What a reply that is no acknowledgement makes of the change.
pub open spec fn refusal(reply: CommandReply) -> SetError {
    match reply {
        CommandReply::Answered { body, .. } => SetError::Refused(body),
        CommandReply::Unreachable { reason } => SetError::Unreachable(reason),
    }
}

impl SetError {
    /// The text of the error.
    pub open spec fn spec_message(&self) -> Seq<char> {
        match self {
            SetError::InvalidColor => "Invalid RGB string."@,
            SetError::Busy => "Another profile change is in progress."@,
            SetError::NothingPending => "No command is waiting for a reply."@,
            SetError::Refused(Some(body)) => "Command server returned "@ + body@,
            SetError::Refused(None) => "Command server returned "@ + "garbage"@,
            SetError::Unreachable(reason) => reason@,
        }
    }

    /// The text of the error.
    pub fn message(&self) -> (m: String)
        ensures
            m@ == self.spec_message(),
    {
        match self {
            SetError::InvalidColor => RgbParseError.message(),
            SetError::Busy => String::from_str("Another profile change is in progress."),
            SetError::NothingPending => String::from_str("No command is waiting for a reply."),
            SetError::Refused(Some(body)) => String::from_str("Command server returned ").concat(
                body.as_str(),
            ),
            SetError::Refused(None) => String::from_str("Command server returned ").concat(
                "garbage",
            ),
            SetError::Unreachable(reason) => reason.clone(),
        }
    }
}

impl ControllerView {
    /// A change is begun: the name is swapped first, then the colour is
    /// read, and only then is the close command handed out. While another
    /// change is in flight nothing happens at all.
    pub open spec fn spec_set(self, profile: AccessProfile) -> (ControllerView, Result<
        Command,
        SetError,
    >) {
        if self.phase !is Idle {
            (self, Err(SetError::Busy))
        } else {
            match spec_from_hex_string(profile.color@) {
                None => (ControllerView { name: profile.name@, ..self }, Err(SetError::InvalidColor)),
                Some(color) => (
                    ControllerView {
                        name: profile.name@,
                        phase: SetPhase::Closing { apply: apply_command(profile, color) },
                        ..self
                    },
                    Ok(close_command()),
                ),
            }
        }
    }

    /// A reply comes in: an acknowledged close is followed by the apply
    /// command, an acknowledged apply ends the change, and anything else
    /// fails it. The name is never touched.
    pub open spec fn spec_acknowledge(self, reply: CommandReply) -> (ControllerView, SetProgress) {
        match self.phase {
            SetPhase::Idle => (self, SetProgress::Failed(SetError::NothingPending)),
            SetPhase::Closing { apply } => if reply.acknowledged() {
                (ControllerView { phase: SetPhase::Applying, ..self }, SetProgress::Send(apply))
            } else {
                (
                    ControllerView { phase: SetPhase::Idle, ..self },
                    SetProgress::Failed(refusal(reply)),
                )
            },
            SetPhase::Applying => if reply.acknowledged() {
                (ControllerView { phase: SetPhase::Idle, ..self }, SetProgress::Done)
            } else {
                (
                    ControllerView { phase: SetPhase::Idle, ..self },
                    SetProgress::Failed(refusal(reply)),
                )
            },
        }
    }
}

impl View for ActiveAccessProfile {
    type V = ControllerView;

    closed spec fn view(&self) -> ControllerView {
        ControllerView {
            name: self.active_profile_name@,
            command_addr: self.command_addr@,
            phase: self.phase,
        }
    }
}

impl ActiveAccessProfile {
    /// Starts the controller on the first access profile of the graph and
    /// hands out the close command that begins its first change.
    pub fn new(graph: &AccessGraph, command_addr: String) -> (r: Result<
        (ActiveAccessProfile, Command),
        StartError,
    >)
        ensures
            graph@.access_profiles.len() == 0 ==> r == Err::<
                (ActiveAccessProfile, Command),
                StartError,
            >(StartError::NoAccessProfile),
            graph@.access_profiles.len() > 0 ==> ({
                let blank = ControllerView {
                    name: Seq::empty(),
                    command_addr: command_addr@,
                    phase: SetPhase::Idle,
                };
                match blank.spec_set(graph@.access_profiles[0]) {
                    (started, Ok(command)) => r matches Ok(pair) && pair.0@ == started && pair.1
                        == command,
                    (_, Err(_)) => r == Err::<(ActiveAccessProfile, Command), StartError>(
                        StartError::InvalidColor,
                    ),
                }
            }),
    {
        let profile = match graph.first_access_profile() {
            Some(p) => p,
            None => {
                return Err(StartError::NoAccessProfile);
            },
        };
        let mut controller = ActiveAccessProfile {
            active_profile_name: String::new(),
            command_addr,
            phase: SetPhase::Idle,
        };
        match controller.set(profile) {
            Ok(command) => Ok((controller, command)),
            Err(_) => Err(StartError::InvalidColor),
        }
    }

    /// Begins a change to `access_profile`. On `Ok` the command is to be
    /// sent and its reply handed to `acknowledge`.
    pub fn set(&mut self, access_profile: AccessProfile) -> (r: Result<Command, SetError>)
        ensures
            (final(self)@, r) == old(self)@.spec_set(access_profile),
    {
        match &self.phase {
            SetPhase::Idle => {},
            _ => {
                return Err(SetError::Busy);
            },
        }
        let parsed = Rgb::from_hex_string(access_profile.color.as_str());
        let ghost profile = access_profile;
        self.active_profile_name = access_profile.name;
        let color = match parsed {
            Ok(color) => color,
            Err(_) => {
                assert(self@ =~= (ControllerView { name: profile.name@, ..old(self)@ }));
                return Err(SetError::InvalidColor);
            },
        };
        let mut command = Command::new().display_text(access_profile.display_text).set_color(
            color.r,
            color.g,
            color.b,
        );
        if access_profile.access_mode == AccessProfileAccessMode::OpenLock {
            command = command.open();
        }
        self.phase = SetPhase::Closing { apply: command };
        Ok(Command::new().close())
    }

    /// Takes the reply to the command that is out and says what follows.
    pub fn acknowledge(&mut self, reply: CommandReply) -> (r: SetProgress)
        ensures
            (final(self)@, r) == old(self)@.spec_acknowledge(reply),
    {
        let acknowledged = reply.is_acknowledged();
        let mut phase = SetPhase::Idle;
        core::mem::swap(&mut self.phase, &mut phase);
        match phase {
            SetPhase::Idle => SetProgress::Failed(SetError::NothingPending),
            SetPhase::Closing { apply } => {
                if acknowledged {
                    self.phase = SetPhase::Applying;
                    SetProgress::Send(apply)
                } else {
                    SetProgress::Failed(refuse(reply))
                }
            },
            SetPhase::Applying => {
                if acknowledged {
                    SetProgress::Done
                } else {
                    SetProgress::Failed(refuse(reply))
                }
            },
        }
    }

    /// The name of the profile that is enforced.
    pub fn get(&self) -> (name: String)
        ensures
            name@ == self@.name,
    {
        self.active_profile_name.clone()
    }

    /// Where the commands go: the address of the controller and a slash.
    pub fn endpoint(&self) -> (url: String)
        ensures
            url@ == self@.command_addr + "/"@,
    {
        self.command_addr.clone().concat("/")
    }
}

/// What a reply that is no acknowledgement makes of the change.
fn refuse(reply: CommandReply) -> (e: SetError)
    ensures
        e == refusal(reply),
{
    match reply {
        CommandReply::Answered { status, body } => SetError::Refused(body),
        CommandReply::Unreachable { reason } => SetError::Unreachable(reason),
    }
}

/// Changes the active profile to the one named in `data`. On `Ok` the
/// command is to be sent and its reply handed to `proceed`.
pub fn set(
    _auth: &Auth<OperatorUser>,
    graph: &AccessGraph,
    aacp: &mut ActiveAccessProfile,
    data: &ActiveAccessProfileModel,
) -> (r: Result<Command, ApiError>)
    ensures
        match first_where(graph@.access_profiles, profile_named(data.name@)) {
            None => {
                &&& final(aacp)@ == old(aacp)@
                &&& r matches Err(ApiError::NotFound(m))
                &&& m@ == "Access profile "@ + data.name@ + " not found."@
            },
            Some(profile) => {
                &&& final(aacp)@ == old(aacp)@.spec_set(profile).0
                &&& match old(aacp)@.spec_set(profile).1 {
                    Ok(command) => r == Ok::<Command, ApiError>(command),
                    Err(e) => {
                        &&& r matches Err(ApiError::Internal(m))
                        &&& m@ == e.spec_message()
                    },
                }
            },
        },
{
    let ap = match graph.find_access_profile(data.name.as_str()) {
        Some(ap) => ap,
        None => {
            return Err(
                ApiError::NotFound(
                    String::from_str("Access profile ").concat(data.name.as_str()).concat(
                        " not found.",
                    ),
                ),
            );
        },
    };
    match aacp.set(ap) {
        Ok(command) => Ok(command),
        Err(e) => Err(ApiError::Internal(e.message())),
    }
}

/// Takes the reply to the command that is out. `Ok(Some(command))` asks for
/// the next command to be sent, `Ok(None)` says that the change is complete.
pub fn proceed(aacp: &mut ActiveAccessProfile, reply: CommandReply) -> (r: Result<
    Option<Command>,
    ApiError,
>)
    ensures
        final(aacp)@ == old(aacp)@.spec_acknowledge(reply).0,
        match old(aacp)@.spec_acknowledge(reply).1 {
            SetProgress::Send(command) => r == Ok::<Option<Command>, ApiError>(Some(command)),
            SetProgress::Done => r == Ok::<Option<Command>, ApiError>(None),
            SetProgress::Failed(e) => {
                &&& r matches Err(ApiError::Internal(m))
                &&& m@ == e.spec_message()
            },
        },
{
    match aacp.acknowledge(reply) {
        SetProgress::Send(command) => Ok(Some(command)),
        SetProgress::Done => Ok(None),
        SetProgress::Failed(e) => Err(ApiError::Internal(e.message())),
    }
}

/// The name of the active profile.
pub fn get(_auth: &Auth<OperatorUser>, aacp: &ActiveAccessProfile) -> (r: ActiveAccessProfileModel)
    ensures
        r.name@ == aacp@.name,
{
    ActiveAccessProfileModel { name: aacp.get() }
}

} // verus!

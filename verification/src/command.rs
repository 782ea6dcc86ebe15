//! The commands sent to the door controller and what it answers.

use vstd::prelude::*;
use vstd::string::*;

verus! {

/// One command for the door controller. Every part is optional; the parts
/// that are set are carried out together.
#[derive(Debug, PartialEq, Eq)]
pub struct Command {
    /// Open the lock for this many milliseconds.
    pub open_for_ms: Option<u32>,
    /// The text to show.
    pub display_text: Option<String>,
    /// Show the text for this many milliseconds only.
    pub display_text_for_ms: Option<u32>,
    /// The colour to light, as red, green and blue.
    pub color: Option<(u8, u8, u8)>,
    /// Light the colour for this many milliseconds only.
    pub color_for_ms: Option<u32>,
    /// The number of the sound to play.
    pub play_sound: Option<u32>,
    /// Close the lock (`true`), or hold it open until it is closed again
    /// (`false`).
    pub close: Option<bool>,
}

/// What came back for one command.
#[derive(Debug, PartialEq, Eq)]
pub enum CommandReply {
    /// The controller answered with this HTTP status; `body` is the text of
    /// the answer, where it could be read.
    Answered { status: u16, body: Option<String> },
    /// The command did not reach the controller; `reason` says why.
    Unreachable { reason: String },
}

/// The status by which the controller acknowledges a command.
pub const NO_CONTENT: u16 = 204;

impl Command {
    /// The command that asks for nothing.
    pub open spec fn spec_new() -> Command {
        Command {
            open_for_ms: None,
            display_text: None,
            display_text_for_ms: None,
            color: None,
            color_for_ms: None,
            play_sound: None,
            close: None,
        }
    }

    pub fn new() -> (c: Command)
        ensures
            c == Command::spec_new(),
    {
        Command {
            open_for_ms: None,
            display_text: None,
            display_text_for_ms: None,
            color: None,
            color_for_ms: None,
            play_sound: None,
            close: None,
        }
    }

    /// Also hold the lock open.
    pub fn open(self) -> (c: Command)
        ensures
            c == (Command { close: Some(false), ..self }),
    {
        Command { close: Some(false), ..self }
    }

    /// Also open the lock for `ms` milliseconds.
    pub fn open_for(self, ms: u32) -> (c: Command)
        ensures
            c == (Command { open_for_ms: Some(ms), ..self }),
    {
        Command { open_for_ms: Some(ms), ..self }
    }

    /// Also close the lock.
    pub fn close(self) -> (c: Command)
        ensures
            c == (Command { close: Some(true), ..self }),
    {
        Command { close: Some(true), ..self }
    }

    /// Also show `text`, until another text replaces it.
    pub fn display_text(self, text: String) -> (c: Command)
        ensures
            c == (Command { display_text: Some(text), ..self }),
    {
        Command { display_text: Some(text), ..self }
    }

    /// Also show `text` for `ms` milliseconds.
    pub fn display_text_for(self, text: String, ms: u32) -> (c: Command)
        ensures
            c == (Command { display_text: Some(text), display_text_for_ms: Some(ms), ..self }),
    {
        Command { display_text: Some(text), display_text_for_ms: Some(ms), ..self }
    }

    /// Also light the colour, until another colour replaces it.
    pub fn set_color(self, r: u8, g: u8, b: u8) -> (c: Command)
        ensures
            c == (Command { color: Some((r, g, b)), ..self }),
    {
        Command { color: Some((r, g, b)), ..self }
    }

    /// Also light the colour for `ms` milliseconds.
    pub fn set_color_for(self, r: u8, g: u8, b: u8, ms: u32) -> (c: Command)
        ensures
            c == (Command { color: Some((r, g, b)), color_for_ms: Some(ms), ..self }),
    {
        Command { color: Some((r, g, b)), color_for_ms: Some(ms), ..self }
    }

    /// Also play the sound number `sound`.
    pub fn play_sound(self, sound: u32) -> (c: Command)
        ensures
            c == (Command { play_sound: Some(sound), ..self }),
    {
        Command { play_sound: Some(sound), ..self }
    }
}

impl Clone for Command {
    fn clone(&self) -> (c: Self)
        ensures
            c == *self,
    {
        let display_text = match &self.display_text {
            Some(t) => Some(t.clone()),
            None => None,
        };
        Command {
            open_for_ms: self.open_for_ms,
            display_text,
            display_text_for_ms: self.display_text_for_ms,
            color: self.color,
            color_for_ms: self.color_for_ms,
            play_sound: self.play_sound,
            close: self.close,
        }
    }
}

impl CommandReply {
    /// The controller acknowledged the command.
    pub open spec fn acknowledged(&self) -> bool {
        self matches CommandReply::Answered { status, .. } && status == NO_CONTENT
    }

    /// What the backend says of a reply that is no acknowledgement, after
    /// `prefix`: the body of the answer, `garbage` where it could not be
    /// read, or the reason why the controller was not reached.
    pub open spec fn complaint(&self) -> Seq<char> {
        match self {
            CommandReply::Answered { body: Some(text), .. } => text@,
            CommandReply::Answered { body: None, .. } => "garbage"@,
            CommandReply::Unreachable { reason } => reason@,
        }
    }

    /// Whether the controller acknowledged the command.
    pub fn is_acknowledged(&self) -> (b: bool)
        ensures
            b == self.acknowledged(),
    {
        match self {
            CommandReply::Answered { status, .. } => *status == NO_CONTENT,
            CommandReply::Unreachable { .. } => false,
        }
    }

    /// `prefix` followed by what the reply complains of.
    pub fn complain(&self, prefix: &str) -> (m: String)
        ensures
            m@ == prefix@ + self.complaint(),
    {
        let start = String::from_str(prefix);
        match self {
            CommandReply::Answered { body: Some(text), .. } => start.concat(text.as_str()),
            CommandReply::Answered { body: None, .. } => start.concat("garbage"),
            CommandReply::Unreachable { reason } => start.concat(reason.as_str()),
        }
    }
}

} // verus!

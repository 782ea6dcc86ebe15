//! The state of the hardware, part by part.

use vstd::prelude::*;
use vstd::string::*;

use crate::guards::auth::{Auth, OperatorUser};

verus! {

/// How one part of the hardware is doing.
#[derive(Debug, PartialEq, Eq)]
pub enum StatusEntry {
    Fine,
    Warn { message: String },
    Fail { message: String },
}

/// How the hardware is doing.
#[derive(Debug, PartialEq, Eq)]
pub struct Status {
    pub controller: StatusEntry,
    pub lock: StatusEntry,
    pub rfid: StatusEntry,
    pub led: StatusEntry,
    pub speaker: StatusEntry,
    pub wifi: StatusEntry,
}

/// `GET /status`: the report is a fixed one, whatever the hardware does.
pub fn get(_auth: &Auth<OperatorUser>) -> (r: Status)
    ensures
        r.controller is Fine,
        r.lock matches StatusEntry::Warn { message } && message@ == "something is wrong"@,
        r.rfid is Fine,
        r.led matches StatusEntry::Fail { message } && message@ == "down"@,
        r.speaker is Fine,
        r.wifi is Fine,
{
    Status {
        controller: StatusEntry::Fine,
        lock: StatusEntry::Warn { message: String::from_str("something is wrong") },
        rfid: StatusEntry::Fine,
        led: StatusEntry::Fail { message: String::from_str("down") },
        speaker: StatusEntry::Fine,
        wifi: StatusEntry::Fine,
    }
}

} // verus!

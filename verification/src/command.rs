//! What comes back from a command that the surrounding program runs.

use vstd::prelude::*;

verus! {

/// What came back from a command.
#[derive(Debug)]
pub enum CommandReply {
    /// The command could not be run, for this reason.
    NotStarted(String),
    /// The command ran to its end.
    Exited {
        success: bool,
        /// The exit status as text.
        status: String,
        stdout: Vec<u8>,
        stderr: Vec<u8>,
    },
}

} // verus!

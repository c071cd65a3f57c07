//! Errors of the MakeMKV session and of the web front end.

use vstd::prelude::*;

verus! {

/// What can go wrong while talking to MakeMKV.
#[derive(Debug, Clone)]
pub enum MakeMkvError {
    /// A failure reported with a message.
    MakeMkv(String),
    /// A command or state number that the protocol does not define.
    InvalidCommand(String),
    /// A response that does not have the expected shape.
    InvalidResponse(String),
    /// No disc drive is known.
    DriveNotDetected,
    /// A drive update that could not be parsed.
    DriveInfo(String),
}

/// What can go wrong in the web front end's handling of a request.
#[derive(Debug, Clone)]
pub enum RippaError {
    /// MakeMKV reported an error.
    MakeMkv(MakeMkvError),
    /// A task is already using MakeMKV.
    MakeMkvAlreadyRunning,
    /// No task is using MakeMKV.
    MakeMkvNotRunning,
    /// The title selection does not fit the loaded titles.
    InvalidTitle,
}

} // verus!

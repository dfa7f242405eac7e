//! The conditions that end a session. Every one of them is fatal: nothing is
//! retried, and the session that met one takes no further step.

use vstd::prelude::*;
use vstd::string::StringExecFns;

verus! {

/// Why a session ended.
#[derive(Debug, Clone, PartialEq, Eq)]
pub enum EntrError {
    /// Standard input could not be read.
    ReadInputFailed,
    /// Standard input named no path to watch.
    NoFilesToWatch,
    /// The monitor refused the path that the variant carries.
    WatchRegistrationFailed(String),
    /// The monitor delivered an error in place of an event.
    EventObservationFailed,
    /// The channel that delivers the events was closed.
    WatchChannelBroken,
    /// The screen could not be cleared.
    ClearScreenFailed,
    /// The executable that the variant carries could not be started.
    UtilitySpawnFailed(String),
}

/// An `EntrError` as contracts see it: the texts are sequences of characters.
pub enum Failure {
    ReadInputFailed,
    NoFilesToWatch,
    WatchRegistrationFailed(Seq<char>),
    EventObservationFailed,
    WatchChannelBroken,
    ClearScreenFailed,
    UtilitySpawnFailed(Seq<char>),
}

impl View for EntrError {
    type V = Failure;

    open spec fn view(&self) -> Failure {
        match self {
            EntrError::ReadInputFailed => Failure::ReadInputFailed,
            EntrError::NoFilesToWatch => Failure::NoFilesToWatch,
            EntrError::WatchRegistrationFailed(path) => Failure::WatchRegistrationFailed(path@),
            EntrError::EventObservationFailed => Failure::EventObservationFailed,
            EntrError::WatchChannelBroken => Failure::WatchChannelBroken,
            EntrError::ClearScreenFailed => Failure::ClearScreenFailed,
            EntrError::UtilitySpawnFailed(program) => Failure::UtilitySpawnFailed(program@),
        }
    }
}

/// The line that describes a failure to the user.
pub open spec fn message_of(failure: Failure) -> Seq<char> {
    match failure {
        Failure::ReadInputFailed => "Failed to read files to watch"@,
        Failure::NoFilesToWatch => "No files or dirs to watch"@,
        Failure::WatchRegistrationFailed(path) => "Failed to watchs "@ + path,
        Failure::EventObservationFailed => "Could not determine event"@,
        Failure::WatchChannelBroken => "Error watching files"@,
        Failure::ClearScreenFailed => "Failed to clear terminal screen"@,
        Failure::UtilitySpawnFailed(program) => program
            + " Failed to run the provided utility"@,
    }
}

impl EntrError {
    /// The line that describes this failure to the user: what was being done
    /// when it happened, with the path or the executable where one is known.
    pub fn message(&self) -> (text: String)
        ensures
            text@ == message_of(self@),
    {
        match self {
            EntrError::ReadInputFailed => String::from_str("Failed to read files to watch"),
            EntrError::NoFilesToWatch => String::from_str("No files or dirs to watch"),
            EntrError::WatchRegistrationFailed(path) => {
                String::from_str("Failed to watchs ").concat(path.as_str())
            },
            EntrError::EventObservationFailed => String::from_str("Could not determine event"),
            EntrError::WatchChannelBroken => String::from_str("Error watching files"),
            EntrError::ClearScreenFailed => String::from_str("Failed to clear terminal screen"),
            EntrError::UtilitySpawnFailed(program) => {
                program.clone().concat(" Failed to run the provided utility")
            },
        }
    }
}

} // verus!

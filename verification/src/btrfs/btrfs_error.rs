use vstd::prelude::*;
use crate::command_runner::CommandError;
use vstd::string::StringExecFns;

verus! {

/// Why a btrfs scrub could not be run or read.
#[derive(Debug, Clone)]
pub enum BtrfsError {
    /// A btrfs or findmnt command failed.
    CommandExecutionError(CommandError),
    /// The worker that ran the scrub did not finish; the message says why.
    SpawnError(String),
    ScrubError(String),
    /// The command's output was not in the expected shape.
    FormatError(String),
    /// Another scrub holds the scrub slot.
    AlreadyRunningError(),
}

impl BtrfsError {
    pub open spec fn spec_message(&self) -> Seq<char> {
        match self {
            BtrfsError::CommandExecutionError(e) => e.spec_message(),
            BtrfsError::SpawnError(m) => m@,
            BtrfsError::ScrubError(m) => "Unable to run btrfs scrub: "@ + m@,
            BtrfsError::FormatError(m) => "Unable to parse btrfs output: "@ + m@,
            BtrfsError::AlreadyRunningError() => "A btrfs scrub is already in progress"@,
        }
    }

    /// The error's message.
    pub fn message(&self) -> (s: String)
        ensures
            s@ == self.spec_message(),
    {
        match self {
            BtrfsError::CommandExecutionError(e) => e.message(),
            BtrfsError::SpawnError(m) => m.clone(),
            BtrfsError::ScrubError(m) => {
                let mut s = String::from_str("Unable to run btrfs scrub: ");
                s.append(m.as_str());
                s
            },
            BtrfsError::FormatError(m) => {
                let mut s = String::from_str("Unable to parse btrfs output: ");
                s.append(m.as_str());
                s
            },
            BtrfsError::AlreadyRunningError() => String::from_str(
                "A btrfs scrub is already in progress",
            ),
        }
    }
}

} // verus!

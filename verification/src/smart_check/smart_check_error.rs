use vstd::prelude::*;
use crate::command_runner::CommandError;
use vstd::string::StringExecFns;

verus! {

/// Why a SMART check or self-test could not be carried out.
#[derive(Debug, Clone)]
pub enum SmartCheckError {
    CommandExecutionError(CommandError),
    ScanError(String),
    FormatError(String),
    /// Another self-test run holds the self-test slot.
    AlreadyRunningError(),
    /// A launched self-test gave no result: the drive's name and why.
    TestIncomplete(String, String),
    /// The worker that ran the self-tests did not finish; the message says why.
    SpawnError(String),
}

impl SmartCheckError {
    pub open spec fn spec_message(&self) -> Seq<char> {
        match self {
            SmartCheckError::CommandExecutionError(e) => e.spec_message(),
            SmartCheckError::ScanError(m) => "Unable to scan for drives: "@ + m@,
            SmartCheckError::FormatError(m) => "Unable to parse smartctl output: "@ + m@,
            SmartCheckError::AlreadyRunningError() => "A SMART self-test is already in progress"@,
            SmartCheckError::TestIncomplete(name, why) => "Self-test on \""@ + name@
                + "\" did not complete: "@ + why@,
            SmartCheckError::SpawnError(m) => m@,
        }
    }

    /// The error's message.
    pub fn message(&self) -> (s: String)
        ensures
            s@ == self.spec_message(),
    {
        match self {
            SmartCheckError::CommandExecutionError(e) => e.message(),
            SmartCheckError::ScanError(m) => {
                let mut s = String::from_str("Unable to scan for drives: ");
                s.append(m.as_str());
                s
            },
            SmartCheckError::FormatError(m) => {
                let mut s = String::from_str("Unable to parse smartctl output: ");
                s.append(m.as_str());
                s
            },
            SmartCheckError::AlreadyRunningError() => String::from_str(
                "A SMART self-test is already in progress",
            ),
            SmartCheckError::TestIncomplete(name, why) => {
                let mut s = String::from_str("Self-test on \"");
                s.append(name.as_str());
                s.append("\" did not complete: ");
                s.append(why.as_str());
                s
            },
            SmartCheckError::SpawnError(m) => m.clone(),
        }
    }
}

} // verus!

use vstd::prelude::*;
use crate::command_runner::CommandError;
use vstd::string::StringExecFns;

verus! {

/// Why a trim run failed as a whole.
#[derive(Debug, Clone)]
pub enum FstrimError {
    CommandExecutionError(CommandError),
    /// The worker that ran fstrim did not finish; the message says why.
    SpawnError(String),
    FormatError(String),
}

impl FstrimError {
    pub open spec fn spec_message(&self) -> Seq<char> {
        match self {
            FstrimError::CommandExecutionError(e) => e.spec_message(),
            FstrimError::SpawnError(m) => m@,
            FstrimError::FormatError(m) => "Unable to parse fstrim output: "@ + m@,
        }
    }

    pub fn message(&self) -> (s: String)
        ensures
            s@ == self.spec_message(),
    {
        match self {
            FstrimError::CommandExecutionError(e) => e.message(),
            FstrimError::SpawnError(m) => m.clone(),
            FstrimError::FormatError(m) => {
                let mut s = String::from_str("Unable to parse fstrim output: ");
                s.append(m.as_str());
                s
            },
        }
    }
}

} // verus!

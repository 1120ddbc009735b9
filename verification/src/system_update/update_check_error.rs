use vstd::prelude::*;
use crate::command_runner::{from_utf8_lossy, utf8_lossy};
use crate::strings::{string_from, to_chars, trim, trimmed};
use vstd::string::StringExecFns;

verus! {

#[derive(Debug)]
pub enum UpdateCheckError {
    /// A command failed: the command line and its error output.
    CommandExecutionError(String, String),
}

impl UpdateCheckError {
    pub open spec fn spec_message(&self) -> Seq<char> {
        match self {
            UpdateCheckError::CommandExecutionError(c, m) => "Failed to execute \""@ + c@
                + "\" command: "@ + m@,
        }
    }

    pub fn message(&self) -> (s: String)
        ensures
            s@ == self.spec_message(),
    {
        match self {
            UpdateCheckError::CommandExecutionError(c, m) => {
                let mut s = String::from_str("Failed to execute \"");
                s.append(c.as_str());
                s.append("\" command: ");
                s.append(m.as_str());
                s
            },
        }
    }
}

/// The error of an xbps command that exited with a failure: the command line and its
/// error output as text, trimmed.
pub fn failed_command(command: &str, stderr: &[u8]) -> (e: UpdateCheckError)
    ensures
        e matches UpdateCheckError::CommandExecutionError(c, m) && c@ == command@ && m@ == trim(
            utf8_lossy(stderr@),
        ),
{
    let text = from_utf8_lossy(stderr);
    let v = to_chars(text.as_str());
    let t = trimmed(&v);
    UpdateCheckError::CommandExecutionError(String::from_str(command), string_from(&t))
}

} // verus!

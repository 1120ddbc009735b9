use vstd::prelude::*;
use vstd::string::StringExecFns;

verus! {

/// The outcome of a short self-test on one drive.
#[derive(Debug)]
pub struct SmartCheckResult {
    pub drive_name: String,
    pub power_on_time: u64,
    pub passed: bool,
}

/// Why a short self-test on one drive gave no outcome: the drive's name and the detail.
#[derive(Debug)]
pub enum SmartCheckFailure {
    CommandFailed(String, String),
    FailedToStart(String, String),
    TestNotLogged(String, String),
    DeviceUnavailable(String, String),
}

impl SmartCheckFailure {
    pub open spec fn spec_message(&self) -> Seq<char> {
        match self {
            SmartCheckFailure::CommandFailed(d, m) => "Failed to launch self-test on \""@ + d@
                + "\": "@ + m@,
            SmartCheckFailure::FailedToStart(d, m) => "Self-test on \""@ + d@
                + "\" did not start: "@ + m@,
            SmartCheckFailure::TestNotLogged(d, m) => "Self-test result for \""@ + d@
                + "\" was not logged: "@ + m@,
            SmartCheckFailure::DeviceUnavailable(d, m) => "Device \""@ + d@ + "\" is unavailable: "@
                + m@,
        }
    }

    /// The failure's message.
    pub fn message(&self) -> (s: String)
        ensures
            s@ == self.spec_message(),
    {
        let (mut s, d, m, tail) = match self {
            SmartCheckFailure::CommandFailed(d, m) => (
                String::from_str("Failed to launch self-test on \""),
                d,
                m,
                "\": ",
            ),
            SmartCheckFailure::FailedToStart(d, m) => (
                String::from_str("Self-test on \""),
                d,
                m,
                "\" did not start: ",
            ),
            SmartCheckFailure::TestNotLogged(d, m) => (
                String::from_str("Self-test result for \""),
                d,
                m,
                "\" was not logged: ",
            ),
            SmartCheckFailure::DeviceUnavailable(d, m) => (
                String::from_str("Device \""),
                d,
                m,
                "\" is unavailable: ",
            ),
        };
        s.append(d.as_str());
        s.append(tail);
        s.append(m.as_str());
        s
    }
}

impl SmartCheckResult {
    pub open spec fn spec_text(&self) -> Seq<char> {
        self.drive_name@ + " - "@ + if self.passed {
            "passed"@
        } else {
            "failed"@
        }
    }

    /// `<drive> - passed` or `<drive> - failed`.
    pub fn render(&self) -> (s: String)
        ensures
            s@ == self.spec_text(),
    {
        let mut s = self.drive_name.clone();
        s.append(" - ");
        s.append(if self.passed {
            "passed"
        } else {
            "failed"
        });
        s
    }
}

} // verus!

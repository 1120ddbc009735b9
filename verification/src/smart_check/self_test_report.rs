use vstd::prelude::*;
use crate::decimal::{decimal, push_decimal};
use crate::smart_check::smart_check_error::SmartCheckError;
use vstd::string::StringExecFns;

verus! {

/// Result of a single drive's self-test, distilled to what gets reported.
#[derive(Debug)]
pub struct SelfTestOutcome {
    pub passed: bool,
    pub status: String,
    pub power_on_hours: u64,
}

/// Outcome of running a self-test on every drive. Each entry keeps its device name so a
/// failed test (or one that never logged a result) is still attributable to a drive.
pub struct SelfTestReport {
    pub results: Vec<(String, Result<SelfTestOutcome, SmartCheckError>)>,
}

impl SelfTestOutcome {
    pub open spec fn spec_text(&self) -> Seq<char> {
        (if self.passed {
            "✅ Passed"@
        } else {
            "❌ FAILED"@
        }) + " · "@ + self.status@ + " ("@ + decimal(self.power_on_hours as nat) + " h)"@
    }

    /// `<badge> · <status> (<hours> h)`.
    pub fn render(&self) -> (s: String)
        ensures
            s@ == self.spec_text(),
    {
        let mut s = String::from_str(
            if self.passed {
                "✅ Passed"
            } else {
                "❌ FAILED"
            },
        );
        s.append(" · ");
        s.append(self.status.as_str());
        s.append(" (");
        push_decimal(&mut s, self.power_on_hours as u128);
        s.append(" h)");
        s
    }
}

pub open spec fn entry_text(
    index: nat,
    name: Seq<char>,
    result: Result<SelfTestOutcome, SmartCheckError>,
) -> Seq<char> {
    let head = decimal(index + 1) + ". <b>"@ + name + "</b>\n"@;
    match result {
        Ok(o) => head + o.spec_text() + "\n"@ + "\n"@,
        Err(e) => head + "Failed: "@ + e.spec_message() + "\n"@ + "\n"@,
    }
}

pub open spec fn entries_text(r: Seq<(String, Result<SelfTestOutcome, SmartCheckError>)>, n: nat) -> Seq<char>
    decreases n,
{
    if n == 0 {
        Seq::empty()
    } else {
        entries_text(r, (n - 1) as nat) + entry_text((n - 1) as nat, r[n - 1].0@, r[n - 1].1)
    }
}

pub open spec fn spec_report_text(r: Seq<(String, Result<SelfTestOutcome, SmartCheckError>)>) -> Seq<char> {
    if r.len() == 0 {
        "No drives found\n"@
    } else {
        entries_text(r, r.len())
    }
}

impl SelfTestReport {
    pub fn is_empty(&self) -> (b: bool)
        ensures
            b == (self.results@.len() == 0),
    {
        self.results.len() == 0
    }

    pub fn len(&self) -> (n: usize)
        ensures
            n == self.results@.len(),
    {
        self.results.len()
    }

    /// The report as it is sent: one numbered block per drive.
    pub fn render(&self) -> (s: String)
        ensures
            s@ == spec_report_text(self.results@),
    {
        let mut s = String::new();
        if self.is_empty() {
            s.append("No drives found\n");
            return s;
        }
        let mut i: usize = 0;
        while i < self.results.len()
            invariant
                i <= self.results@.len(),
                s@ == entries_text(self.results@, i as nat),
            decreases self.results@.len() - i,
        {
            push_decimal(&mut s, (i as u128) + 1);
            s.append(". <b>");
            s.append(self.results[i].0.as_str());
            s.append("</b>\n");
            match &self.results[i].1 {
                Ok(outcome) => {
                    let text = outcome.render();
                    s.append(text.as_str());
                },
                Err(err) => {
                    s.append("Failed: ");
                    let text = err.message();
                    s.append(text.as_str());
                },
            }
            s.append("\n");
            s.append("\n");
            i += 1;
            assert(s@ =~= entries_text(self.results@, i as nat));
        }
        s
    }
}

} // verus!

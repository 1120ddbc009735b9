//! The texts the bot answers with.

use vstd::prelude::*;
use crate::btrfs::scrub_report::{spec_report_text as scrub_text, totals_fit, ScrubReport};
use crate::decimal::{decimal, push_decimal};
use crate::smart_check::self_test_report::{spec_report_text as self_test_text, SelfTestReport};
use crate::btrfs::btrfs_error::BtrfsError;
use crate::smart_check::drives::Drives;
use crate::smart_check::smart_check_error::SmartCheckError;
use crate::system_update::available_package_update::AvailablePackageUpdate;
use crate::system_update::update_check_error::UpdateCheckError;
use vstd::string::StringExecFns;

verus! {

/// Each update's line, joined with newlines.
pub open spec fn update_lines(u: Seq<AvailablePackageUpdate>, n: nat) -> Seq<char>
    decreases n,
{
    if n == 0 {
        Seq::empty()
    } else if n == 1 {
        u[0].spec_text()
    } else {
        update_lines(u, (n - 1) as nat) + "\n"@ + u[n - 1].spec_text()
    }
}

pub open spec fn spec_updates_text(u: Seq<AvailablePackageUpdate>) -> Seq<char> {
    if u.len() == 0 {
        "System is up to date"@
    } else {
        "<b>Available updates: "@ + decimal(u.len()) + "</b>\n\n"@ + update_lines(u, u.len())
    }
}

/// The answer to `/updates` when the check succeeded.
pub fn updates_text(updates: &Vec<AvailablePackageUpdate>) -> (s: String)
    ensures
        s@ == spec_updates_text(updates@),
{
    if updates.len() == 0 {
        return String::from_str("System is up to date");
    }
    let mut s = String::from_str("<b>Available updates: ");
    push_decimal(&mut s, updates.len() as u128);
    s.append("</b>\n\n");
    let ghost head = s@;
    let mut i: usize = 0;
    while i < updates.len()
        invariant
            i <= updates@.len(),
            s@ == head + update_lines(updates@, i as nat),
        decreases updates@.len() - i,
    {
        if i > 0 {
            s.append("\n");
        }
        let line = updates[i].render();
        s.append(line.as_str());
        i += 1;
        assert(s@ =~= head + update_lines(updates@, i as nat));
    }
    s
}

pub open spec fn spec_self_test_reply(label: Seq<char>, report: Seq<char>) -> Seq<char> {
    "<b>SMART "@ + label + " self-test result:</b>\n\n"@ + report
}

/// The message that reports a finished self-test run.
pub fn self_test_reply(label: &str, report: &SelfTestReport) -> (s: String)
    ensures
        s@ == spec_self_test_reply(label@, self_test_text(report.results@)),
{
    let mut s = String::from_str("<b>SMART ");
    s.append(label);
    s.append(" self-test result:</b>\n\n");
    let text = report.render();
    s.append(text.as_str());
    s
}

/// The message that reports a finished scrub run.
pub fn scrub_reply(report: &ScrubReport) -> (s: String)
    requires
        totals_fit(report.results@),
    ensures
        s@ == "<b>Btrfs scrub result:</b>\n\n"@ + scrub_text(report.results@),
{
    let mut s = String::from_str("<b>Btrfs scrub result:</b>\n\n");
    let text = report.render();
    s.append(text.as_str());
    s
}

pub open spec fn spec_updates_reply(r: Result<Vec<AvailablePackageUpdate>, UpdateCheckError>) -> Seq<
    char,
> {
    match r {
        Ok(u) => spec_updates_text(u@),
        Err(e) => "Failed to check updates: "@ + e.spec_message(),
    }
}

/// The answer to `/updates`: the pending updates, or why they could not be checked.
pub fn updates_reply(r: &Result<Vec<AvailablePackageUpdate>, UpdateCheckError>) -> (s: String)
    ensures
        s@ == spec_updates_reply(*r),
{
    match r {
        Ok(updates) => updates_text(updates),
        Err(e) => {
            let mut s = String::from_str("Failed to check updates: ");
            let m = e.message();
            s.append(m.as_str());
            s
        },
    }
}

pub open spec fn spec_drives_reply(r: Result<Drives, SmartCheckError>) -> Seq<char> {
    match r {
        Ok(d) => d.spec_text(),
        Err(e) => "Failed to prepare smart check: "@ + e.spec_message(),
    }
}

/// The answer to `/smart_check`: every drive's SMART summary, or why the drives could not
/// be listed.
pub fn drives_reply(r: &Result<Drives, SmartCheckError>) -> (s: String)
    ensures
        s@ == spec_drives_reply(*r),
{
    match r {
        Ok(drives) => drives.render(),
        Err(e) => {
            let mut s = String::from_str("Failed to prepare smart check: ");
            let m = e.message();
            s.append(m.as_str());
            s
        },
    }
}

pub open spec fn spec_self_test_refusal(label: Seq<char>, e: SmartCheckError) -> Seq<char> {
    match e {
        SmartCheckError::AlreadyRunningError() => "⏳ A SMART self-test is already in progress"@,
        _ => "Failed to start "@ + label + " self-test: "@ + e.spec_message(),
    }
}

/// The answer when a self-test run could not take its slot: busy, or why it failed.
pub fn self_test_refusal(label: &str, e: &SmartCheckError) -> (s: String)
    ensures
        s@ == spec_self_test_refusal(label@, *e),
{
    match e {
        SmartCheckError::AlreadyRunningError() => String::from_str(
            "⏳ A SMART self-test is already in progress",
        ),
        _ => {
            let mut s = String::from_str("Failed to start ");
            s.append(label);
            s.append(" self-test: ");
            let m = e.message();
            s.append(m.as_str());
            s
        },
    }
}

pub open spec fn spec_self_test_started(label: Seq<char>) -> Seq<char> {
    "▶️ Started "@ + label + " SMART self-test on all drives. I'll report back when it finishes."@
}

/// The answer when a self-test run has begun.
pub fn self_test_started(label: &str) -> (s: String)
    ensures
        s@ == spec_self_test_started(label@),
{
    let mut s = String::from_str("▶️ Started ");
    s.append(label);
    s.append(" SMART self-test on all drives. I'll report back when it finishes.");
    s
}

pub open spec fn spec_self_test_outcome(label: Seq<char>, r: Result<SelfTestReport, SmartCheckError>) -> Seq<
    char,
> {
    match r {
        Ok(report) => spec_self_test_reply(label, self_test_text(report.results@)),
        Err(e) => "Failed to run "@ + label + " self-test: "@ + e.spec_message(),
    }
}

/// The message that closes a self-test run: its report, or why it failed.
pub fn self_test_outcome(label: &str, r: &Result<SelfTestReport, SmartCheckError>) -> (s: String)
    ensures
        s@ == spec_self_test_outcome(label@, *r),
{
    match r {
        Ok(report) => self_test_reply(label, report),
        Err(e) => {
            let mut s = String::from_str("Failed to run ");
            s.append(label);
            s.append(" self-test: ");
            let m = e.message();
            s.append(m.as_str());
            s
        },
    }
}

pub open spec fn spec_scrub_refusal(e: BtrfsError) -> Seq<char> {
    match e {
        BtrfsError::AlreadyRunningError() => "⏳ A btrfs scrub is already in progress"@,
        _ => "Failed to start scrub: "@ + e.spec_message(),
    }
}

/// The answer when a scrub could not take its slot: busy, or why it failed.
pub fn scrub_refusal(e: &BtrfsError) -> (s: String)
    ensures
        s@ == spec_scrub_refusal(*e),
{
    match e {
        BtrfsError::AlreadyRunningError() => String::from_str(
            "⏳ A btrfs scrub is already in progress",
        ),
        _ => {
            let mut s = String::from_str("Failed to start scrub: ");
            let m = e.message();
            s.append(m.as_str());
            s
        },
    }
}

/// The answer when a scrub has begun.
pub fn scrub_started() -> (s: String)
    ensures
        s@ == "▶️ Started btrfs scrub on all mounted filesystems. I'll report back when it finishes."@,
{
    String::from_str(
        "▶️ Started btrfs scrub on all mounted filesystems. I'll report back when it finishes.",
    )
}

pub open spec fn spec_scrub_outcome(r: Result<ScrubReport, BtrfsError>) -> Seq<char> {
    match r {
        Ok(report) => "<b>Btrfs scrub result:</b>\n\n"@ + scrub_text(report.results@),
        Err(e) => "Failed to run scrub: "@ + e.spec_message(),
    }
}

/// The message that closes a scrub run: its report, or why it failed.
pub fn scrub_outcome(r: &Result<ScrubReport, BtrfsError>) -> (s: String)
    requires
        r matches Ok(report) ==> totals_fit(report.results@),
    ensures
        s@ == spec_scrub_outcome(*r),
{
    match r {
        Ok(report) => scrub_reply(report),
        Err(e) => {
            let mut s = String::from_str("Failed to run scrub: ");
            let m = e.message();
            s.append(m.as_str());
            s
        },
    }
}

} // verus!

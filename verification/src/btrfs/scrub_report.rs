use vstd::prelude::*;
use crate::btrfs::btrfs_error::BtrfsError;
use crate::btrfs::scrub_result::{spec_render, ScrubResult};
use crate::decimal::{decimal, push_decimal};
use vstd::string::StringExecFns;

verus! {

/// Outcome of scrubbing every mounted btrfs filesystem. Each entry keeps its mount
/// point so a failed scrub is still attributable to a filesystem.
pub struct ScrubReport {
    pub results: Vec<(String, Result<ScrubResult, BtrfsError>)>,
}

/// The block of one entry: its number, the mount point in bold, then the result or
/// the failure, and a blank line.
pub open spec fn entry_text(
    index: nat,
    target: Seq<char>,
    result: Result<ScrubResult, BtrfsError>,
) -> Seq<char> {
    let head = decimal(index + 1) + ". <b>"@ + target + "</b>\n"@;
    match result {
        Ok(info) => head + spec_render(info@) + "\n"@ + "\n"@,
        Err(err) => head + "Failed: "@ + err.spec_message() + "\n"@ + "\n"@,
    }
}

/// The text of the first `n` entries.
pub open spec fn entries_text(r: Seq<(String, Result<ScrubResult, BtrfsError>)>, n: nat) -> Seq<
    char,
>
    decreases n,
{
    if n == 0 {
        Seq::empty()
    } else {
        entries_text(r, (n - 1) as nat) + entry_text(
            (n - 1) as nat,
            r[n - 1].0@,
            r[n - 1].1,
        )
    }
}

pub open spec fn spec_report_text(r: Seq<(String, Result<ScrubResult, BtrfsError>)>) -> Seq<char> {
    if r.len() == 0 {
        "No btrfs filesystems found\n"@
    } else {
        entries_text(r, r.len())
    }
}

/// Every successful result in `r` has a scrubbed byte total that fits in a `u64`.
pub open spec fn totals_fit(r: Seq<(String, Result<ScrubResult, BtrfsError>)>) -> bool {
    forall|i: int|
        0 <= i < r.len() ==> ((#[trigger] r[i]).1 matches Ok(x)
            ==> x.data_bytes_scrubbed + x.tree_bytes_scrubbed <= u64::MAX)
}

impl ScrubReport {
    pub fn is_empty(&self) -> (b: bool)
        ensures
            b == (self.results@.len() == 0),
    {
        self.results.len() == 0
    }

    pub fn len(&self) -> (n: usize)
        ensures
            n == self.results@.len(),
    {
        self.results.len()
    }

    /// The report as it is sent: one numbered block per filesystem.
    pub fn render(&self) -> (s: String)
        requires
            totals_fit(self.results@),
        ensures
            s@ == spec_report_text(self.results@),
    {
        let mut s = String::new();
        if self.is_empty() {
            s.append("No btrfs filesystems found\n");
            return s;
        }
        let mut i: usize = 0;
        while i < self.results.len()
            invariant
                i <= self.results@.len(),
                totals_fit(self.results@),
                s@ == entries_text(self.results@, i as nat),
            decreases self.results@.len() - i,
        {
            let ghost before = s@;
            push_decimal(&mut s, (i as u128) + 1);
            s.append(". <b>");
            s.append(self.results[i].0.as_str());
            s.append("</b>\n");
            match &self.results[i].1 {
                Ok(info) => {
                    assert(self.results@[i as int].1 matches Ok(x) && x == *info);
                    let text = info.render();
                    s.append(text.as_str());
                },
                Err(err) => {
                    s.append("Failed: ");
                    let text = err.message();
                    s.append(text.as_str());
                },
            }
            s.append("\n");
            s.append("\n");
            i += 1;
            assert(s@ =~= entries_text(self.results@, i as nat));
        }
        s
    }
}

} // verus!

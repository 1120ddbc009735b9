use vstd::prelude::*;
use crate::decimal::{decimal, push_decimal};
use crate::fstrim::trim_result::{spec_result_text, TrimResult, TrimResultView};
use crate::text_utils::{format_bytes, spec_format_bytes};
use vstd::string::StringExecFns;

verus! {

/// Outcome of trimming every mounted filesystem that supports discard.
///
/// Unlike the scrub and self-test reports there is no per-entry error: `fstrim -a` either
/// succeeds for every filesystem it selected or fails as a whole, and the caller reports that
/// failure. Filesystems without discard support — spinning disks, ntfs-3g (fuseblk) mounts,
/// which implement no `FITRIM` ioctl — are skipped by fstrim and never appear here.
pub struct TrimReport {
    pub results: Vec<TrimResult>,
}

pub open spec fn result_views(r: Seq<TrimResult>) -> Seq<TrimResultView> {
    r.map_values(|x: TrimResult| x@)
}

/// Sum of the bytes of the first `n` results.
pub open spec fn bytes_sum(r: Seq<TrimResultView>, n: nat) -> nat
    decreases n,
{
    if n == 0 {
        0
    } else {
        bytes_sum(r, (n - 1) as nat) + r[n - 1].bytes as nat
    }
}

pub open spec fn total(r: Seq<TrimResultView>) -> nat {
    bytes_sum(r, r.len())
}

/// A longer prefix sums to at least as many bytes.
pub proof fn lemma_bytes_sum_monotone(r: Seq<TrimResultView>, a: nat, b: nat)
    requires
        a <= b <= r.len(),
    ensures
        bytes_sum(r, a) <= bytes_sum(r, b),
    decreases b,
{
    if a < b {
        lemma_bytes_sum_monotone(r, a, (b - 1) as nat);
    }
}

pub open spec fn entries_text(r: Seq<TrimResultView>, n: nat) -> Seq<char>
    decreases n,
{
    if n == 0 {
        Seq::empty()
    } else {
        entries_text(r, (n - 1) as nat) + decimal(n) + ". <b>"@ + r[n - 1].mount_point
            + "</b>\n"@ + spec_result_text(r[n - 1]) + "\n"@ + "\n"@
    }
}

/// The report as it is sent.
pub open spec fn spec_report_text(r: Seq<TrimResultView>) -> Seq<char> {
    let empty_note = if r.len() == 0 {
        "No filesystems supporting discard found\n"@
    } else {
        Seq::empty()
    };
    let total_line = if r.len() > 1 {
        "<b>Total:</b> "@ + spec_format_bytes(total(r)) + "\n"@
    } else {
        Seq::empty()
    };
    empty_note + entries_text(r, r.len()) + total_line
}

impl TrimReport {
    pub fn is_empty(&self) -> (b: bool)
        ensures
            b == (self.results@.len() == 0),
    {
        self.results.len() == 0
    }

    pub fn len(&self) -> (n: usize)
        ensures
            n == self.results@.len(),
    {
        self.results.len()
    }

    /// Total bytes reported trimmed across every filesystem.
    pub fn total_bytes(&self) -> (t: u64)
        requires
            total(result_views(self.results@)) <= u64::MAX,
        ensures
            t == total(result_views(self.results@)),
    {
        let ghost rv = result_views(self.results@);
        let mut t: u64 = 0;
        let mut i: usize = 0;
        while i < self.results.len()
            invariant
                i <= self.results@.len(),
                rv == result_views(self.results@),
                total(rv) <= u64::MAX,
                t == bytes_sum(rv, i as nat),
            decreases self.results@.len() - i,
        {
            proof {
                lemma_bytes_sum_monotone(rv, (i + 1) as nat, rv.len());
            }
            assert(rv[i as int] == self.results@[i as int]@);
            t = t + self.results[i].bytes;
            i += 1;
        }
        t
    }

    /// The report as it is sent: one numbered block per filesystem, then the total when
    /// there are several.
    pub fn render(&self) -> (s: String)
        requires
            total(result_views(self.results@)) <= u64::MAX,
        ensures
            s@ == spec_report_text(result_views(self.results@)),
    {
        let ghost rv = result_views(self.results@);
        let mut s = String::new();
        if self.is_empty() {
            s.append("No filesystems supporting discard found\n");
        }
        let ghost start = s@;
        let mut i: usize = 0;
        while i < self.results.len()
            invariant
                i <= self.results@.len(),
                rv == result_views(self.results@),
                s@ == start + entries_text(rv, i as nat),
            decreases self.results@.len() - i,
        {
            assert(rv[i as int] == self.results@[i as int]@);
            push_decimal(&mut s, (i as u128) + 1);
            s.append(". <b>");
            s.append(self.results[i].mount_point.as_str());
            s.append("</b>\n");
            let text = self.results[i].render();
            s.append(text.as_str());
            s.append("\n");
            s.append("\n");
            i += 1;
            assert(s@ =~= start + entries_text(rv, i as nat));
        }
        if self.len() > 1 {
            s.append("<b>Total:</b> ");
            let t = format_bytes(self.total_bytes());
            s.append(t.as_str());
            s.append("\n");
        }
        assert(s@ =~= spec_report_text(rv));
        s
    }
}

} // verus!

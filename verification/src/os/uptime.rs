use vstd::prelude::*;
use crate::decimal::{decimal, push_decimal};
use crate::info_collector::linux_os_info_collector::spec_uptime_text;
use vstd::string::StringExecFns;

verus! {

/// Time since boot in days, hours and minutes.
#[derive(Debug, Clone, Copy, PartialEq, Eq, Structural)]
pub struct Uptime {
    pub days: u64,
    pub hours: u64,
    pub minutes: u64,
}

impl Uptime {
    /// The uptime after `uptime_seconds` whole seconds since boot, in days, hours and
    /// minutes; `None` when the time since boot could not be read.
    pub fn collect(uptime_seconds: Option<u64>) -> (u: Option<Uptime>)
        ensures
            u is Some <==> uptime_seconds is Some,
            uptime_seconds matches Some(s) ==> u matches Some(x) && x.days == s / 60 / 1440
                && x.hours == (s / 60) % 1440 / 60 && x.minutes == (s / 60) % 60,
    {
        match uptime_seconds {
            Some(seconds) => {
                let total_minutes = seconds / 60;
                Some(
                    Uptime {
                        days: total_minutes / 1440,
                        hours: (total_minutes % 1440) / 60,
                        minutes: total_minutes % 60,
                    },
                )
            },
            None => None,
        }
    }

    pub open spec fn spec_text(&self) -> Seq<char> {
        if self.days == 0 && self.hours == 0 {
            decimal(self.minutes as nat) + " mins"@
        } else if self.days == 0 {
            decimal(self.hours as nat) + " hours, "@ + decimal(self.minutes as nat) + " mins"@
        } else {
            decimal(self.days as nat) + " days, "@ + decimal(self.hours as nat) + " hours, "@
                + decimal(self.minutes as nat) + " mins"@
        }
    }

    /// `<m> mins`, `<h> hours, <m> mins` or `<d> days, <h> hours, <m> mins`.
    pub fn render(&self) -> (s: String)
        ensures
            s@ == self.spec_text(),
    {
        let mut s = String::new();
        if self.days == 0 && self.hours == 0 {
            push_decimal(&mut s, self.minutes as u128);
            s.append(" mins");
        } else if self.days == 0 {
            push_decimal(&mut s, self.hours as u128);
            s.append(" hours, ");
            push_decimal(&mut s, self.minutes as u128);
            s.append(" mins");
        } else {
            push_decimal(&mut s, self.days as u128);
            s.append(" days, ");
            push_decimal(&mut s, self.hours as u128);
            s.append(" hours, ");
            push_decimal(&mut s, self.minutes as u128);
            s.append(" mins");
        }
        s
    }
}

/// The uptime line of the OS summary and that of an `Uptime` read from the same number of
/// seconds say the same.
pub proof fn lemma_uptime_text_agrees(seconds: u64)
    ensures
        ({
            let m = seconds / 60;
            let u = Uptime { days: m / 1440, hours: m % 1440 / 60, minutes: m % 60 };
            u.spec_text() == spec_uptime_text(m as nat)
        }),
{
}

} // verus!

use vstd::prelude::*;
use crate::decimal::push_decimal;
use crate::info_collector::linux_os_info_collector::spec_age_text;
use vstd::string::StringExecFns;

verus! {

/// How long ago the system was installed, in years of 365 days, months of 30 days and days.
#[derive(Debug, Clone, Copy, PartialEq, Eq, Structural)]
pub struct Age {
    pub years: u64,
    pub months: u64,
    pub days: u64,
}

impl Age {
    /// The age of an installation made `elapsed_secs` seconds ago, in whole days counted
    /// as years of 365 days, months of 30 days and days; `None` when that time could not
    /// be read.
    pub fn collect(elapsed_secs: Option<u64>) -> (a: Option<Age>)
        ensures
            a is Some <==> elapsed_secs is Some,
            elapsed_secs matches Some(e) ==> a matches Some(x) && x.years == e / 86400 / 365
                && x.months == (e / 86400) % 365 / 30 && x.days == (e / 86400) % 30,
    {
        match elapsed_secs {
            Some(e) => {
                let total_days = e / 86400;
                Some(
                    Age {
                        years: total_days / 365,
                        months: (total_days % 365) / 30,
                        days: total_days % 30,
                    },
                )
            },
            None => None,
        }
    }

    pub open spec fn spec_text(&self) -> Seq<char> {
        if self.years == 0 && self.months == 0 {
            crate::decimal::decimal(self.days as nat) + " days"@
        } else if self.years == 0 {
            crate::decimal::decimal(self.months as nat) + " months, "@ + crate::decimal::decimal(
                self.days as nat,
            ) + " days"@
        } else {
            crate::decimal::decimal(self.years as nat) + " years, "@ + crate::decimal::decimal(
                self.months as nat,
            ) + " months, "@ + crate::decimal::decimal(self.days as nat) + " days"@
        }
    }

    /// `<d> days`, `<m> months, <d> days` or `<y> years, <m> months, <d> days`.
    pub fn render(&self) -> (s: String)
        ensures
            s@ == self.spec_text(),
    {
        let mut s = String::new();
        if self.years == 0 && self.months == 0 {
            push_decimal(&mut s, self.days as u128);
            s.append(" days");
        } else if self.years == 0 {
            push_decimal(&mut s, self.months as u128);
            s.append(" months, ");
            push_decimal(&mut s, self.days as u128);
            s.append(" days");
        } else {
            push_decimal(&mut s, self.years as u128);
            s.append(" years, ");
            push_decimal(&mut s, self.months as u128);
            s.append(" months, ");
            push_decimal(&mut s, self.days as u128);
            s.append(" days");
        }
        s
    }
}

/// The age line of the OS summary and that of an `Age` read from the same elapsed time
/// say the same.
pub proof fn lemma_age_text_agrees(elapsed_secs: u64)
    ensures
        ({
            let d = elapsed_secs / 86400;
            let a = Age { years: d / 365, months: d % 365 / 30, days: d % 30 };
            a.spec_text() == spec_age_text(d as nat)
        }),
{
}

} // verus!

use vstd::prelude::*;
use crate::decimal::{decimal, push_decimal, push_signed_decimal, signed_decimal};
use crate::strings::{join, join_strings};
use crate::text_utils::{format_bytes, pluralize, spec_format_bytes, spec_pluralize};
use crate::smart_check::common::device_info_parts::{
    Device, PowerOnTime, SmartStatus, Temperature, UserCapacity,
};
use crate::smart_check::nvme_self_test::nvme_self_test_log::{LogEntry, NvmeSelfTestLog};
use vstd::string::StringExecFns;

verus! {

/// What `smartctl --json -a` reports of an NVMe drive.
#[derive(Debug)]
pub struct NvmeDriveInfo {
    pub model_name: String,
    pub power_on_time: PowerOnTime,
    pub user_capacity: UserCapacity,
    pub device: Device,
    pub smart_status: SmartStatus,
    pub temperature: Temperature,
    pub nvme_smart_health_information_log: NvmeHealth,
    pub nvme_self_test_log: NvmeSelfTestLog,
}

#[derive(Debug)]
pub struct NvmeHealth {
    pub critical_warning: u8,
    pub percentage_used: u8,
    pub available_spare: u8,
    pub available_spare_threshold: u8,
    pub media_errors: u64,
    pub power_cycles: u64,
}

/// The identity of each logged self-test, as (power-on hours, result value).
pub open spec fn nvme_snapshot(t: Option<Vec<LogEntry>>) -> Seq<(u64, u64)> {
    match t {
        Some(v) => v@.map_values(|e: LogEntry| (e.power_on_hours, e.self_test_result.value)),
        None => Seq::empty(),
    }
}

impl NvmeDriveInfo {
    /// True while any self-test (short or extended) is executing. A `current_self_test_operation`
    /// value of 0 means "No self-test in progress".
    pub fn is_running(&self) -> (b: bool)
        ensures
            b == (self.nvme_self_test_log.current_self_test_operation.value != 0),
    {
        self.nvme_self_test_log.current_self_test_operation.value != 0
    }

    /// Identity of each logged self-test, as (power_on_hours, result value). Used to detect
    /// that a freshly launched test has produced a new log entry.
    pub fn table_snapshot(&self) -> (r: Vec<(u64, u64)>)
        ensures
            r@ == nvme_snapshot(self.nvme_self_test_log.table),
    {
        let mut r: Vec<(u64, u64)> = Vec::new();
        match &self.nvme_self_test_log.table {
            Some(table) => {
                let ghost s = table@.map_values(
                    |e: LogEntry| (e.power_on_hours, e.self_test_result.value),
                );
                let mut i: usize = 0;
                while i < table.len()
                    invariant
                        i <= table@.len(),
                        s == table@.map_values(
                            |e: LogEntry| (e.power_on_hours, e.self_test_result.value),
                        ),
                        r@ == s.take(i as int),
                    decreases table@.len() - i,
                {
                    r.push((table[i].power_on_hours, table[i].self_test_result.value));
                    i += 1;
                    assert(r@ =~= s.take(i as int));
                }
                assert(s.take(table@.len() as int) =~= s);
            },
            None => {},
        }
        r
    }

    /// The most recent logged self-test (the first entry of the table).
    pub open spec fn spec_latest(&self) -> Option<LogEntry> {
        match self.nvme_self_test_log.table {
            Some(v) => if v@.len() > 0 {
                Some(v@[0])
            } else {
                None
            },
            None => None,
        }
    }

    pub fn latest_result(&self) -> (r: Option<&LogEntry>)
        ensures
            r matches Some(e) ==> self.spec_latest() == Some(*e),
            r is None ==> self.spec_latest() is None,
    {
        match &self.nvme_self_test_log.table {
            Some(table) => if table.len() > 0 {
                Some(&table[0])
            } else {
                None
            },
            None => None,
        }
    }

    pub open spec fn spec_warnings(&self) -> Seq<Seq<char>> {
        let h = self.nvme_smart_health_information_log;
        if h.available_spare < h.available_spare_threshold {
            seq![
                "Spare "@ + decimal(h.available_spare as nat) + "% (below "@ + decimal(
                    h.available_spare_threshold as nat,
                ) + "% threshold)"@,
            ]
        } else {
            Seq::empty()
        }
    }

    /// Pre-failure conditions worth surfacing, formatted for display.
    pub fn warnings(&self) -> (r: Vec<String>)
        ensures
            r@.map_values(|s: String| s@) == self.spec_warnings(),
    {
        let health = &self.nvme_smart_health_information_log;
        let mut warnings: Vec<String> = Vec::new();
        if health.available_spare < health.available_spare_threshold {
            let mut w = String::from_str("Spare ");
            push_decimal(&mut w, health.available_spare as u128);
            w.append("% (below ");
            push_decimal(&mut w, health.available_spare_threshold as u128);
            w.append("% threshold)");
            warnings.push(w);
            assert(warnings@.map_values(|s: String| s@) =~= seq![w@]);
        } else {
            assert(warnings@.map_values(|s: String| s@) =~= Seq::<Seq<char>>::empty());
        }
        warnings
    }
}

impl NvmeDriveInfo {
    /// The drive as it is shown: model, capacity and interface, health, temperature and
    /// wear, power-on hours, cycles and media errors, the latest self-test, then any
    /// warnings.
    pub open spec fn spec_text(&self) -> Seq<char> {
        let h = self.nvme_smart_health_information_log;
        let status = if self.smart_status.passed && h.critical_warning == 0 {
            "✅ Healthy"@
        } else {
            "❌ FAILING"@
        };
        let head = "<b>"@ + self.model_name@ + "</b>\n"@ + spec_format_bytes(
            self.user_capacity.bytes as nat,
        ) + " "@ + self.device.protocol@ + " ("@ + self.device.name@ + ")\n"@ + status + " · "@
            + signed_decimal(self.temperature.current as int) + "°C · wear "@ + decimal(
            h.percentage_used as nat,
        ) + "%\n"@ + decimal(self.power_on_time.hours as nat) + " h · "@ + spec_pluralize(
            h.power_cycles as nat,
            "cycle"@,
        ) + " · "@ + spec_pluralize(h.media_errors as nat, "media error"@);
        let last = match self.spec_latest() {
            Some(e) => "\nLast self-test: "@ + e.self_test_result.string@ + " ("@ + decimal(
                e.power_on_hours as nat,
            ) + " h)"@,
            None => "\nLast self-test: none recorded"@,
        };
        let w = self.spec_warnings();
        let warn = if w.len() == 0 {
            Seq::empty()
        } else {
            "\n⚠️ "@ + join(w, " · "@)
        };
        head + last + warn
    }

    pub fn render(&self) -> (s: String)
        ensures
            s@ == self.spec_text(),
    {
        let health = &self.nvme_smart_health_information_log;
        let mut s = String::from_str("<b>");
        s.append(self.model_name.as_str());
        s.append("</b>\n");
        let cap = format_bytes(self.user_capacity.bytes);
        s.append(cap.as_str());
        s.append(" ");
        s.append(self.device.protocol.as_str());
        s.append(" (");
        s.append(self.device.name.as_str());
        s.append(")\n");
        s.append(
            if self.smart_status.passed && health.critical_warning == 0 {
                "✅ Healthy"
            } else {
                "❌ FAILING"
            },
        );
        s.append(" · ");
        push_signed_decimal(&mut s, self.temperature.current);
        s.append("°C · wear ");
        push_decimal(&mut s, health.percentage_used as u128);
        s.append("%\n");
        push_decimal(&mut s, self.power_on_time.hours as u128);
        s.append(" h · ");
        let cycles = pluralize(health.power_cycles, "cycle");
        s.append(cycles.as_str());
        s.append(" · ");
        let errors = pluralize(health.media_errors, "media error");
        s.append(errors.as_str());
        match self.latest_result() {
            Some(e) => {
                s.append("\nLast self-test: ");
                s.append(e.self_test_result.string.as_str());
                s.append(" (");
                push_decimal(&mut s, e.power_on_hours as u128);
                s.append(" h)");
            },
            None => {
                s.append("\nLast self-test: none recorded");
            },
        }
        let w = self.warnings();
        if w.len() > 0 {
            s.append("\n⚠️ ");
            let j = join_strings(&w, " · ");
            s.append(j.as_str());
        }
        s
    }
}

/// The text of an NVMe drive up to its health badge: model, then capacity, interface and
/// device name.
pub open spec fn nvme_identity_lines(d: NvmeDriveInfo) -> Seq<char> {
    "<b>"@ + d.model_name@ + "</b>\n"@ + spec_format_bytes(d.user_capacity.bytes as nat) + " "@
        + d.device.protocol@ + " ("@ + d.device.name@ + ")\n"@
}

/// The health badge that follows the identity lines reads `❌ FAILING` when SMART's
/// overall assessment failed or a critical warning is set, and `✅ Healthy` only when the
/// assessment passed with no critical warning.
pub proof fn lemma_nvme_health_badge(d: NvmeDriveInfo)
    ensures
        ({
            let k = nvme_identity_lines(d).len() as int;
            let failing: Seq<char> = "❌ FAILING"@;
            let healthy: Seq<char> = "✅ Healthy"@;
            &&& !d.smart_status.passed ==> d.spec_text().subrange(k, k + failing.len() as int) == failing
            &&& d.nvme_smart_health_information_log.critical_warning != 0 ==> d.spec_text().subrange(
                k,
                k + failing.len() as int,
            ) == failing
            &&& d.smart_status.passed && d.nvme_smart_health_information_log.critical_warning == 0
                ==> d.spec_text().subrange(k, k + healthy.len() as int) == healthy
        }),
{
    let k = nvme_identity_lines(d).len() as int;
    let failing: Seq<char> = "❌ FAILING"@;
    let healthy: Seq<char> = "✅ Healthy"@;
    let t = d.spec_text();
    if d.smart_status.passed && d.nvme_smart_health_information_log.critical_warning == 0 {
        assert(t.subrange(k, k + healthy.len() as int) =~= healthy);
    } else {
        assert(t.subrange(k, k + failing.len() as int) =~= failing);
    }
}

/// An NVMe drive warns exactly when its available spare is below the threshold, and then
/// with the single warning `Spare s% (below t% threshold)`.
pub proof fn lemma_nvme_spare_warning(d: NvmeDriveInfo)
    ensures
        ({
            let h = d.nvme_smart_health_information_log;
            &&& h.available_spare < h.available_spare_threshold ==> d.spec_warnings() == seq![
                "Spare "@ + decimal(h.available_spare as nat) + "% (below "@ + decimal(
                    h.available_spare_threshold as nat,
                ) + "% threshold)"@,
            ]
            &&& h.available_spare >= h.available_spare_threshold ==> d.spec_warnings().len() == 0
        }),
{
}

} // verus!

use vstd::prelude::*;
use crate::decimal::{decimal, push_decimal, push_signed_decimal, signed_decimal};
use crate::strings::{join, join_strings};
use crate::text_utils::{format_bytes, pluralize, spec_format_bytes, spec_pluralize};
use crate::smart_check::ata_self_test::ata_self_test_log::{AtaSmartSelfTestLog, LogEntry};
use crate::smart_check::common::device_info_parts::{
    Device, EnduranceUsed, PowerOnTime, SmartStatus, Temperature, UserCapacity,
};
use vstd::string::StringExecFns;

verus! {

/// What `smartctl --json -a` reports of an ATA drive.
#[derive(Debug)]
pub struct AtaDriveInfo {
    pub model_name: String,
    pub power_on_time: PowerOnTime,
    pub power_cycle_count: u64,
    pub user_capacity: UserCapacity,
    pub smart_status: SmartStatus,
    pub temperature: Temperature,
    pub endurance_used: Option<EnduranceUsed>,
    pub ata_smart_data: AtaSmartData,
    pub ata_smart_attributes: Option<AtaSmartAttributes>,
    pub device: Device,
    pub ata_smart_self_test_log: AtaSmartSelfTestLog,
}

#[derive(Debug)]
pub struct AtaSmartAttributes {
    pub table: Option<Vec<SmartAttribute>>,
}

#[derive(Debug)]
pub struct SmartAttribute {
    pub id: u32,
    pub raw: AttributeRaw,
}

#[derive(Debug)]
pub struct AttributeRaw {
    pub value: u64,
}

#[derive(Debug)]
pub struct AtaSmartData {
    pub self_test: SelfTest,
}

#[derive(Debug)]
pub struct SelfTest {
    pub status: SelfTestStatus,
    pub polling_minutes: PollingMinutes,
}

#[derive(Debug)]
pub struct SelfTestStatus {
    /// Present only while a self-test is in progress; absent once it has finished.
    pub remaining_percent: Option<u8>,
}

#[derive(Debug)]
pub struct PollingMinutes {
    pub short: u64,
    pub extended: u64,
}

/// The SMART attributes that predict drive failure (Backblaze canary set), as
/// (id, label). A non-zero raw value on any of these warrants attention.
pub open spec fn canaries() -> Seq<(u32, Seq<char>)> {
    seq![
        (5u32, "Reallocated"@),
        (197u32, "Pending"@),
        (198u32, "Uncorrectable"@),
        (187u32, "Reported uncorrect"@),
        (188u32, "Command timeout"@),
    ]
}

/// Index of the first attribute with the given id.
pub open spec fn first_with_id(t: Seq<SmartAttribute>, id: u32) -> Option<int> {
    if exists|i: int| 0 <= i < t.len() && t[i].id == id && forall|j: int| 0 <= j < i ==> t[j].id != id {
        Some(
            choose|i: int|
                0 <= i < t.len() && t[i].id == id && forall|j: int| 0 <= j < i ==> t[j].id != id,
        )
    } else {
        None
    }
}

/// `<label> <raw value>` for each canary whose first attribute in the table has a
/// non-zero raw value, in canary order.
pub open spec fn canary_warnings(t: Seq<SmartAttribute>, c: Seq<(u32, Seq<char>)>) -> Seq<Seq<char>>
    decreases c.len(),
{
    if c.len() == 0 {
        Seq::empty()
    } else {
        let p = canary_warnings(t, c.drop_last());
        match first_with_id(t, c.last().0) {
            Some(i) => if t[i].raw.value > 0 {
                p.push(c.last().1 + seq![' '] + decimal(t[i].raw.value as nat))
            } else {
                p
            },
            None => p,
        }
    }
}

/// An attribute with the id and none before it is the first with that id.
pub proof fn lemma_first_with_id(t: Seq<SmartAttribute>, id: u32, i: int)
    requires
        0 <= i < t.len(),
        t[i].id == id,
        forall|j: int| 0 <= j < i ==> t[j].id != id,
    ensures
        first_with_id(t, id) == Some(i),
{
    let k = choose|k: int|
        0 <= k < t.len() && t[k].id == id && forall|j: int| 0 <= j < k ==> t[j].id != id;
    if k < i {
        assert(t[k].id != id);
    } else if i < k {
        assert(t[i].id != id);
    }
}

proof fn lemma_canary_listed(t: Seq<SmartAttribute>, c: Seq<(u32, Seq<char>)>, k: int, i: int)
    requires
        0 <= k < c.len(),
        first_with_id(t, c[k].0) == Some(i),
        t[i].raw.value > 0,
    ensures
        canary_warnings(t, c).contains(c[k].1 + seq![' '] + decimal(t[i].raw.value as nat)),
    decreases c.len(),
{
    let w = c[k].1 + seq![' '] + decimal(t[i].raw.value as nat);
    let p = canary_warnings(t, c.drop_last());
    if k == c.len() - 1 {
        assert(canary_warnings(t, c) == p.push(w));
        assert(canary_warnings(t, c)[p.len() as int] == w);
    } else {
        assert(c.drop_last()[k] == c[k]);
        lemma_canary_listed(t, c.drop_last(), k, i);
        let j = choose|j: int| 0 <= j < p.len() && p[j] == w;
        if canary_warnings(t, c) != p {
            assert(canary_warnings(t, c)[j] == w);
        }
    }
}

proof fn lemma_no_canary_ids(t: Seq<SmartAttribute>, c: Seq<(u32, Seq<char>)>)
    requires
        forall|k: int, j: int| 0 <= k < c.len() && 0 <= j < t.len() ==> t[j].id != c[k].0,
    ensures
        canary_warnings(t, c).len() == 0,
    decreases c.len(),
{
    if c.len() > 0 {
        lemma_no_canary_ids(t, c.drop_last());
        assert(first_with_id(t, c.last().0) is None);
    }
}

/// The watched attributes are exactly 5, 197, 198, 187 and 188. Whenever the first entry of
/// one of them in the table has a non-zero raw value `n`, the warnings hold `Reallocated n`,
/// `Pending n`, `Uncorrectable n`, `Reported uncorrect n` or `Command timeout n`
/// respectively; a table with none of these ids gives no warning at all.
pub proof fn lemma_canary_set(t: Seq<SmartAttribute>, id: u32, label: Seq<char>, i: int)
    ensures
        ((id, label) == (5u32, "Reallocated"@) || (id, label) == (197u32, "Pending"@) || (id, label)
            == (198u32, "Uncorrectable"@) || (id, label) == (187u32, "Reported uncorrect"@) || (
        id,
        label,
        ) == (188u32, "Command timeout"@)) && 0 <= i < t.len() && t[i].id == id && (forall|j: int|
            0 <= j < i ==> t[j].id != id) && t[i].raw.value > 0 ==> canary_warnings(
            t,
            canaries(),
        ).contains(label + seq![' '] + decimal(t[i].raw.value as nat)),
        (forall|j: int|
            0 <= j < t.len() ==> t[j].id != 5 && t[j].id != 197 && t[j].id != 198 && t[j].id != 187
                && t[j].id != 188) ==> canary_warnings(t, canaries()).len() == 0,
{
    let c = canaries();
    if ((id, label) == (5u32, "Reallocated"@) || (id, label) == (197u32, "Pending"@) || (id, label)
        == (198u32, "Uncorrectable"@) || (id, label) == (187u32, "Reported uncorrect"@) || (
    id,
    label,
    ) == (188u32, "Command timeout"@)) && 0 <= i < t.len() && t[i].id == id && (forall|j: int|
        0 <= j < i ==> t[j].id != id) && t[i].raw.value > 0 {
        lemma_first_with_id(t, id, i);
        let k: int = if id == 5 {
            0
        } else if id == 197 {
            1
        } else if id == 198 {
            2
        } else if id == 187 {
            3
        } else {
            4
        };
        assert(c[k] == (id, label));
        lemma_canary_listed(t, c, k, i);
    }
    if forall|j: int|
        0 <= j < t.len() ==> t[j].id != 5 && t[j].id != 197 && t[j].id != 198 && t[j].id != 187
            && t[j].id != 188 {
        assert forall|k: int, j: int| 0 <= k < c.len() && 0 <= j < t.len() implies t[j].id
            != c[k].0 by {
            assert(k == 0 || k == 1 || k == 2 || k == 3 || k == 4);
        }
        lemma_no_canary_ids(t, c);
    }
}

fn canary(k: usize) -> (r: (u32, &'static str))
    requires
        k < 5,
    ensures
        r.0 == canaries()[k as int].0,
        r.1@ == canaries()[k as int].1,
{
    if k == 0 {
        (5, "Reallocated")
    } else if k == 1 {
        (197, "Pending")
    } else if k == 2 {
        (198, "Uncorrectable")
    } else if k == 3 {
        (187, "Reported uncorrect")
    } else {
        (188, "Command timeout")
    }
}

/// The identity of each logged self-test, as (lifetime hours, status value).
pub open spec fn ata_snapshot(t: Option<Vec<LogEntry>>) -> Seq<(u64, u64)> {
    match t {
        Some(v) => v@.map_values(|e: LogEntry| (e.lifetime_hours, e.status.value as u64)),
        None => Seq::empty(),
    }
}

impl AtaDriveInfo {
    /// The most recent logged self-test (the first entry of the table).
    pub open spec fn spec_latest(&self) -> Option<LogEntry> {
        match self.ata_smart_self_test_log.standard.table {
            Some(v) => if v@.len() > 0 {
                Some(v@[0])
            } else {
                None
            },
            None => None,
        }
    }

    pub fn latest_result(&self) -> (r: Option<&LogEntry>)
        ensures
            r matches Some(e) ==> self.spec_latest() == Some(*e),
            r is None ==> self.spec_latest() is None,
    {
        match &self.ata_smart_self_test_log.standard.table {
            Some(table) => if table.len() > 0 {
                Some(&table[0])
            } else {
                None
            },
            None => None,
        }
    }

    /// True while a self-test is executing (smartctl reports a remaining percentage).
    pub fn is_running(&self) -> (b: bool)
        ensures
            b == self.ata_smart_data.self_test.status.remaining_percent is Some,
    {
        self.ata_smart_data.self_test.status.remaining_percent.is_some()
    }

    /// Identity of each logged self-test, as (lifetime_hours, status value). Used to
    /// detect that a freshly launched test has produced a new log entry.
    pub fn table_snapshot(&self) -> (r: Vec<(u64, u64)>)
        ensures
            r@ == ata_snapshot(self.ata_smart_self_test_log.standard.table),
    {
        let mut r: Vec<(u64, u64)> = Vec::new();
        match &self.ata_smart_self_test_log.standard.table {
            Some(table) => {
                let ghost s = table@.map_values(|e: LogEntry| (e.lifetime_hours, e.status.value as u64));
                let mut i: usize = 0;
                while i < table.len()
                    invariant
                        i <= table@.len(),
                        s == table@.map_values(|e: LogEntry| (e.lifetime_hours, e.status.value as u64)),
                        r@ == s.take(i as int),
                    decreases table@.len() - i,
                {
                    r.push((table[i].lifetime_hours, table[i].status.value as u64));
                    i += 1;
                    assert(r@ =~= s.take(i as int));
                }
                assert(s.take(table@.len() as int) =~= s);
            },
            None => {},
        }
        r
    }

    pub open spec fn spec_warnings(&self) -> Seq<Seq<char>> {
        match self.ata_smart_attributes {
            Some(a) => match a.table {
                Some(t) => canary_warnings(t@, canaries()),
                None => Seq::empty(),
            },
            None => Seq::empty(),
        }
    }

    /// Non-zero canary attributes, formatted as "<label> <count>".
    pub fn warnings(&self) -> (r: Vec<String>)
        ensures
            r@.map_values(|s: String| s@) == self.spec_warnings(),
    {
        let table = match &self.ata_smart_attributes {
            Some(a) => match &a.table {
                Some(t) => t,
                None => return Vec::new(),
            },
            None => return Vec::new(),
        };
        let mut r: Vec<String> = Vec::new();
        let mut k: usize = 0;
        let ghost c = canaries();
        assert(c.take(0) =~= Seq::<(u32, Seq<char>)>::empty());
        assert(r@.map_values(|s: String| s@) =~= Seq::<Seq<char>>::empty());
        while k < 5
            invariant
                k <= 5,
                c == canaries(),
                r@.map_values(|s: String| s@) == canary_warnings(table@, c.take(k as int)),
            decreases 5 - k,
        {
            let (id, label) = canary(k);
            assert(c.take(k + 1).drop_last() =~= c.take(k as int));
            assert(c.take(k + 1).last() == c[k as int]);
            let mut i: usize = 0;
            while i < table.len() && table[i].id != id
                invariant
                    i <= table@.len(),
                    forall|j: int| 0 <= j < i ==> table@[j].id != id,
                decreases table@.len() - i,
            {
                i += 1;
            }
            let found: Option<usize> = if i < table.len() {
                Some(i)
            } else {
                None
            };
            let ghost before = r@.map_values(|s: String| s@);
            match found {
                Some(i) => {
                    proof {
                        lemma_first_with_id(table@, id, i as int);
                    }
                    if table[i].raw.value > 0 {
                        proof {
                            reveal_strlit(" ");
                        }
                        let mut w = String::from_str(label);
                        w.append(" ");
                        push_decimal(&mut w, table[i].raw.value as u128);
                        assert(w@ == c[k as int].1 + seq![' '] + decimal(
                            table@[i as int].raw.value as nat,
                        ));
                        r.push(w);
                        assert(r@.map_values(|s: String| s@) =~= before.push(w@));
                    }
                },
                None => {
                    assert(first_with_id(table@, id) is None);
                },
            }
            k += 1;
        }
        assert(c.take(5) =~= c);
        r
    }
}

impl AtaSmartData {
    pub fn get_polling_minutes(&self) -> (m: u64)
        ensures
            m == self.self_test.polling_minutes.short,
    {
        self.self_test.polling_minutes.short
    }
}

impl AtaDriveInfo {
    pub open spec fn text_head(&self) -> Seq<char> {
        let health = if self.smart_status.passed {
            "✅ Healthy"@
        } else {
            "❌ FAILING"@
        };
        "<b>"@ + self.model_name@ + "</b>\n"@ + spec_format_bytes(self.user_capacity.bytes as nat)
            + " "@ + self.device.protocol@ + " ("@ + self.device.name@ + ")\n"@ + health + " · "@
            + signed_decimal(self.temperature.current as int) + "°C"@
    }

    pub open spec fn text_wear(&self) -> Seq<char> {
        match self.endurance_used {
            Some(e) => " · wear "@ + decimal(e.current_percent as nat) + "%"@,
            None => Seq::empty(),
        }
    }

    pub open spec fn text_hours(&self) -> Seq<char> {
        "\n"@ + decimal(self.power_on_time.hours as nat) + " h · "@ + spec_pluralize(
            self.power_cycle_count as nat,
            "cycle"@,
        )
    }

    pub open spec fn text_last(&self) -> Seq<char> {
        match self.spec_latest() {
            Some(e) => "\nLast self-test: "@ + e.test_type.string@ + " — "@ + e.status.string@
                + " ("@ + decimal(e.lifetime_hours as nat) + " h)"@,
            None => "\nLast self-test: none recorded"@,
        }
    }

    pub open spec fn text_warnings(&self) -> Seq<char> {
        let w = self.spec_warnings();
        if w.len() == 0 {
            Seq::empty()
        } else {
            "\n⚠️ "@ + join(w, " · "@)
        }
    }

    /// The drive as it is shown: model, capacity and interface, health and temperature
    /// (and wear when reported), power-on hours and cycles, the latest self-test, then any
    /// canary warnings.
    pub open spec fn spec_text(&self) -> Seq<char> {
        self.text_head() + self.text_wear() + self.text_hours() + self.text_last()
            + self.text_warnings()
    }

    fn head_text(&self) -> (s: String)
        ensures
            s@ == self.text_head(),
    {
        let mut s = String::from_str("<b>");
        s.append(self.model_name.as_str());
        s.append("</b>\n");
        let cap = format_bytes(self.user_capacity.bytes);
        s.append(cap.as_str());
        s.append(" ");
        s.append(self.device.protocol.as_str());
        s.append(" (");
        s.append(self.device.name.as_str());
        s.append(")\n");
        s.append(
            if self.smart_status.passed {
                "✅ Healthy"
            } else {
                "❌ FAILING"
            },
        );
        s.append(" · ");
        push_signed_decimal(&mut s, self.temperature.current);
        s.append("°C");
        s
    }

    fn tail_text(&self) -> (s: String)
        ensures
            s@ == self.text_wear() + self.text_hours(),
    {
        let mut s = String::new();
        match &self.endurance_used {
            Some(e) => {
                s.append(" · wear ");
                push_decimal(&mut s, e.current_percent as u128);
                s.append("%");
            },
            None => {},
        }
        s.append("\n");
        push_decimal(&mut s, self.power_on_time.hours as u128);
        s.append(" h · ");
        let cycles = pluralize(self.power_cycle_count, "cycle");
        s.append(cycles.as_str());
        s
    }

    fn last_text(&self) -> (s: String)
        ensures
            s@ == self.text_last() + self.text_warnings(),
    {
        let mut s = String::new();
        match self.latest_result() {
            Some(e) => {
                s.append("\nLast self-test: ");
                s.append(e.test_type.string.as_str());
                s.append(" — ");
                s.append(e.status.string.as_str());
                s.append(" (");
                push_decimal(&mut s, e.lifetime_hours as u128);
                s.append(" h)");
            },
            None => {
                s.append("\nLast self-test: none recorded");
            },
        }
        let w = self.warnings();
        if w.len() > 0 {
            s.append("\n⚠️ ");
            let j = join_strings(&w, " · ");
            s.append(j.as_str());
        }
        s
    }

    pub fn render(&self) -> (s: String)
        ensures
            s@ == self.spec_text(),
    {
        let mut s = self.head_text();
        let t = self.tail_text();
        s.append(t.as_str());
        let l = self.last_text();
        s.append(l.as_str());
        assert(s@ =~= self.spec_text());
        s
    }
}

/// The text of an ATA drive up to its health badge: model, then capacity, interface and
/// device name.
pub open spec fn ata_identity_lines(d: AtaDriveInfo) -> Seq<char> {
    "<b>"@ + d.model_name@ + "</b>\n"@ + spec_format_bytes(d.user_capacity.bytes as nat) + " "@
        + d.device.protocol@ + " ("@ + d.device.name@ + ")\n"@
}

/// The health badge that follows the identity lines of an ATA drive reads `✅ Healthy`
/// when SMART's overall assessment passed and `❌ FAILING` when it failed.
pub proof fn lemma_ata_health_badge(d: AtaDriveInfo)
    ensures
        ({
            let k = ata_identity_lines(d).len() as int;
            let failing: Seq<char> = "❌ FAILING"@;
            let healthy: Seq<char> = "✅ Healthy"@;
            &&& !d.smart_status.passed ==> d.spec_text().subrange(k, k + failing.len() as int)
                == failing
            &&& d.smart_status.passed ==> d.spec_text().subrange(k, k + healthy.len() as int)
                == healthy
        }),
{
    let k = ata_identity_lines(d).len() as int;
    let failing: Seq<char> = "❌ FAILING"@;
    let healthy: Seq<char> = "✅ Healthy"@;
    if d.smart_status.passed {
        assert(d.spec_text().subrange(k, k + healthy.len() as int) =~= healthy);
    } else {
        assert(d.spec_text().subrange(k, k + failing.len() as int) =~= failing);
    }
}

} // verus!

//! The status summary: the OS lines, then the hardware with byte sizes in IEC units and
//! usage bars.

use vstd::prelude::*;
use crate::decimal::{decimal, push_decimal};
use crate::info_collector::hardware_info::{
    CpuInfo, DiskInfo, GpuInfo, GpuType, HardwareInfo, MemoryInfo, NetworkInfo,
};
use crate::info_collector::os_info::OsInfo;
use crate::text_utils::{lemma_pow2_values, pow2, push_scaled, scaled};
use vstd::string::StringExecFns;

verus! {

/// The text of `format_bytes(bytes)`: two decimals and an IEC unit from KiB up, whole
/// bytes below.
pub open spec fn spec_format_bytes(b: nat) -> Seq<char> {
    if b >= pow2(40) {
        scaled(b, 40) + " TiB"@
    } else if b >= pow2(30) {
        scaled(b, 30) + " GiB"@
    } else if b >= pow2(20) {
        scaled(b, 20) + " MiB"@
    } else if b >= pow2(10) {
        scaled(b, 10) + " KiB"@
    } else {
        decimal(b) + " B"@
    }
}

pub fn format_bytes(bytes: u64) -> (s: String)
    ensures
        s@ == spec_format_bytes(bytes as nat),
{
    proof {
        lemma_pow2_values();
    }
    let mut s = String::new();
    if bytes >= 0x100_0000_0000 {
        push_scaled(&mut s, bytes, 40);
        s.append(" TiB");
    } else if bytes >= 0x4000_0000 {
        push_scaled(&mut s, bytes, 30);
        s.append(" GiB");
    } else if bytes >= 0x10_0000 {
        push_scaled(&mut s, bytes, 20);
        s.append(" MiB");
    } else if bytes >= 0x400 {
        push_scaled(&mut s, bytes, 10);
        s.append(" KiB");
    } else {
        push_decimal(&mut s, bytes as u128);
        s.append(" B");
    }
    s
}

/// `s` repeated `n` times.
pub open spec fn repeat(s: Seq<char>, n: nat) -> Seq<char>
    decreases n,
{
    if n == 0 {
        Seq::empty()
    } else {
        repeat(s, (n - 1) as nat) + s
    }
}

fn push_repeat(out: &mut String, s: &str, n: usize)
    ensures
        final(out)@ == old(out)@ + repeat(s@, n as nat),
{
    let mut i: usize = 0;
    while i < n
        invariant
            i <= n,
            out@ == old(out)@ + repeat(s@, i as nat),
        decreases n - i,
    {
        out.append(s);
        i += 1;
        assert(out@ =~= old(out)@ + repeat(s@, i as nat));
    }
}

/// The share of `total` in use, in whole percent, as `(used * 100 / total) as usize`.
pub open spec fn percent(used: u64, total: u64) -> usize {
    ((used * 100) / (total as int)) as usize
}

/// The number of filled blocks: the percentage scaled to `blocks` and rounded half up,
/// at most `blocks`.
pub open spec fn filled_blocks(pct: usize, blocks: usize) -> nat {
    let f = ((pct * blocks + 50) / 100) as nat;
    if f <= blocks {
        f
    } else {
        blocks as nat
    }
}

/// A bar of `blocks` squares, the share of `total` in use filled in red from 80%, in
/// yellow from 60%, else in green; all blank when `total` is zero.
pub open spec fn spec_usage_bar(used: u64, total: u64, blocks: usize) -> Seq<char> {
    if total == 0 {
        repeat("⬜"@, blocks as nat)
    } else {
        let pct = percent(used, total);
        let filled = filled_blocks(pct, blocks);
        let icon = if pct >= 80 {
            "🟥"@
        } else if pct >= 60 {
            "🟨"@
        } else {
            "🟩"@
        };
        repeat(icon, filled) + repeat("⬜"@, (blocks - filled) as nat)
    }
}

pub fn usage_bar(used: u64, total: u64, blocks: usize) -> (s: String)
    requires
        used * 100 <= u64::MAX,
        total > 0 ==> percent(used, total) * blocks + 50 <= usize::MAX,
    ensures
        s@ == spec_usage_bar(used, total, blocks),
{
    let mut s = String::new();
    if total == 0 {
        push_repeat(&mut s, "⬜", blocks);
        return s;
    }
    let pct = (used * 100 / total) as usize;
    let f = (pct * blocks + 50) / 100;
    let filled = if f <= blocks {
        f
    } else {
        blocks
    };
    let icon = if pct >= 80 {
        "🟥"
    } else if pct >= 60 {
        "🟨"
    } else {
        "🟩"
    };
    push_repeat(&mut s, icon, filled);
    push_repeat(&mut s, "⬜", blocks - filled);
    s
}

proof fn lemma_repeat_len(s: Seq<char>, n: nat)
    ensures
        repeat(s, n).len() == n * s.len(),
    decreases n,
{
    if n > 0 {
        lemma_repeat_len(s, (n - 1) as nat);
        assert(repeat(s, n) == repeat(s, (n - 1) as nat) + s);
        let m = (n - 1) as nat;
        assert(m * s.len() + s.len() == n * s.len()) by (nonlinear_arith)
            requires
                m + 1 == n,
        ;
    } else {
        assert(n * s.len() == 0) by (nonlinear_arith)
            requires
                n == 0,
        ;
    }
}

/// A usage bar is always `blocks` squares long: the filled squares, then the blank ones.
pub proof fn lemma_usage_bar_length(used: u64, total: u64, blocks: usize)
    requires
        used * 100 <= u64::MAX,
    ensures
        spec_usage_bar(used, total, blocks).len() == blocks,
{
    reveal_strlit("⬜");
    reveal_strlit("🟥");
    reveal_strlit("🟨");
    reveal_strlit("🟩");
    if total == 0 {
        lemma_repeat_len("⬜"@, blocks as nat);
    } else {
        let pct = percent(used, total);
        let filled = filled_blocks(pct, blocks);
        lemma_repeat_len("⬜"@, (blocks - filled) as nat);
        lemma_repeat_len("🟥"@, filled);
        lemma_repeat_len("🟨"@, filled);
        lemma_repeat_len("🟩"@, filled);
    }
}

/// The machine summary sent in answer to `/status`.
#[derive(Debug)]
pub struct Info {
    pub os: OsInfo,
    pub hardware: HardwareInfo,
}

/// `<b>label:</b> value` and a line break, when the value is known.
pub open spec fn field_line(label: Seq<char>, value: Option<String>) -> Seq<char> {
    match value {
        Some(v) => "<b>"@ + label + ":</b> "@ + v@ + "\n"@,
        None => Seq::empty(),
    }
}

pub open spec fn load_line(load: Option<(u32, u32, u32)>) -> Seq<char> {
    match load {
        Some((a, b, c)) => "<b>Load:</b> "@ + decimal(a as nat) + "% · "@ + decimal(b as nat)
            + "% · "@ + decimal(c as nat) + "%  <i>(1/5/15 min)</i>\n"@,
        None => Seq::empty(),
    }
}

/// The OS lines: the name (or `Unknown`), each other field that is known, and the load.
pub open spec fn os_text(os: OsInfo) -> Seq<char> {
    let name = match os.name {
        Some(n) => "<b>OS:</b> "@ + n@ + "\n"@,
        None => "<b>OS:</b> Unknown\n"@,
    };
    name + field_line("Host"@, os.host) + field_line("Kernel"@, os.kernel) + field_line(
        "Age"@,
        os.age,
    ) + field_line("Uptime"@, os.uptime) + load_line(os.load_percent)
}

pub open spec fn temperature_text(t: Option<String>) -> Seq<char> {
    match t {
        Some(x) => "  "@ + x@,
        None => Seq::empty(),
    }
}

pub open spec fn cpu_text(cpu: Option<CpuInfo>) -> Seq<char> {
    match cpu {
        Some(c) => "<b>CPU:</b> "@ + c.name@ + " ("@ + decimal(c.cores as nat) + " cores) @ "@
            + c.frequency@ + temperature_text(c.temperature) + "\n"@,
        None => "<b>CPU:</b> Unknown\n"@,
    }
}

pub open spec fn gpu_type_text(t: Option<GpuType>) -> Seq<char> {
    match t {
        Some(GpuType::Discrete) => " [Discrete]"@,
        Some(GpuType::Integrated) => " [Integrated]"@,
        None => Seq::empty(),
    }
}

/// `GPU:` for a single GPU, numbered labels when there are several.
pub open spec fn gpu_label(index: nat, count: nat) -> Seq<char> {
    if count > 1 {
        "GPU "@ + decimal(index + 1) + ":"@
    } else {
        "GPU:"@
    }
}

pub open spec fn gpu_line(g: GpuInfo, index: nat, count: nat) -> Seq<char> {
    "<b>"@ + gpu_label(index, count) + "</b> "@ + g.name@ + gpu_type_text(g.gpu_type)
        + temperature_text(g.temperature) + "\n"@
}

/// The lines of the first `n` GPUs.
pub open spec fn gpu_lines(g: Seq<GpuInfo>, n: nat) -> Seq<char>
    decreases n,
{
    if n == 0 {
        Seq::empty()
    } else {
        gpu_lines(g, (n - 1) as nat) + gpu_line(g[n - 1], (n - 1) as nat, g.len())
    }
}

/// The share in use in whole percent, zero of nothing.
pub open spec fn share(used: u64, total: u64) -> nat {
    if total > 0 {
        ((used * 100) / (total as int)) as nat
    } else {
        0
    }
}

/// A bar of ten blocks can be drawn for these counts.
pub open spec fn bar_fits(used: u64, total: u64) -> bool {
    &&& used * 100 <= u64::MAX
    &&& total > 0 ==> percent(used, total) * 10 + 50 <= usize::MAX
}

/// `<b>label:</b> used / total (pct%)`, then its usage bar.
pub open spec fn usage_text(label: Seq<char>, used: u64, total: u64) -> Seq<char> {
    "<b>"@ + label + ":</b> "@ + spec_format_bytes(used as nat) + " / "@ + spec_format_bytes(
        total as nat,
    ) + " ("@ + decimal(share(used, total)) + "%)\n"@ + spec_usage_bar(used, total, 10) + "\n"@
}

/// A mounted filesystem with its usage and bar; an unmounted drive with its size.
pub open spec fn disk_text(d: DiskInfo) -> Seq<char> {
    match d.used {
        Some(u) => "<b>Disk "@ + d.label@ + ":</b> "@ + spec_format_bytes(u as nat) + " / "@
            + spec_format_bytes(d.size as nat) + " ("@ + decimal(share(u, d.size)) + "%) — "@
            + d.filesystem@ + "\n"@ + spec_usage_bar(u, d.size, 10) + "\n"@,
        None => "<b>Disk "@ + d.label@ + ":</b> "@ + spec_format_bytes(d.size as nat) + " — "@
            + d.filesystem@ + "\n"@,
    }
}

pub open spec fn disk_lines(d: Seq<DiskInfo>, n: nat) -> Seq<char>
    decreases n,
{
    if n == 0 {
        Seq::empty()
    } else {
        disk_lines(d, (n - 1) as nat) + disk_text(d[n - 1])
    }
}

pub open spec fn net_text(n: NetworkInfo) -> Seq<char> {
    n.name@ + " "@ + (match n.ip_address {
        Some(ip) => ip@,
        None => "—"@,
    }) + "  ↓ "@ + spec_format_bytes(n.rx_bytes as nat) + "  ↑ "@ + spec_format_bytes(
        n.tx_bytes as nat,
    ) + "\n"@
}

pub open spec fn net_lines(v: Seq<NetworkInfo>, n: nat) -> Seq<char>
    decreases n,
{
    if n == 0 {
        Seq::empty()
    } else {
        net_lines(v, (n - 1) as nat) + net_text(v[n - 1])
    }
}

/// The memory line and bar (or `Unknown`), then the swap line and bar when there is swap.
pub open spec fn memory_text(memory: Option<MemoryInfo>, swap: Option<MemoryInfo>) -> Seq<char> {
    (match memory {
        Some(m) => usage_text("Memory"@, m.used, m.total),
        None => "<b>Memory:</b> Unknown\n"@,
    }) + (match swap {
        Some(m) => usage_text("Swap"@, m.used, m.total),
        None => Seq::empty(),
    })
}

pub open spec fn disks_text(d: Seq<DiskInfo>) -> Seq<char> {
    if d.len() == 0 {
        "<b>Disk:</b> Unknown\n"@
    } else {
        disk_lines(d, d.len())
    }
}

pub open spec fn network_text(v: Seq<NetworkInfo>) -> Seq<char> {
    if v.len() == 0 {
        Seq::empty()
    } else {
        "\n<b>Network:</b>\n"@ + net_lines(v, v.len())
    }
}

pub open spec fn hardware_text(h: HardwareInfo) -> Seq<char> {
    cpu_text(h.cpu) + gpu_lines(h.gpu@, h.gpu@.len()) + memory_text(h.memory, h.swap) + "\n"@
        + disks_text(h.disks@) + network_text(h.network@)
}

/// The summary: the OS lines, a rule, then the hardware.
pub open spec fn spec_info_text(i: Info) -> Seq<char> {
    os_text(i.os) + "\n──────────────────────\n\n"@ + hardware_text(i.hardware)
}

/// Every usage bar of the hardware summary can be drawn.
pub open spec fn bars_fit(h: HardwareInfo) -> bool {
    &&& h.memory matches Some(m) ==> bar_fits(m.used, m.total)
    &&& h.swap matches Some(m) ==> bar_fits(m.used, m.total)
    &&& forall|i: int|
        0 <= i < h.disks@.len() ==> ((#[trigger] h.disks@[i]).used matches Some(u) ==> bar_fits(
            u,
            h.disks@[i].size,
        ))
}

fn bar_fits_exec(used: u64, total: u64) -> (b: bool)
    ensures
        b == bar_fits(used, total),
{
    if used > u64::MAX / 100 {
        assert(used * 100 > u64::MAX) by (nonlinear_arith)
            requires
                used > u64::MAX / 100,
        ;
        return false;
    }
    assert(used * 100 <= u64::MAX) by (nonlinear_arith)
        requires
            used <= u64::MAX / 100,
    ;
    if total == 0 {
        return true;
    }
    let pct = (used * 100 / total) as usize;
    (pct as u128) * 10 + 50 <= usize::MAX as u128
}

/// Whether every usage bar of the hardware summary can be drawn (see `bars_fit`).
pub fn can_draw_bars(h: &HardwareInfo) -> (b: bool)
    ensures
        b == bars_fit(*h),
{
    match h.memory {
        Some(m) => if !bar_fits_exec(m.used, m.total) {
            return false;
        },
        None => {},
    }
    match h.swap {
        Some(m) => if !bar_fits_exec(m.used, m.total) {
            return false;
        },
        None => {},
    }
    let mut i: usize = 0;
    while i < h.disks.len()
        invariant
            i <= h.disks@.len(),
            forall|j: int|
                0 <= j < i ==> ((#[trigger] h.disks@[j]).used matches Some(u) ==> bar_fits(
                    u,
                    h.disks@[j].size,
                )),
        decreases h.disks@.len() - i,
    {
        match h.disks[i].used {
            Some(u) => if !bar_fits_exec(u, h.disks[i].size) {
                return false;
            },
            None => {},
        }
        i += 1;
    }
    true
}

fn push_field(s: &mut String, label: &str, value: &Option<String>)
    ensures
        final(s)@ == old(s)@ + field_line(label@, *value),
{
    match value {
        Some(v) => {
            s.append("<b>");
            s.append(label);
            s.append(":</b> ");
            s.append(v.as_str());
            s.append("\n");
        },
        None => {},
    }
}

fn push_load(s: &mut String, load: Option<(u32, u32, u32)>)
    ensures
        final(s)@ == old(s)@ + load_line(load),
{
    match load {
        Some((a, b, c)) => {
            s.append("<b>Load:</b> ");
            push_decimal(s, a as u128);
            s.append("% · ");
            push_decimal(s, b as u128);
            s.append("% · ");
            push_decimal(s, c as u128);
            s.append("%  <i>(1/5/15 min)</i>\n");
        },
        None => {},
    }
}

fn push_os(s: &mut String, os: &OsInfo)
    ensures
        final(s)@ == old(s)@ + os_text(*os),
{
    let ghost start = s@;
    match &os.name {
        Some(n) => {
            s.append("<b>OS:</b> ");
            s.append(n.as_str());
            s.append("\n");
        },
        None => s.append("<b>OS:</b> Unknown\n"),
    }
    let ghost name = s@;
    push_field(s, "Host", &os.host);
    push_field(s, "Kernel", &os.kernel);
    push_field(s, "Age", &os.age);
    push_field(s, "Uptime", &os.uptime);
    push_load(s, os.load_percent);
    assert(s@ =~= start + os_text(*os));
}

fn push_temperature(s: &mut String, t: &Option<String>)
    ensures
        final(s)@ == old(s)@ + temperature_text(*t),
{
    match t {
        Some(x) => {
            s.append("  ");
            s.append(x.as_str());
        },
        None => {},
    }
}

fn push_cpu(s: &mut String, cpu: &Option<CpuInfo>)
    ensures
        final(s)@ == old(s)@ + cpu_text(*cpu),
{
    match cpu {
        Some(c) => {
            s.append("<b>CPU:</b> ");
            s.append(c.name.as_str());
            s.append(" (");
            push_decimal(s, c.cores as u128);
            s.append(" cores) @ ");
            s.append(c.frequency.as_str());
            push_temperature(s, &c.temperature);
            s.append("\n");
        },
        None => s.append("<b>CPU:</b> Unknown\n"),
    }
}

fn push_gpu(s: &mut String, g: &GpuInfo, index: usize, count: usize)
    requires
        index < count,
    ensures
        final(s)@ == old(s)@ + gpu_line(*g, index as nat, count as nat),
{
    s.append("<b>");
    if count > 1 {
        s.append("GPU ");
        push_decimal(s, (index as u128) + 1);
        s.append(":");
    } else {
        s.append("GPU:");
    }
    s.append("</b> ");
    s.append(g.name.as_str());
    match g.gpu_type {
        Some(GpuType::Discrete) => s.append(" [Discrete]"),
        Some(GpuType::Integrated) => s.append(" [Integrated]"),
        None => {},
    }
    push_temperature(s, &g.temperature);
    s.append("\n");
}

fn push_share(s: &mut String, used: u64, total: u64)
    requires
        used * 100 <= u64::MAX,
    ensures
        final(s)@ == old(s)@ + decimal(share(used, total)),
{
    let pct: u64 = if total > 0 {
        used * 100 / total
    } else {
        0
    };
    push_decimal(s, pct as u128);
}

fn push_usage(s: &mut String, label: &str, used: u64, total: u64)
    requires
        bar_fits(used, total),
    ensures
        final(s)@ == old(s)@ + usage_text(label@, used, total),
{
    s.append("<b>");
    s.append(label);
    s.append(":</b> ");
    let u = format_bytes(used);
    s.append(u.as_str());
    s.append(" / ");
    let t = format_bytes(total);
    s.append(t.as_str());
    s.append(" (");
    push_share(s, used, total);
    s.append("%)\n");
    let bar = usage_bar(used, total, 10);
    s.append(bar.as_str());
    s.append("\n");
}

fn push_disk(s: &mut String, d: &DiskInfo)
    requires
        d.used matches Some(u) ==> bar_fits(u, d.size),
    ensures
        final(s)@ == old(s)@ + disk_text(*d),
{
    s.append("<b>Disk ");
    s.append(d.label.as_str());
    s.append(":</b> ");
    match d.used {
        Some(u) => {
            let ub = format_bytes(u);
            s.append(ub.as_str());
            s.append(" / ");
            let sb = format_bytes(d.size);
            s.append(sb.as_str());
            s.append(" (");
            push_share(s, u, d.size);
            s.append("%) — ");
            s.append(d.filesystem.as_str());
            s.append("\n");
            let bar = usage_bar(u, d.size, 10);
            s.append(bar.as_str());
            s.append("\n");
        },
        None => {
            let sb = format_bytes(d.size);
            s.append(sb.as_str());
            s.append(" — ");
            s.append(d.filesystem.as_str());
            s.append("\n");
        },
    }
}

fn push_net(s: &mut String, n: &NetworkInfo)
    ensures
        final(s)@ == old(s)@ + net_text(*n),
{
    s.append(n.name.as_str());
    s.append(" ");
    match &n.ip_address {
        Some(ip) => s.append(ip.as_str()),
        None => s.append("—"),
    }
    s.append("  ↓ ");
    let rx = format_bytes(n.rx_bytes);
    s.append(rx.as_str());
    s.append("  ↑ ");
    let tx = format_bytes(n.tx_bytes);
    s.append(tx.as_str());
    s.append("\n");
}

fn push_gpus(s: &mut String, g: &Vec<GpuInfo>)
    ensures
        final(s)@ == old(s)@ + gpu_lines(g@, g@.len()),
{
    let ghost start = s@;
    let mut i: usize = 0;
    while i < g.len()
        invariant
            i <= g@.len(),
            s@ == start + gpu_lines(g@, i as nat),
        decreases g@.len() - i,
    {
        push_gpu(s, &g[i], i, g.len());
        i += 1;
        assert(s@ =~= start + gpu_lines(g@, i as nat));
    }
}

fn push_memory(s: &mut String, memory: &Option<MemoryInfo>, swap: &Option<MemoryInfo>)
    requires
        *memory matches Some(m) ==> bar_fits(m.used, m.total),
        *swap matches Some(m) ==> bar_fits(m.used, m.total),
    ensures
        final(s)@ == old(s)@ + memory_text(*memory, *swap),
{
    let ghost start = s@;
    match memory {
        Some(m) => push_usage(s, "Memory", m.used, m.total),
        None => s.append("<b>Memory:</b> Unknown\n"),
    }
    let ghost mid = s@;
    match swap {
        Some(m) => push_usage(s, "Swap", m.used, m.total),
        None => {},
    }
    assert(s@ =~= start + memory_text(*memory, *swap));
}

fn push_disks(s: &mut String, d: &Vec<DiskInfo>)
    requires
        forall|i: int|
            0 <= i < d@.len() ==> ((#[trigger] d@[i]).used matches Some(u) ==> bar_fits(
                u,
                d@[i].size,
            )),
    ensures
        final(s)@ == old(s)@ + disks_text(d@),
{
    let ghost start = s@;
    if d.len() == 0 {
        s.append("<b>Disk:</b> Unknown\n");
    } else {
        let mut k: usize = 0;
        while k < d.len()
            invariant
                k <= d@.len(),
                forall|i: int|
                    0 <= i < d@.len() ==> ((#[trigger] d@[i]).used matches Some(u) ==> bar_fits(
                        u,
                        d@[i].size,
                    )),
                s@ == start + disk_lines(d@, k as nat),
            decreases d@.len() - k,
        {
            assert(d@[k as int].used matches Some(u) ==> bar_fits(u, d@[k as int].size));
            push_disk(s, &d[k]);
            k += 1;
            assert(s@ =~= start + disk_lines(d@, k as nat));
        }
    }
}

fn push_network(s: &mut String, v: &Vec<NetworkInfo>)
    ensures
        final(s)@ == old(s)@ + network_text(v@),
{
    let ghost start = s@;
    if v.len() > 0 {
        s.append("\n<b>Network:</b>\n");
        let ghost head = s@;
        let mut k: usize = 0;
        while k < v.len()
            invariant
                k <= v@.len(),
                s@ == head + net_lines(v@, k as nat),
            decreases v@.len() - k,
        {
            push_net(s, &v[k]);
            k += 1;
            assert(s@ =~= head + net_lines(v@, k as nat));
        }
        assert(s@ =~= start + network_text(v@));
    } else {
        assert(s@ =~= start + network_text(v@));
    }
}

fn push_hardware(s: &mut String, h: &HardwareInfo)
    requires
        bars_fit(*h),
    ensures
        final(s)@ == old(s)@ + hardware_text(*h),
{
    let ghost start = s@;
    push_cpu(s, &h.cpu);
    push_gpus(s, &h.gpu);
    push_memory(s, &h.memory, &h.swap);
    s.append("\n");
    push_disks(s, &h.disks);
    push_network(s, &h.network);
    assert(s@ =~= start + hardware_text(*h));
}

impl Info {
    /// The summary as it is sent: the OS lines, a rule, then CPU, GPUs, memory, swap,
    /// disks and network.
    pub fn render(&self) -> (s: String)
        requires
            bars_fit(self.hardware),
        ensures
            s@ == spec_info_text(*self),
    {
        let mut s = String::new();
        push_os(&mut s, &self.os);
        s.append("\n──────────────────────\n\n");
        push_hardware(&mut s, &self.hardware);
        s
    }
}

} // verus!

//! What the hardware summary reads out of `/proc`, sysfs and tool output.

use vstd::prelude::*;
use crate::decimal::is_ascii_digit;
use crate::decimal::{parse_u64, parse_u64_exec};
use crate::fstrim::trim_result::strip_prefix;
use crate::info_collector::hardware_info::{DiskInfo, GpuType, MemoryInfo};
use vstd::string::StringExecFns;
use crate::strings::{
    first_match, find, has_prefix, join, split_once, split_once_at, last_match, line_ranges, lines, normalize_spaces,
    ranges_hold, replace_all, replace_all_exec, rfind, slice_of, split_char, split_pieces,
    split_words, starts_with, str_eq, string_from, to_chars, trim, trim_end, trimmed,
    trimmed_end, views, words,
};

verus! {

/// `name` cut before its last `suffix` and trimmed at the end, unless that leaves
/// nothing.
pub open spec fn cut_before_last(name: Seq<char>, suffix: Seq<char>) -> Option<Seq<char>> {
    match last_match(name, suffix) {
        Some(pos) => {
            let t = trim_end(name.take(pos));
            if t.len() > 0 {
                Some(t)
            } else {
                None
            }
        },
        None => None,
    }
}

/// Number of ASCII digits at the end of `s`.
pub open spec fn trailing_digits(s: Seq<char>) -> nat
    decreases s.len(),
{
    if s.len() > 0 && crate::decimal::is_digit(s.last()) {
        1 + trailing_digits(s.drop_last())
    } else {
        0
    }
}

pub open spec fn without_trademarks(raw: Seq<char>) -> Seq<char> {
    join(
        words(replace_all(replace_all(raw, "(R)"@, Seq::empty()), "(TM)"@, Seq::empty())),
        seq![' '],
    )
}

pub open spec fn without_marketing_suffix(n: Seq<char>) -> Seq<char> {
    match cut_before_last(n, " with Radeon Graphics"@) {
        Some(t) => t,
        None => match cut_before_last(n, " Processor"@) {
            Some(t) => t,
            None => match cut_before_last(n, " CPU"@) {
                Some(t) => t,
                None => n,
            },
        },
    }
}

pub open spec fn without_clock(n: Seq<char>) -> Seq<char> {
    match cut_before_last(n, " @"@) {
        Some(t) => t,
        None => n,
    }
}

pub open spec fn without_core_count(n: Seq<char>) -> Seq<char> {
    match last_match(n, "-Core"@) {
        Some(pos) => {
            let prefix = n.take(pos);
            let d = trailing_digits(prefix);
            if d > 0 {
                trim_end(prefix.take(prefix.len() - d))
            } else {
                n
            }
        },
        None => n,
    }
}

/// The CPU name as it is shown: trademarks and repeated spaces dropped, then the
/// first of ` with Radeon Graphics`, ` Processor`, ` CPU` that can be cut off, then
/// a clock speed ` @ ...`, then an `N-Core` count with what follows it.
pub open spec fn spec_simplify_cpu_name(raw: Seq<char>) -> Seq<char> {
    without_core_count(without_clock(without_marketing_suffix(without_trademarks(raw))))
}

fn cut(name: &Vec<char>, suffix: &str) -> (r: Option<Vec<char>>)
    ensures
        r matches Some(t) ==> cut_before_last(name@, suffix@) == Some(t@),
        r is None ==> cut_before_last(name@, suffix@) is None,
{
    let pat = to_chars(suffix);
    match rfind(name, &pat) {
        Some(pos) => {
            let t = trimmed_end(name, pos);
            if t.len() > 0 {
                Some(t)
            } else {
                None
            }
        },
        None => None,
    }
}

pub fn simplify_cpu_name(name: &str) -> (r: String)
    ensures
        r@ == spec_simplify_cpu_name(name@),
{
    let raw = to_chars(name);
    let empty: Vec<char> = Vec::new();
    let r_mark = to_chars("(R)");
    let tm_mark = to_chars("(TM)");
    proof {
        reveal_strlit("(R)");
        reveal_strlit("(TM)");
    }
    let a = replace_all_exec(&raw, &r_mark, &empty);
    let b = replace_all_exec(&a, &tm_mark, &empty);
    let mut n = normalize_spaces(&b);
    assert(n@ == without_trademarks(name@));
    let mut cut_done = false;
    match cut(&n, " with Radeon Graphics") {
        Some(t) => {
            n = t;
            cut_done = true;
        },
        None => {},
    }
    if !cut_done {
        match cut(&n, " Processor") {
            Some(t) => {
                n = t;
                cut_done = true;
            },
            None => {},
        }
    }
    if !cut_done {
        match cut(&n, " CPU") {
            Some(t) => {
                n = t;
            },
            None => {},
        }
    }
    assert(n@ == without_marketing_suffix(without_trademarks(name@)));
    match cut(&n, " @") {
        Some(t) => {
            n = t;
        },
        None => {},
    }
    let core = to_chars("-Core");
    match rfind(&n, &core) {
        Some(pos) => {
            let mut k = pos;
            while k > 0 && is_ascii_digit(n[k - 1])
                invariant
                    k <= pos <= n@.len(),
                    trailing_digits(n@.take(pos as int)) == (pos - k) + trailing_digits(
                        n@.take(k as int),
                    ),
                decreases k,
            {
                assert(n@.take(k as int).drop_last() =~= n@.take(k - 1));
                k -= 1;
            }
            assert(trailing_digits(n@.take(k as int)) == 0);
            if k < pos {
                assert(n@.take(pos as int).take(k as int) =~= n@.take(k as int));
                n = trimmed_end(&n, k);
            }
        },
        None => {},
    }
    string_from(&n)
}


/// `name` without a trailing ` (rev ..)` and trimmed.
pub open spec fn lspci_base(name: Seq<char>) -> Seq<char> {
    match last_match(name, " (rev "@) {
        Some(pos) => trim(name.take(pos)),
        None => trim(name),
    }
}

pub open spec fn contains(s: Seq<char>, pat: Seq<char>) -> bool {
    first_match(s, pat) is Some
}

pub open spec fn without_vendor_prefix(n: Seq<char>) -> Seq<char> {
    match strip_prefix(n, "Intel Corporation "@) {
        Some(t) => t,
        None => match strip_prefix(n, "Advanced Micro Devices, Inc. "@) {
            Some(t) => t,
            None => n,
        },
    }
}

/// The GPU name as it is shown: from `[AMD/ATI] Device` bracket notation the vendor
/// (`AMD` or `Intel` when the bracket names one) and the device; otherwise the name
/// without a verbose vendor prefix.
pub open spec fn spec_simplify_lspci_name(name: Seq<char>) -> Seq<char> {
    let n = lspci_base(name);
    match last_match(n, seq![']']) {
        Some(end) => match last_match(n.take(end), seq!['[']) {
            Some(start) => {
                let bracket = n.subrange(start + 1, end);
                let device = trim(n.skip(end + 1));
                if device.len() > 0 {
                    if contains(bracket, "AMD"@) {
                        "AMD "@ + device
                    } else if contains(bracket, "Intel"@) {
                        "Intel "@ + device
                    } else {
                        device
                    }
                } else {
                    without_vendor_prefix(n)
                }
            },
            None => without_vendor_prefix(n),
        },
        None => without_vendor_prefix(n),
    }
}

fn strip_vendor_prefix(n: &Vec<char>) -> (r: Vec<char>)
    ensures
        r@ == without_vendor_prefix(n@),
{
    let intel = to_chars("Intel Corporation ");
    if has_prefix(n, &intel) {
        let r = slice_of(n, intel.len(), n.len());
        assert(r@ =~= n@.skip(intel@.len() as int));
        return r;
    }
    let amd = to_chars("Advanced Micro Devices, Inc. ");
    if has_prefix(n, &amd) {
        let r = slice_of(n, amd.len(), n.len());
        assert(r@ =~= n@.skip(amd@.len() as int));
        return r;
    }
    slice_of(n, 0, n.len())
}

fn prepend(prefix: &str, rest: &Vec<char>) -> (r: Vec<char>)
    ensures
        r@ == prefix@ + rest@,
{
    let mut r = to_chars(prefix);
    let ghost p = r@;
    let mut k: usize = 0;
    while k < rest.len()
        invariant
            k <= rest@.len(),
            r@ == p + rest@.take(k as int),
        decreases rest@.len() - k,
    {
        r.push(rest[k]);
        k += 1;
        assert(r@ =~= p + rest@.take(k as int));
    }
    assert(rest@.take(rest@.len() as int) =~= rest@);
    r
}

pub fn simplify_lspci_name(name: &str) -> (r: String)
    ensures
        r@ == spec_simplify_lspci_name(name@),
{
    let raw = to_chars(name);
    let rev = to_chars(" (rev ");
    let n = match rfind(&raw, &rev) {
        Some(pos) => {
            let head = slice_of(&raw, 0, pos);
            assert(head@ =~= raw@.take(pos as int));
            trimmed(&head)
        },
        None => trimmed(&raw),
    };
    let close = vec![']'];
    let open = vec!['['];
    assert(close@ =~= seq![']']);
    assert(open@ =~= seq!['[']);
    match rfind(&n, &close) {
        Some(end) => {
            let head = slice_of(&n, 0, end);
            assert(head@ =~= n@.take(end as int));
            match rfind(&head, &open) {
                Some(start) => {
                    let bracket = slice_of(&n, start + 1, end);
                    let len = n.len();
                    let after = slice_of(&n, end + 1, len);
                    assert(after@ =~= n@.skip(end + 1));
                    let device = trimmed(&after);
                    if device.len() > 0 {
                        let amd = to_chars("AMD");
                        let intel = to_chars("Intel");
                        let r = if find(&bracket, &amd).is_some() {
                            prepend("AMD ", &device)
                        } else if find(&bracket, &intel).is_some() {
                            prepend("Intel ", &device)
                        } else {
                            slice_of(&device, 0, device.len())
                        };
                        assert(device@.subrange(0, device@.len() as int) =~= device@);
                        return string_from(&r);
                    }
                },
                None => {},
            }
        },
        None => {},
    }
    let r = strip_vendor_prefix(&n);
    string_from(&r)
}

/// The first line that starts with `key`.
pub open spec fn first_starting_with(ls: Seq<Seq<char>>, key: Seq<char>) -> Option<Seq<char>>
    decreases ls.len(),
{
    if ls.len() == 0 {
        None
    } else if starts_with(ls[0], key) {
        Some(ls[0])
    } else {
        first_starting_with(ls.drop_first(), key)
    }
}

/// Bounds of the first line of `v` that starts with `key`.
fn find_line(v: &Vec<char>, key: &str) -> (r: Option<(usize, usize)>)
    ensures
        r matches Some(b) ==> b.0 <= b.1 <= v@.len() && first_starting_with(lines(v@), key@)
            == Some(v@.subrange(b.0 as int, b.1 as int)),
        r is None ==> first_starting_with(lines(v@), key@) is None,
{
    let ranges = line_ranges(v);
    let keyv = to_chars(key);
    let ghost ls = lines(v@);
    let mut k: usize = 0;
    assert(ls.skip(0) =~= ls);
    while k < ranges.len()
        invariant
            ranges_hold(v@, ranges@, ls),
            ls == lines(v@),
            keyv@ == key@,
            k <= ranges@.len(),
            first_starting_with(ls, key@) == first_starting_with(ls.skip(k as int), key@),
        decreases ranges@.len() - k,
    {
        let (lo, hi) = ranges[k];
        let line = slice_of(v, lo, hi);
        assert(line@ == ls[k as int]);
        assert(ls.skip(k as int)[0] == ls[k as int]);
        assert(ls.skip(k as int).drop_first() =~= ls.skip(k + 1));
        if has_prefix(&line, &keyv) {
            return Some((lo, hi));
        }
        k += 1;
    }
    assert(ls.skip(ranges@.len() as int) =~= Seq::<Seq<char>>::empty());
    None
}

/// The kibibyte count of `key` in `/proc/meminfo` text: the second word of the first
/// line that starts with `key`.
pub open spec fn spec_meminfo_kb(content: Seq<char>, key: Seq<char>) -> Option<u64> {
    match first_starting_with(lines(content), key) {
        Some(line) => {
            let w = words(line);
            if w.len() > 1 {
                parse_u64(w[1])
            } else {
                None
            }
        },
        None => None,
    }
}

pub fn parse_meminfo_kb(content: &str, key: &str) -> (r: Option<u64>)
    ensures
        r == spec_meminfo_kb(content@, key@),
{
    let v = to_chars(content);
    match find_line(&v, key) {
        Some((lo, hi)) => {
            let line = slice_of(&v, lo, hi);
            let w = split_words(&line);
            if w.len() > 1 {
                parse_u64_exec(&w[1])
            } else {
                None
            }
        },
        None => None,
    }
}

/// Memory in use from `/proc/meminfo`: total less available, in bytes.
pub open spec fn spec_memory_info(content: Seq<char>) -> Option<MemoryInfo> {
    match (spec_meminfo_kb(content, "MemTotal"@), spec_meminfo_kb(content, "MemAvailable"@)) {
        (Some(t), Some(a)) => Some(
            MemoryInfo {
                total: (t * 1024) as u64,
                used: if t * 1024 >= a * 1024 {
                    (t * 1024 - a * 1024) as u64
                } else {
                    0
                },
            },
        ),
        _ => None,
    }
}

/// The `/proc/meminfo` counts that `memory_info` multiplies fit in a `u64` once in bytes.
pub open spec fn memory_counts_fit(content: Seq<char>) -> bool {
    &&& (spec_meminfo_kb(content, "MemTotal"@) matches Some(t) ==> t * 1024 <= u64::MAX)
    &&& (spec_meminfo_kb(content, "MemTotal"@) is Some ==> (spec_meminfo_kb(
        content,
        "MemAvailable"@,
    ) matches Some(a) ==> a * 1024 <= u64::MAX))
}

pub fn memory_info(content: &str) -> (r: Option<MemoryInfo>)
    requires
        memory_counts_fit(content@),
    ensures
        r == spec_memory_info(content@),
{
    let total = match parse_meminfo_kb(content, "MemTotal") {
        Some(t) => t * 1024,
        None => return None,
    };
    let available = match parse_meminfo_kb(content, "MemAvailable") {
        Some(a) => a * 1024,
        None => return None,
    };
    Some(MemoryInfo { total, used: total.saturating_sub(available) })
}

/// Swap in use from `/proc/meminfo`: none when there is no swap; a missing free count
/// counts as zero.
pub open spec fn spec_swap_info(content: Seq<char>) -> Option<MemoryInfo> {
    match spec_meminfo_kb(content, "SwapTotal"@) {
        Some(t) => if t == 0 {
            None
        } else {
            let free = match spec_meminfo_kb(content, "SwapFree"@) {
                Some(f) => f * 1024,
                None => 0,
            };
            Some(
                MemoryInfo {
                    total: (t * 1024) as u64,
                    used: if t * 1024 >= free {
                        (t * 1024 - free) as u64
                    } else {
                        0
                    },
                },
            )
        },
        None => None,
    }
}

pub open spec fn swap_counts_fit(content: Seq<char>) -> bool {
    &&& (spec_meminfo_kb(content, "SwapTotal"@) matches Some(t) ==> t * 1024 <= u64::MAX)
    &&& (spec_meminfo_kb(content, "SwapTotal"@) matches Some(t) ==> (t != 0 ==> (spec_meminfo_kb(
        content,
        "SwapFree"@,
    ) matches Some(f) ==> f * 1024 <= u64::MAX)))
}

pub fn swap_info(content: &str) -> (r: Option<MemoryInfo>)
    requires
        swap_counts_fit(content@),
    ensures
        r == spec_swap_info(content@),
{
    let total = match parse_meminfo_kb(content, "SwapTotal") {
        Some(t) => t * 1024,
        None => return None,
    };
    if total == 0 {
        return None;
    }
    let free = match parse_meminfo_kb(content, "SwapFree") {
        Some(f) => f * 1024,
        None => 0,
    };
    Some(MemoryInfo { total, used: total.saturating_sub(free) })
}

pub open spec fn spec_cpuinfo_field(content: Seq<char>, key: Seq<char>) -> Option<Seq<char>> {
    match first_starting_with(lines(content), key) {
        Some(line) => {
            let p = split_char(line, ':');
            if p.len() > 1 {
                Some(trim(p[1]))
            } else {
                None
            }
        },
        None => None,
    }
}

/// A field of `/proc/cpuinfo`: what follows the first `:` of the first line that starts
/// with `key` (up to a second `:`), trimmed.
pub fn cpuinfo_field(content: &str, key: &str) -> (r: Option<String>)
    ensures
        r matches Some(s) ==> spec_cpuinfo_field(content@, key@) == Some(s@),
        r is None ==> spec_cpuinfo_field(content@, key@) is None,
{
    let v = to_chars(content);
    match find_line(&v, key) {
        Some((lo, hi)) => {
            let line = slice_of(&v, lo, hi);
            let p = split_pieces(&line, ':');
            if p.len() > 1 {
                assert(p@[1]@ == views(p@)[1]);
                let t = trimmed(&p[1]);
                Some(string_from(&t))
            } else {
                None
            }
        },
        None => None,
    }
}

/// The CPU model from `/proc/cpuinfo`: its `model name` field.
pub fn cpu_model_name(content: &str) -> (r: Option<String>)
    ensures
        r matches Some(s) ==> spec_cpuinfo_field(content@, "model name"@) == Some(s@),
        r is None ==> spec_cpuinfo_field(content@, "model name"@) is None,
{
    cpuinfo_field(content, "model name")
}

/// The number of lines that start with `key`.
pub open spec fn count_starting_with(ls: Seq<Seq<char>>, key: Seq<char>) -> nat
    decreases ls.len(),
{
    if ls.len() == 0 {
        0
    } else {
        count_starting_with(ls.drop_last(), key) + if starts_with(ls.last(), key) {
            1nat
        } else {
            0nat
        }
    }
}

/// The number of `processor` lines in `/proc/cpuinfo`, as a `u32`.
pub fn cpu_core_count(content: &str) -> (n: u32)
    ensures
        n == count_starting_with(lines(content@), "processor"@) as u32,
{
    let v = to_chars(content);
    let ranges = line_ranges(&v);
    let key = to_chars("processor");
    let ghost ls = lines(v@);
    let mut count: usize = 0;
    let mut k: usize = 0;
    assert(ls.take(0) =~= Seq::<Seq<char>>::empty());
    while k < ranges.len()
        invariant
            ranges_hold(v@, ranges@, ls),
            ls == lines(v@),
            key@ == "processor"@,
            k <= ranges@.len(),
            count == count_starting_with(ls.take(k as int), "processor"@),
            count <= k,
        decreases ranges@.len() - k,
    {
        let (lo, hi) = ranges[k];
        let line = slice_of(&v, lo, hi);
        assert(line@ == ls[k as int]);
        assert(ls.take(k + 1).drop_last() =~= ls.take(k as int));
        assert(ls.take(k + 1).last() == ls[k as int]);
        if has_prefix(&line, &key) {
            count += 1;
        }
        k += 1;
    }
    assert(ls.take(ranges@.len() as int) =~= ls);
    count as u32
}

/// The kind of a DRM GPU: Intel's are integrated; an AMD card is discrete from 4 GiB
/// of dedicated memory on (APUs share system memory, typically 256 MiB–2 GiB); unknown
/// when the memory size cannot be read.
pub open spec fn spec_gpu_type(vendor: Seq<char>, vram: Option<Seq<char>>) -> Option<GpuType> {
    if vendor == "0x8086"@ {
        Some(GpuType::Integrated)
    } else {
        match vram {
            Some(text) => match parse_u64(trim(text)) {
                Some(v) => Some(
                    if v >= 4 * 1024 * 1024 * 1024 {
                        GpuType::Discrete
                    } else {
                        GpuType::Integrated
                    },
                ),
                None => None,
            },
            None => None,
        }
    }
}

/// Decides the GPU kind from its PCI vendor id and the text of its
/// `mem_info_vram_total` file, when that could be read.
pub fn determine_gpu_type(vendor: &str, vram_total: Option<&str>) -> (r: Option<GpuType>)
    ensures
        r == spec_gpu_type(vendor@, match vram_total {
            Some(t) => Some(t@),
            None => None,
        }),
{
    let v = to_chars(vendor);
    if str_eq(&v, "0x8086") {
        return Some(GpuType::Integrated);
    }
    match vram_total {
        Some(text) => {
            let t = to_chars(text);
            let tt = trimmed(&t);
            match parse_u64_exec(&tt) {
                Some(vram) => Some(
                    if vram >= 4 * 1024 * 1024 * 1024 {
                        GpuType::Discrete
                    } else {
                        GpuType::Integrated
                    },
                ),
                None => None,
            }
        },
        None => None,
    }
}

/// A row of `nvidia-smi --query-gpu=name,temperature.gpu --format=csv,noheader,nounits`:
/// the name before the first comma, and the temperature text after it, both trimmed.
pub open spec fn spec_nvidia_row(line: Seq<char>) -> (Seq<char>, Option<Seq<char>>) {
    match split_once(line, seq![',']) {
        Some(p) => (trim(p.0), Some(trim(p.1))),
        None => (trim(line), None),
    }
}

pub fn nvidia_smi_row(line: &str) -> (r: (String, Option<String>))
    ensures
        r.0@ == spec_nvidia_row(line@).0,
        r.1 matches Some(t) ==> spec_nvidia_row(line@).1 == Some(t@),
        r.1 is None ==> spec_nvidia_row(line@).1 is None,
{
    let v = to_chars(line);
    let comma = vec![','];
    assert(comma@ =~= seq![',']);
    match split_once_at(&v, &comma) {
        Some((a, b)) => {
            let name = trimmed(&a);
            let temp = trimmed(&b);
            (string_from(&name), Some(string_from(&temp)))
        },
        None => {
            let name = trimmed(&v);
            (string_from(&name), None)
        },
    }
}

/// A thermal zone that measures the CPU: a `thermal_zone*` entry whose type is
/// `x86_pkg_temp` or names the CPU.
pub open spec fn spec_is_cpu_zone(name: Seq<char>, zone_type: Seq<char>) -> bool {
    starts_with(name, "thermal_zone"@) && (trim(zone_type) == "x86_pkg_temp"@ || contains(
        trim(zone_type),
        "cpu"@,
    ))
}

/// Decides from a `/sys/class/thermal` entry's name and the text of its `type` file
/// whether it measures the CPU.
pub fn is_cpu_zone(name: &str, zone_type: &str) -> (b: bool)
    ensures
        b == spec_is_cpu_zone(name@, zone_type@),
{
    let n = to_chars(name);
    let zone = to_chars("thermal_zone");
    if !has_prefix(&n, &zone) {
        return false;
    }
    let t = trimmed(&to_chars(zone_type));
    let cpu = to_chars("cpu");
    str_eq(&t, "x86_pkg_temp") || find(&t, &cpu).is_some()
}

/// A `/sys/class/drm` entry that is a card itself, not one of its connectors.
pub open spec fn spec_is_card(name: Seq<char>) -> bool {
    starts_with(name, "card"@) && !contains(name, seq!['-'])
}

pub fn is_drm_card(name: &str) -> (b: bool)
    ensures
        b == spec_is_card(name@),
{
    let n = to_chars(name);
    let card = to_chars("card");
    let dash = vec!['-'];
    assert(dash@ =~= seq!['-']);
    has_prefix(&n, &card) && find(&n, &dash).is_none()
}

/// The DRM GPUs listed through sysfs: AMD and Intel. NVIDIA cards are read through
/// nvidia-smi instead, and other vendors are skipped.
pub open spec fn spec_drm_vendor_listed(vendor: Seq<char>) -> bool {
    vendor == "0x1002"@ || vendor == "0x8086"@
}

pub fn drm_vendor_listed(vendor: &str) -> (b: bool)
    ensures
        b == spec_drm_vendor_listed(vendor@),
{
    let v = to_chars(vendor);
    str_eq(&v, "0x1002") || str_eq(&v, "0x8086")
}

/// The name of a DRM GPU that lspci could not name.
pub fn default_gpu_name(vendor: &str) -> (s: String)
    ensures
        s@ == if vendor@ == "0x8086"@ {
            "Intel GPU"@
        } else {
            "AMD GPU"@
        },
{
    let v = to_chars(vendor);
    if str_eq(&v, "0x8086") {
        String::from_str("Intel GPU")
    } else {
        String::from_str("AMD GPU")
    }
}


/// The numbers among the words, in order (words that are no number are skipped).
pub open spec fn numbers_of(w: Seq<Seq<char>>) -> Seq<u64>
    decreases w.len(),
{
    if w.len() == 0 {
        Seq::empty()
    } else {
        match parse_u64(w.last()) {
            Some(n) => numbers_of(w.drop_last()).push(n),
            None => numbers_of(w.drop_last()),
        }
    }
}

/// An interface line of `/proc/net/dev`: its name and the received and sent byte
/// counts (the first and ninth numbers after the `:`); `None` for the loopback
/// interface and for lines without a `:` or with fewer than nine numbers.
pub open spec fn spec_net_line(line: Seq<char>) -> Option<(Seq<char>, u64, u64)> {
    match split_once(trim(line), seq![':']) {
        Some(p) => {
            let name = trim(p.0);
            let f = numbers_of(words(p.1));
            if name == "lo"@ || f.len() < 9 {
                None
            } else {
                Some((name, f[0], f[8]))
            }
        },
        None => None,
    }
}

/// The interface lines after the two header lines.
pub open spec fn spec_net_dev(ls: Seq<Seq<char>>) -> Seq<(Seq<char>, u64, u64)>
    decreases ls.len(),
{
    if ls.len() <= 2 {
        Seq::empty()
    } else {
        match spec_net_line(ls.last()) {
            Some(x) => spec_net_dev(ls.drop_last()).push(x),
            None => spec_net_dev(ls.drop_last()),
        }
    }
}

pub open spec fn net_views(r: Seq<(String, u64, u64)>) -> Seq<(Seq<char>, u64, u64)> {
    r.map_values(|x: (String, u64, u64)| (x.0@, x.1, x.2))
}

fn net_line(line: &Vec<char>) -> (r: Option<(String, u64, u64)>)
    ensures
        r matches Some(x) ==> spec_net_line(line@) == Some((x.0@, x.1, x.2)),
        r is None ==> spec_net_line(line@) is None,
{
    let t = trimmed(line);
    let colon = vec![':'];
    assert(colon@ =~= seq![':']);
    let (head, rest) = match split_once_at(&t, &colon) {
        Some(p) => p,
        None => return None,
    };
    let name = trimmed(&head);
    if str_eq(&name, "lo") {
        return None;
    }
    let w = split_words(&rest);
    let mut f: Vec<u64> = Vec::new();
    let mut i: usize = 0;
    assert(views(w@).take(0) =~= Seq::<Seq<char>>::empty());
    while i < w.len()
        invariant
            i <= w@.len(),
            f@ == numbers_of(views(w@).take(i as int)),
        decreases w@.len() - i,
    {
        assert(views(w@).take(i + 1).drop_last() =~= views(w@).take(i as int));
        assert(views(w@).take(i + 1).last() == w@[i as int]@);
        match parse_u64_exec(&w[i]) {
            Some(n) => f.push(n),
            None => {},
        }
        i += 1;
    }
    assert(views(w@).take(w@.len() as int) =~= views(w@));
    if f.len() < 9 {
        return None;
    }
    Some((string_from(&name), f[0], f[8]))
}

/// Reads `/proc/net/dev`: name, received bytes and sent bytes of each interface but
/// loopback, in order.
pub fn parse_net_dev(content: &str) -> (r: Vec<(String, u64, u64)>)
    ensures
        net_views(r@) == spec_net_dev(lines(content@)),
{
    let v = to_chars(content);
    let ranges = line_ranges(&v);
    let ghost ls = lines(v@);
    let mut r: Vec<(String, u64, u64)> = Vec::new();
    let mut k: usize = 0;
    assert(net_views(r@) =~= Seq::<(Seq<char>, u64, u64)>::empty());
    while k < ranges.len()
        invariant
            ranges_hold(v@, ranges@, ls),
            ls == lines(v@),
            k <= ranges@.len(),
            net_views(r@) == spec_net_dev(ls.take(k as int)),
        decreases ranges@.len() - k,
    {
        assert(ls.take(k + 1).drop_last() =~= ls.take(k as int));
        assert(ls.take(k + 1).last() == ls[k as int]);
        if k >= 2 {
            let (lo, hi) = ranges[k];
            let line = slice_of(&v, lo, hi);
            assert(line@ == ls[k as int]);
            let ghost before = net_views(r@);
            match net_line(&line) {
                Some(x) => {
                    r.push(x);
                    assert(net_views(r@) =~= before.push((x.0@, x.1, x.2)));
                },
                None => {},
            }
        } else {
            assert(spec_net_dev(ls.take(k + 1)) =~= Seq::<(Seq<char>, u64, u64)>::empty());
        }
        k += 1;
    }
    assert(ls.take(ranges@.len() as int) =~= ls);
    r
}

/// The first trimmed line that starts with `prefix`.
pub open spec fn first_trimmed_starting_with(ls: Seq<Seq<char>>, prefix: Seq<char>) -> Option<
    Seq<char>,
>
    decreases ls.len(),
{
    if ls.len() == 0 {
        None
    } else if starts_with(trim(ls[0]), prefix) {
        Some(trim(ls[0]))
    } else {
        first_trimmed_starting_with(ls.drop_first(), prefix)
    }
}

/// The IPv4 address in `ip -4 addr show` output: of the first `inet ` line, the
/// second word up to its `/`.
pub open spec fn spec_ipv4(stdout: Seq<char>) -> Option<Seq<char>> {
    match first_trimmed_starting_with(lines(stdout), "inet "@) {
        Some(line) => {
            let w = words(line);
            if w.len() > 1 {
                Some(split_char(w[1], '/')[0])
            } else {
                None
            }
        },
        None => None,
    }
}

pub fn parse_ipv4(stdout: &str) -> (r: Option<String>)
    ensures
        r matches Some(s) ==> spec_ipv4(stdout@) == Some(s@),
        r is None ==> spec_ipv4(stdout@) is None,
{
    let v = to_chars(stdout);
    let ranges = line_ranges(&v);
    let inet = to_chars("inet ");
    let ghost ls = lines(v@);
    let mut k: usize = 0;
    assert(ls.skip(0) =~= ls);
    while k < ranges.len()
        invariant
            ranges_hold(v@, ranges@, ls),
            ls == lines(v@),
            inet@ == "inet "@,
            v@ == stdout@,
            k <= ranges@.len(),
            spec_ipv4(v@) == match first_trimmed_starting_with(ls.skip(k as int), "inet "@) {
                Some(line) => {
                    let w = words(line);
                    if w.len() > 1 {
                        Some(split_char(w[1], '/')[0])
                    } else {
                        None
                    }
                },
                None => None,
            },
        decreases ranges@.len() - k,
    {
        let (lo, hi) = ranges[k];
        let line = slice_of(&v, lo, hi);
        assert(line@ == ls[k as int]);
        assert(ls.skip(k as int)[0] == ls[k as int]);
        assert(ls.skip(k as int).drop_first() =~= ls.skip(k + 1));
        let t = trimmed(&line);
        if has_prefix(&t, &inet) {
            let w = split_words(&t);
            if w.len() > 1 {
                assert(w@[1]@ == views(w@)[1]);
                let p = split_pieces(&w[1], '/');
                proof {
                    crate::strings::lemma_split_char_nonempty(w@[1]@, '/');
                }
                assert(p@[0]@ == views(p@)[0]);
                return Some(string_from(&p[0]));
            }
            return None;
        }
        k += 1;
    }
    assert(ls.skip(ranges@.len() as int) =~= Seq::<Seq<char>>::empty());
    None
}

/// The device name in the first line of `lspci -s <address>` output: what follows the
/// address and the class description (`03:00.0 VGA compatible controller: <name>`),
/// simplified.
pub open spec fn spec_lspci_device(stdout: Seq<char>) -> Option<Seq<char>> {
    let ls = lines(stdout);
    if ls.len() == 0 {
        None
    } else {
        match split_once(ls[0], seq![' ']) {
            Some(a) => match split_once(a.1, ": "@) {
                Some(b) => Some(spec_simplify_lspci_name(trim(b.1))),
                None => None,
            },
            None => None,
        }
    }
}

pub fn lspci_device_name(stdout: &str) -> (r: Option<String>)
    ensures
        r matches Some(s) ==> spec_lspci_device(stdout@) == Some(s@),
        r is None ==> spec_lspci_device(stdout@) is None,
{
    let v = to_chars(stdout);
    let ranges = line_ranges(&v);
    if ranges.len() == 0 {
        return None;
    }
    let (lo, hi) = ranges[0];
    let line = slice_of(&v, lo, hi);
    let space = vec![' '];
    assert(space@ =~= seq![' ']);
    let colon = to_chars(": ");
    let (_, after_addr) = match split_once_at(&line, &space) {
        Some(p) => p,
        None => return None,
    };
    let (_, name_part) = match split_once_at(&after_addr, &colon) {
        Some(p) => p,
        None => return None,
    };
    let t = trimmed(&name_part);
    let ts = string_from(&t);
    Some(simplify_lspci_name(ts.as_str()))
}


/// A numeric field of lsblk's JSON output, which util-linux prints either as a number
/// or as a string depending on its version.
#[derive(Debug)]
pub enum JsonField {
    /// A JSON number, with its value when that is a `u64`.
    Number(Option<u64>),
    Text(String),
    /// Any other JSON value.
    Other,
}

/// One node of `lsblk --json` output: a device, a partition or a holder.
#[derive(Debug)]
pub struct BlockDevice {
    pub name: Option<String>,
    /// lsblk's `type` field.
    pub device_type: Option<String>,
    pub fstype: Option<String>,
    pub mountpoint: Option<String>,
    pub fsused: Option<JsonField>,
    pub fssize: Option<JsonField>,
    pub size: Option<JsonField>,
    pub children: Vec<BlockDevice>,
}

/// A disk row over plain text.
pub struct DiskView {
    pub label: Seq<char>,
    pub filesystem: Seq<char>,
    pub size: u64,
    pub used: Option<u64>,
}

pub open spec fn disk_view(d: DiskInfo) -> DiskView {
    DiskView { label: d.label@, filesystem: d.filesystem@, size: d.size, used: d.used }
}

pub open spec fn disk_views(d: Seq<DiskInfo>) -> Seq<DiskView> {
    d.map_values(|x: DiskInfo| disk_view(x))
}

/// A numeric field as a `u64`: a number that is one, or a string that parses as one.
pub open spec fn spec_json_u64(f: Option<JsonField>) -> Option<u64> {
    match f {
        Some(JsonField::Number(n)) => n,
        Some(JsonField::Text(s)) => parse_u64(s@),
        _ => None,
    }
}

pub fn json_u64(value: &Option<JsonField>) -> (r: Option<u64>)
    ensures
        r == spec_json_u64(*value),
{
    match value {
        Some(JsonField::Number(n)) => *n,
        Some(JsonField::Text(s)) => {
            let v = to_chars(s.as_str());
            parse_u64_exec(&v)
        },
        _ => None,
    }
}

/// A real mount point: not empty and not a pseudo-mount such as `[SWAP]`.
pub open spec fn real_mount(m: Seq<char>) -> bool {
    m.len() > 0 && m[0] != '['
}

/// The row of a mounted node.
pub open spec fn own_row(node: BlockDevice) -> Option<DiskView> {
    match node.mountpoint {
        Some(m) => if real_mount(m@) {
            Some(
                DiskView {
                    label: m@,
                    filesystem: match node.fstype {
                        Some(f) => f@,
                        None => "unknown"@,
                    },
                    size: match spec_json_u64(node.fssize) {
                        Some(n) => n,
                        None => match spec_json_u64(node.size) {
                            Some(n) => n,
                            None => 0,
                        },
                    },
                    used: Some(
                        match spec_json_u64(node.fsused) {
                            Some(n) => n,
                            None => 0,
                        },
                    ),
                },
            )
        } else {
            None
        },
        None => None,
    }
}

/// The rows of every mounted filesystem in the subtree of `node`, the node's own
/// first, then its children's in order.
pub open spec fn mounted_rows(node: BlockDevice) -> Seq<DiskView>
    decreases node,
{
    let own = match own_row(node) {
        Some(r) => seq![r],
        None => Seq::empty(),
    };
    own + children_rows(node.children@, node.children@.len() as int)
}

/// The mounted rows of the first `n` of `nodes`.
pub open spec fn children_rows(nodes: Seq<BlockDevice>, n: int) -> Seq<DiskView>
    decreases nodes, n,
{
    if n <= 0 || n > nodes.len() {
        Seq::empty()
    } else {
        children_rows(nodes, n - 1) + mounted_rows(nodes[n - 1])
    }
}

/// The bare row of an unmounted whole disk.
pub open spec fn unmounted_row(device: BlockDevice) -> Option<DiskView> {
    match (device.device_type, device.name) {
        (Some(t), Some(name)) => if t@ == "disk"@ {
            Some(
                DiskView {
                    label: name@,
                    filesystem: match device.fstype {
                        Some(f) => if f@.len() > 0 {
                            f@ + ", not mounted"@
                        } else {
                            "not mounted"@
                        },
                        None => "not mounted"@,
                    },
                    size: match spec_json_u64(device.size) {
                        Some(n) => n,
                        None => 0,
                    },
                    used: None,
                },
            )
        } else {
            None
        },
        _ => None,
    }
}

/// The rows of one top-level device: its mounted filesystems or, if nothing in it is
/// mounted, the bare row of the disk.
pub open spec fn device_rows(device: BlockDevice) -> Seq<DiskView> {
    let m = mounted_rows(device);
    if m.len() > 0 {
        m
    } else {
        match unmounted_row(device) {
            Some(r) => seq![r],
            None => Seq::empty(),
        }
    }
}

fn own_disk(node: &BlockDevice) -> (r: Option<DiskInfo>)
    ensures
        match own_row(*node) {
            Some(v) => r matches Some(d) && disk_view(d) == v,
            None => r is None,
        },
{
    match &node.mountpoint {
        Some(mount) => {
            let m = to_chars(mount.as_str());
            if m.len() > 0 && m[0] != '[' {
                let size = match json_u64(&node.fssize) {
                    Some(n) => n,
                    None => match json_u64(&node.size) {
                        Some(n) => n,
                        None => 0,
                    },
                };
                let used = match json_u64(&node.fsused) {
                    Some(n) => n,
                    None => 0,
                };
                let filesystem = match &node.fstype {
                    Some(f) => f.clone(),
                    None => String::from_str("unknown"),
                };
                Some(DiskInfo { label: mount.clone(), filesystem, size, used: Some(used) })
            } else {
                None
            }
        },
        None => None,
    }
}

/// Appends a row for every mounted filesystem in the subtree of `node`.
pub fn push_mounted_filesystems(node: &BlockDevice, out: &mut Vec<DiskInfo>)
    ensures
        disk_views(final(out)@) == disk_views(old(out)@) + mounted_rows(*node),
    decreases node,
{
    let ghost start = disk_views(out@);
    match own_disk(node) {
        Some(d) => {
            out.push(d);
        },
        None => {},
    }
    let ghost own = match own_row(*node) {
        Some(r) => seq![r],
        None => Seq::<DiskView>::empty(),
    };
    assert(disk_views(out@) =~= start + own);
    let mut i: usize = 0;
    while i < node.children.len()
        invariant
            i <= node.children@.len(),
            disk_views(out@) == start + own + children_rows(node.children@, i as int),
        decreases node.children@.len() - i,
    {
        assert(decreases_to!(*node => node.children@[i as int]));
        push_mounted_filesystems(&node.children[i], out);
        i += 1;
        assert(disk_views(out@) =~= start + own + children_rows(node.children@, i as int));
    }
    assert(disk_views(out@) =~= start + mounted_rows(*node));
}

fn unmounted_disk(device: &BlockDevice) -> (r: Option<DiskInfo>)
    ensures
        match unmounted_row(*device) {
            Some(v) => r matches Some(d) && disk_view(d) == v,
            None => r is None,
        },
{
    match (&device.device_type, &device.name) {
        (Some(t), Some(name)) => {
            let tv = to_chars(t.as_str());
            if !str_eq(&tv, "disk") {
                return None;
            }
            let filesystem = match &device.fstype {
                Some(f) => if f.unicode_len() > 0 {
                    let mut s = f.clone();
                    s.append(", not mounted");
                    s
                } else {
                    String::from_str("not mounted")
                },
                None => String::from_str("not mounted"),
            };
            let size = match json_u64(&device.size) {
                Some(n) => n,
                None => 0,
            };
            Some(DiskInfo { label: name.clone(), filesystem, size, used: None })
        },
        _ => None,
    }
}

/// Appends the rows of one top-level device (see `device_rows`).
pub fn collect_disk_entries(device: &BlockDevice, out: &mut Vec<DiskInfo>)
    ensures
        disk_views(final(out)@) == disk_views(old(out)@) + device_rows(*device),
{
    let before = out.len();
    let ghost start = disk_views(out@);
    push_mounted_filesystems(device, out);
    assert(start.len() == before);
    assert(disk_views(out@).len() == out@.len());
    if out.len() == before {
        assert(mounted_rows(*device).len() == 0);
        match unmounted_disk(device) {
            Some(disk) => {
                out.push(disk);
                assert(disk_views(out@) =~= start + seq![disk_view(disk)]);
            },
            None => {
                assert(disk_views(out@) =~= start);
            },
        }
    } else {
        assert(mounted_rows(*device).len() > 0);
    }
}

/// Whether some earlier mounted row has the label of row `i`.
pub open spec fn repeats_mount(rows: Seq<DiskView>, i: int) -> bool {
    exists|j: int| 0 <= j < i && rows[j].used is Some && rows[j].label == rows[i].label
}

/// The rows without repeated mounted rows: a multi-device filesystem (such as btrfs)
/// reports its mount point on each member, and only the first row of it stays.
pub open spec fn drop_repeated_mounts(rows: Seq<DiskView>) -> Seq<DiskView>
    decreases rows.len(),
{
    if rows.len() == 0 {
        Seq::empty()
    } else if rows.last().used is Some && repeats_mount(rows, rows.len() - 1) {
        drop_repeated_mounts(rows.drop_last())
    } else {
        drop_repeated_mounts(rows.drop_last()).push(rows.last())
    }
}

pub open spec fn all_device_rows(devices: Seq<BlockDevice>) -> Seq<DiskView>
    decreases devices.len(),
{
    if devices.len() == 0 {
        Seq::empty()
    } else {
        all_device_rows(devices.drop_last()) + device_rows(devices.last())
    }
}

/// The disk rows of lsblk's `blockdevices`: each device's rows in order, then the
/// repeated mounted rows dropped.
pub open spec fn spec_disks(devices: Seq<BlockDevice>) -> Seq<DiskView> {
    drop_repeated_mounts(all_device_rows(devices))
}

/// After dropping repeated mounts, no two mounted rows share a mount point.
pub proof fn lemma_mounts_unique(rows: Seq<DiskView>)
    ensures
        forall|a: int, b: int|
            0 <= a < b < drop_repeated_mounts(rows).len() && (#[trigger] drop_repeated_mounts(
                rows,
            )[a]).used is Some && (#[trigger] drop_repeated_mounts(rows)[b]).used is Some
                ==> drop_repeated_mounts(rows)[a].label != drop_repeated_mounts(rows)[b].label,
    decreases rows.len(),
{
    if rows.len() > 0 {
        let p = rows.drop_last();
        lemma_mounts_unique(p);
        lemma_kept_rows_from(p);
        let d = drop_repeated_mounts(rows);
        if !(rows.last().used is Some && repeats_mount(rows, rows.len() - 1)) {
            assert forall|a: int, b: int|
                0 <= a < b < d.len() && (#[trigger] d[a]).used is Some && (#[trigger] d[b]).used
                    is Some implies d[a].label != d[b].label by {
                if b == d.len() - 1 {
                    let j = choose|j: int|
                        0 <= j < p.len() && drop_repeated_mounts(p)[a] == p[j];
                    assert(d[a] == drop_repeated_mounts(p)[a]);
                    assert(rows[j] == p[j]);
                    if d[a].label == d[b].label {
                        assert(repeats_mount(rows, rows.len() - 1));
                    }
                } else {
                    assert(d[a] == drop_repeated_mounts(p)[a]);
                    assert(d[b] == drop_repeated_mounts(p)[b]);
                }
            }
        }
    }
}

/// Every kept row is one of the rows.
pub proof fn lemma_kept_rows_from(rows: Seq<DiskView>)
    ensures
        forall|a: int|
            0 <= a < drop_repeated_mounts(rows).len() ==> exists|j: int|
                0 <= j < rows.len() && #[trigger] drop_repeated_mounts(rows)[a] == rows[j],
    decreases rows.len(),
{
    if rows.len() > 0 {
        let p = rows.drop_last();
        lemma_kept_rows_from(p);
        let d = drop_repeated_mounts(rows);
        assert forall|a: int| 0 <= a < d.len() implies exists|j: int|
            0 <= j < rows.len() && #[trigger] d[a] == rows[j] by {
            if a < drop_repeated_mounts(p).len() {
                let j = choose|j: int| 0 <= j < p.len() && drop_repeated_mounts(p)[a] == p[j];
                assert(d[a] == drop_repeated_mounts(p)[a]);
                assert(rows[j] == p[j]);
            } else {
                assert(d[a] == rows[rows.len() - 1]);
            }
        }
    }
}

/// Rows of unmounted disks are never dropped.
pub proof fn lemma_unmounted_rows_kept(rows: Seq<DiskView>, i: int)
    requires
        0 <= i < rows.len(),
        rows[i].used is None,
    ensures
        exists|a: int| 0 <= a < drop_repeated_mounts(rows).len() && drop_repeated_mounts(rows)[a]
            == rows[i],
    decreases rows.len(),
{
    let p = rows.drop_last();
    if i == rows.len() - 1 {
        let d = drop_repeated_mounts(rows);
        assert(d[d.len() - 1] == rows[i]);
    } else {
        lemma_unmounted_rows_kept(p, i);
        let a = choose|a: int| 0 <= a < drop_repeated_mounts(p).len() && drop_repeated_mounts(p)[a] == p[i];
        let d = drop_repeated_mounts(rows);
        assert(d[a] == drop_repeated_mounts(p)[a]);
    }
}

pub fn disks_info(devices: &Vec<BlockDevice>) -> (r: Vec<DiskInfo>)
    ensures
        disk_views(r@) == spec_disks(devices@),
{
    let mut rows: Vec<DiskInfo> = Vec::new();
    let mut i: usize = 0;
    assert(devices@.take(0) =~= Seq::<BlockDevice>::empty());
    assert(disk_views(rows@) =~= Seq::<DiskView>::empty());
    while i < devices.len()
        invariant
            i <= devices@.len(),
            disk_views(rows@) == all_device_rows(devices@.take(i as int)),
        decreases devices@.len() - i,
    {
        collect_disk_entries(&devices[i], &mut rows);
        assert(devices@.take(i + 1).drop_last() =~= devices@.take(i as int));
        assert(devices@.take(i + 1).last() == devices@[i as int]);
        i += 1;
    }
    assert(devices@.take(devices@.len() as int) =~= devices@);
    let ghost all = disk_views(rows@);
    let mut kept: Vec<DiskInfo> = Vec::new();
    let mut k: usize = 0;
    assert(all.take(0) =~= Seq::<DiskView>::empty());
    assert(disk_views(kept@) =~= Seq::<DiskView>::empty());
    while k < rows.len()
        invariant
            k <= rows@.len(),
            all == disk_views(rows@),
            disk_views(kept@) == drop_repeated_mounts(all.take(k as int)),
        decreases rows@.len() - k,
    {
        let ghost t = all.take(k + 1);
        assert(t.drop_last() =~= all.take(k as int));
        assert(t.last() == all[k as int]);
        let mut repeated = false;
        if rows[k].used.is_some() {
            let mut j: usize = 0;
            while j < k
                invariant
                    j <= k < rows@.len(),
                    all == disk_views(rows@),
                    t == all.take(k + 1),
                    repeated <==> exists|m: int|
                        0 <= m < j && t[m].used is Some && t[m].label == t[k as int].label,
                decreases k - j,
            {
                assert(t[j as int] == all[j as int]);
                if rows[j].used.is_some() && rows[j].label == rows[k].label {
                    repeated = true;
                }
                j += 1;
            }
        }
        let ghost before = disk_views(kept@);
        if !repeated {
            let d = DiskInfo {
                label: rows[k].label.clone(),
                filesystem: rows[k].filesystem.clone(),
                size: rows[k].size,
                used: rows[k].used,
            };
            kept.push(d);
            assert(disk_views(kept@) =~= before.push(all[k as int]));
        }
        k += 1;
    }
    assert(all.take(rows@.len() as int) =~= all);
    kept
}

} // verus!

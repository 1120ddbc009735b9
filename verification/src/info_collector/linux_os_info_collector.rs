//! What the OS summary reads out of `/etc/os-release`, `/proc/version` and DMI data, and
//! how it words ages and uptimes.

use vstd::prelude::*;
use crate::decimal::{decimal, push_decimal};
use crate::info_collector::linux_hardware_info_collector::first_starting_with;
use crate::smart_check::basic_device_info::{eq_ignoring_case, same_ignoring_case};
use crate::strings::{
    has_prefix, line_ranges, lines, ranges_hold, slice_of, split_words, starts_with, str_eq,
    string_from, to_chars, trim, trimmed, views, words,
};
use vstd::string::StringExecFns;

verus! {

/// `s` with every leading copy of `pat` removed (`str::trim_start_matches`).
pub open spec fn strip_all_prefix(s: Seq<char>, pat: Seq<char>) -> Seq<char>
    decreases s.len(),
{
    if pat.len() > 0 && starts_with(s, pat) {
        strip_all_prefix(s.skip(pat.len() as int), pat)
    } else {
        s
    }
}

/// `s` without `c` at either end (`str::trim_matches(c)`).
pub open spec fn trim_char(s: Seq<char>, c: char) -> Seq<char>
    decreases s.len(),
{
    if s.len() > 0 && s[0] == c {
        trim_char(s.drop_first(), c)
    } else if s.len() > 0 && s.last() == c {
        trim_char(s.drop_last(), c)
    } else {
        s
    }
}

/// The distribution's name: the value of the first `PRETTY_NAME=` line of
/// `/etc/os-release`, without its quotes.
pub open spec fn spec_os_name(content: Seq<char>) -> Option<Seq<char>> {
    match first_starting_with(lines(content), "PRETTY_NAME="@) {
        Some(line) => Some(trim_char(strip_all_prefix(line, "PRETTY_NAME="@), '"')),
        None => None,
    }
}

fn find_first_line(v: &Vec<char>, key: &str) -> (r: Option<Vec<char>>)
    ensures
        r matches Some(l) ==> first_starting_with(lines(v@), key@) == Some(l@),
        r is None ==> first_starting_with(lines(v@), key@) is None,
{
    let ranges = line_ranges(v);
    let keyv = to_chars(key);
    let ghost ls = lines(v@);
    let mut k: usize = 0;
    assert(ls.skip(0) =~= ls);
    while k < ranges.len()
        invariant
            ranges_hold(v@, ranges@, ls),
            ls == lines(v@),
            keyv@ == key@,
            k <= ranges@.len(),
            first_starting_with(ls, key@) == first_starting_with(ls.skip(k as int), key@),
        decreases ranges@.len() - k,
    {
        let (lo, hi) = ranges[k];
        let line = slice_of(v, lo, hi);
        assert(line@ == ls[k as int]);
        assert(ls.skip(k as int)[0] == ls[k as int]);
        assert(ls.skip(k as int).drop_first() =~= ls.skip(k + 1));
        if has_prefix(&line, &keyv) {
            return Some(line);
        }
        k += 1;
    }
    assert(ls.skip(ranges@.len() as int) =~= Seq::<Seq<char>>::empty());
    None
}

pub fn os_name(content: &str) -> (r: Option<String>)
    ensures
        r matches Some(s) ==> spec_os_name(content@) == Some(s@),
        r is None ==> spec_os_name(content@) is None,
{
    let v = to_chars(content);
    let line = match find_first_line(&v, "PRETTY_NAME=") {
        Some(l) => l,
        None => return None,
    };
    let key = to_chars("PRETTY_NAME=");
    proof {
        reveal_strlit("PRETTY_NAME=");
    }
    let ghost line0 = line@;
    let mut rest = line;
    while has_prefix(&rest, &key)
        invariant
            key@ == "PRETTY_NAME="@,
            key@.len() > 0,
            strip_all_prefix(rest@, key@) == strip_all_prefix(line0, key@),
        decreases rest@.len(),
    {
        let n = rest.len();
        let ghost before = rest@;
        rest = slice_of(&rest, key.len(), n);
        assert(rest@ =~= before.skip(key@.len() as int));
    }
    let ghost stripped = rest@;
    assert(stripped == strip_all_prefix(line0, key@));
    let mut a: usize = 0;
    let mut b: usize = rest.len();
    assert(rest@.subrange(0, b as int) =~= stripped);
    while a < b && rest[a] == '"'
        invariant
            a <= b == rest@.len(),
            trim_char(stripped, '"') == trim_char(rest@.subrange(a as int, b as int), '"'),
            rest@ == stripped,
        decreases b - a,
    {
        assert(rest@.subrange(a as int, b as int).drop_first() =~= rest@.subrange(a + 1, b as int));
        a += 1;
    }
    while b > a && rest[b - 1] == '"'
        invariant
            a <= b <= rest@.len(),
            rest@ == stripped,
            a < b ==> rest@[a as int] != '"',
            trim_char(stripped, '"') == trim_char(rest@.subrange(a as int, b as int), '"'),
        decreases b - a,
    {
        assert(rest@.subrange(a as int, b as int).drop_last() =~= rest@.subrange(a as int, b - 1));
        b -= 1;
    }
    Some(crate::strings::string_of(&rest, a, b))
}


/// The kernel release: the third word of `/proc/version`.
pub open spec fn spec_kernel(content: Seq<char>) -> Option<Seq<char>> {
    let w = words(content);
    if w.len() > 2 {
        Some(w[2])
    } else {
        None
    }
}

pub fn kernel_release(content: &str) -> (r: Option<String>)
    ensures
        r matches Some(s) ==> spec_kernel(content@) == Some(s@),
        r is None ==> spec_kernel(content@) is None,
{
    let v = to_chars(content);
    let w = split_words(&v);
    if w.len() > 2 {
        assert(w@[2]@ == views(w@)[2]);
        Some(string_from(&w[2]))
    } else {
        None
    }
}

/// The text is, up to the case of ASCII letters (`str::to_ascii_lowercase`), one of the
/// placeholders firmware leaves in DMI fields.
pub open spec fn spec_is_dmi_placeholder(s: Seq<char>) -> bool {
    ||| same_ignoring_case(s, "system product name"@)
    ||| same_ignoring_case(s, "system version"@)
    ||| same_ignoring_case(s, "to be filled by o.e.m."@)
    ||| same_ignoring_case(s, "default string"@)
    ||| same_ignoring_case(s, "not specified"@)
    ||| same_ignoring_case(s, "none"@)
    ||| same_ignoring_case(s, "n/a"@)
}

fn matches_word(v: &Vec<char>, word: &str) -> (b: bool)
    ensures
        b == same_ignoring_case(v@, word@),
{
    let w = to_chars(word);
    eq_ignoring_case(v, &w)
}

pub fn is_dmi_placeholder(s: &str) -> (b: bool)
    ensures
        b == spec_is_dmi_placeholder(s@),
{
    let v = to_chars(s);
    matches_word(&v, "system product name") || matches_word(&v, "system version")
        || matches_word(&v, "to be filled by o.e.m.") || matches_word(&v, "default string")
        || matches_word(&v, "not specified") || matches_word(&v, "none") || matches_word(
        &v,
        "n/a",
    )
}

/// A DMI field as it is used: trimmed, and empty when missing, blank or a placeholder.
pub open spec fn dmi_value(text: Option<Seq<char>>) -> Seq<char> {
    match text {
        Some(t) => if trim(t).len() > 0 && !spec_is_dmi_placeholder(trim(t)) {
            trim(t)
        } else {
            Seq::empty()
        },
        None => Seq::empty(),
    }
}

/// The host's model: product name and version, or the name alone, or nothing.
pub open spec fn spec_host(name: Option<Seq<char>>, version: Option<Seq<char>>) -> Option<
    Seq<char>,
> {
    let n = dmi_value(name);
    let v = dmi_value(version);
    if n.len() > 0 && v.len() > 0 {
        Some(n + " "@ + v)
    } else if n.len() > 0 {
        Some(n)
    } else {
        None
    }
}

/// `s` is `word` with some of its lower-case ASCII letters written as capitals.
pub open spec fn reads_as(s: Seq<char>, word: Seq<char>) -> bool {
    &&& s.len() == word.len()
    &&& forall|i: int|
        0 <= i < word.len() ==> s[i] == word[i] || ('A' <= s[i] <= 'Z' && (s[i] as u32) + 32
            == word[i] as u32)
}

/// One of the firmware placeholders `system product name`, `system version`, `to be filled
/// by o.e.m.`, `default string`, `not specified`, `none` and `n/a`, in any ASCII case.
pub open spec fn is_listed_placeholder(s: Seq<char>) -> bool {
    ||| reads_as(s, "system product name"@)
    ||| reads_as(s, "system version"@)
    ||| reads_as(s, "to be filled by o.e.m."@)
    ||| reads_as(s, "default string"@)
    ||| reads_as(s, "not specified"@)
    ||| reads_as(s, "none"@)
    ||| reads_as(s, "n/a"@)
}

/// Exactly the listed firmware placeholders, in any ASCII case, are placeholders; a DMI
/// product name or version that reads as one (once trimmed) is dropped, so it never
/// reaches the host line.
pub proof fn lemma_placeholders_never_shown(
    text: Seq<char>,
    name: Option<Seq<char>>,
    version: Option<Seq<char>>,
)
    ensures
        spec_is_dmi_placeholder(trim(text)) <==> is_listed_placeholder(trim(text)),
        is_listed_placeholder(trim(text)) ==> dmi_value(Some(text)) == Seq::<char>::empty(),
        is_listed_placeholder(trim(text)) ==> spec_host(name, Some(text)) == spec_host(name, None),
        is_listed_placeholder(trim(text)) ==> spec_host(Some(text), version) is None,
{
}

pub open spec fn str_opt(s: Option<&str>) -> Option<Seq<char>> {
    match s {
        Some(x) => Some(x@),
        None => None,
    }
}

fn dmi_field(text: Option<&str>) -> (r: String)
    ensures
        r@ == dmi_value(str_opt(text)),
{
    match text {
        Some(t) => {
            let v = to_chars(t);
            let tv = trimmed(&v);
            let ts = string_from(&tv);
            if tv.len() > 0 && !is_dmi_placeholder(ts.as_str()) {
                ts
            } else {
                String::new()
            }
        },
        None => String::new(),
    }
}

/// Decides the host line from the texts of DMI `product_name` and `product_version`,
/// when they could be read.
pub fn host_model(name: Option<&str>, version: Option<&str>) -> (r: Option<String>)
    ensures
        r matches Some(s) ==> spec_host(str_opt(name), str_opt(version)) == Some(s@),
        r is None ==> spec_host(str_opt(name), str_opt(version)) is None,
{
    let n = dmi_field(name);
    let v = dmi_field(version);
    let n_empty = n.unicode_len() == 0;
    let v_empty = v.unicode_len() == 0;
    if !n_empty && !v_empty {
        let mut s = n;
        s.append(" ");
        s.append(v.as_str());
        Some(s)
    } else if !n_empty {
        Some(n)
    } else {
        None
    }
}

/// An age of `days` days, worded in years of 365 days and months of 30 days.
pub open spec fn spec_age_text(total_days: nat) -> Seq<char> {
    let years = total_days / 365;
    let months = (total_days % 365) / 30;
    let days = total_days % 30;
    if years == 0 && months == 0 {
        decimal(days) + " days"@
    } else if years == 0 {
        decimal(months) + " months, "@ + decimal(days) + " days"@
    } else {
        decimal(years) + " years, "@ + decimal(months) + " months, "@ + decimal(days) + " days"@
    }
}

/// The age of the installation, given the seconds since the root filesystem was created.
pub fn os_age_text(elapsed_secs: u64) -> (s: String)
    ensures
        s@ == spec_age_text((elapsed_secs / 86400) as nat),
{
    let total_days = elapsed_secs / 86400;
    let years = total_days / 365;
    let months = (total_days % 365) / 30;
    let days = total_days % 30;
    let mut s = String::new();
    if years == 0 && months == 0 {
        push_decimal(&mut s, days as u128);
        s.append(" days");
    } else if years == 0 {
        push_decimal(&mut s, months as u128);
        s.append(" months, ");
        push_decimal(&mut s, days as u128);
        s.append(" days");
    } else {
        push_decimal(&mut s, years as u128);
        s.append(" years, ");
        push_decimal(&mut s, months as u128);
        s.append(" months, ");
        push_decimal(&mut s, days as u128);
        s.append(" days");
    }
    s
}

/// An uptime of `total_minutes` minutes, worded in days, hours and minutes.
pub open spec fn spec_uptime_text(total_minutes: nat) -> Seq<char> {
    let days = total_minutes / 1440;
    let hours = (total_minutes % 1440) / 60;
    let minutes = total_minutes % 60;
    if days == 0 && hours == 0 {
        decimal(minutes) + " mins"@
    } else if days == 0 {
        decimal(hours) + " hours, "@ + decimal(minutes) + " mins"@
    } else {
        decimal(days) + " days, "@ + decimal(hours) + " hours, "@ + decimal(minutes) + " mins"@
    }
}

/// The uptime, given the whole seconds since boot.
pub fn uptime_text(seconds: u64) -> (s: String)
    ensures
        s@ == spec_uptime_text((seconds / 60) as nat),
{
    let total_minutes = seconds / 60;
    let days = total_minutes / 1440;
    let hours = (total_minutes % 1440) / 60;
    let minutes = total_minutes % 60;
    let mut s = String::new();
    if days == 0 && hours == 0 {
        push_decimal(&mut s, minutes as u128);
        s.append(" mins");
    } else if days == 0 {
        push_decimal(&mut s, hours as u128);
        s.append(" hours, ");
        push_decimal(&mut s, minutes as u128);
        s.append(" mins");
    } else {
        push_decimal(&mut s, days as u128);
        s.append(" days, ");
        push_decimal(&mut s, hours as u128);
        s.append(" hours, ");
        push_decimal(&mut s, minutes as u128);
        s.append(" mins");
    }
    s
}

} // verus!

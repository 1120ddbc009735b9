//! The result of one `btrfs scrub status -R <mount>`.

use vstd::prelude::*;
use crate::btrfs::btrfs_error::BtrfsError;
use crate::decimal::{decimal, parse_u64, parse_u64_exec, push_decimal};
use crate::text_utils::{format_bytes, spec_format_bytes};
use crate::strings::{
    join, join_strings,
    line_ranges, lines, ranges_hold, slice_of, split_char, split_once, split_once_at,
    split_pieces, str_eq, string_from, to_chars, trim, trimmed, views,
};
use vstd::string::StringExecFns;

verus! {

#[derive(Debug, Clone)]
pub enum ScrubStatus {
    Running,
    Finished,
    Aborted,
    Interrupted,
    Unknown(String),
}

/// A scrub status over plain text.
pub enum ScrubStatusView {
    Running,
    Finished,
    Aborted,
    Interrupted,
    Unknown(Seq<char>),
}

impl View for ScrubStatus {
    type V = ScrubStatusView;

    open spec fn view(&self) -> ScrubStatusView {
        match self {
            ScrubStatus::Running => ScrubStatusView::Running,
            ScrubStatus::Finished => ScrubStatusView::Finished,
            ScrubStatus::Aborted => ScrubStatusView::Aborted,
            ScrubStatus::Interrupted => ScrubStatusView::Interrupted,
            ScrubStatus::Unknown(s) => ScrubStatusView::Unknown(s@),
        }
    }
}

#[derive(Debug, Clone)]
pub struct ScrubResult {
    pub uuid: String,
    pub started: String,
    pub status: ScrubStatus,
    /// Length of the scrub, in seconds.
    pub duration: u64,
    pub data_bytes_scrubbed: u64,
    pub tree_bytes_scrubbed: u64,
    pub read_errors: u64,
    pub csum_errors: u64,
    pub verify_errors: u64,
    pub super_errors: u64,
    pub corrected_errors: u64,
    pub uncorrectable_errors: u64,
}

pub struct ScrubResultView {
    pub uuid: Seq<char>,
    pub started: Seq<char>,
    pub status: ScrubStatusView,
    pub duration: u64,
    pub data_bytes_scrubbed: u64,
    pub tree_bytes_scrubbed: u64,
    pub read_errors: u64,
    pub csum_errors: u64,
    pub verify_errors: u64,
    pub super_errors: u64,
    pub corrected_errors: u64,
    pub uncorrectable_errors: u64,
}

impl View for ScrubResult {
    type V = ScrubResultView;

    open spec fn view(&self) -> ScrubResultView {
        ScrubResultView {
            uuid: self.uuid@,
            started: self.started@,
            status: self.status@,
            duration: self.duration,
            data_bytes_scrubbed: self.data_bytes_scrubbed,
            tree_bytes_scrubbed: self.tree_bytes_scrubbed,
            read_errors: self.read_errors,
            csum_errors: self.csum_errors,
            verify_errors: self.verify_errors,
            super_errors: self.super_errors,
            corrected_errors: self.corrected_errors,
            uncorrectable_errors: self.uncorrectable_errors,
        }
    }
}

/// The `key: value` pairs of the given lines, trimmed, in line order; a line without
/// `:` is skipped, and a line splits at its first `:`.
pub open spec fn key_values(ls: Seq<Seq<char>>) -> Seq<(Seq<char>, Seq<char>)>
    decreases ls.len(),
{
    if ls.len() == 0 {
        Seq::empty()
    } else {
        let p = key_values(ls.drop_last());
        match split_once(ls.last(), seq![':']) {
            Some(kv) => p.push((trim(kv.0), trim(kv.1))),
            None => p,
        }
    }
}

/// The value of `key`: the last pair with that key wins.
pub open spec fn lookup(kv: Seq<(Seq<char>, Seq<char>)>, key: Seq<char>) -> Option<Seq<char>>
    decreases kv.len(),
{
    if kv.len() == 0 {
        None
    } else if kv.last().0 == key {
        Some(kv.last().1)
    } else {
        lookup(kv.drop_last(), key)
    }
}

pub open spec fn output_fields(output: Seq<char>) -> Seq<(Seq<char>, Seq<char>)> {
    key_values(lines(output))
}

pub open spec fn spec_field(kv: Seq<(Seq<char>, Seq<char>)>, key: Seq<char>) -> Result<
    Seq<char>,
    Seq<char>,
> {
    match lookup(kv, key) {
        Some(v) => Ok(v),
        None => Err("missing field `"@ + key + "`"@),
    }
}

pub open spec fn spec_number(kv: Seq<(Seq<char>, Seq<char>)>, key: Seq<char>) -> Result<
    u64,
    Seq<char>,
> {
    match spec_field(kv, key) {
        Ok(v) => match parse_u64(v) {
            Some(n) => Ok(n),
            None => Err("`"@ + key + "` is not a valid number"@),
        },
        Err(e) => Err(e),
    }
}

/// The status that a `Status:` value names.
pub open spec fn spec_parse_status(v: Seq<char>) -> ScrubStatusView {
    if v == "running"@ {
        ScrubStatusView::Running
    } else if v == "finished"@ {
        ScrubStatusView::Finished
    } else if v == "aborted"@ {
        ScrubStatusView::Aborted
    } else if v == "interrupted"@ {
        ScrubStatusView::Interrupted
    } else {
        ScrubStatusView::Unknown(v)
    }
}

/// Seconds in an `H:MM:SS` value: exactly three `:`-separated numbers.
pub open spec fn spec_parse_duration(v: Seq<char>) -> Result<nat, Seq<char>> {
    let p = split_char(v, ':');
    if p.len() == 3 && parse_u64(p[0]) is Some && parse_u64(p[1]) is Some && parse_u64(
        p[2],
    ) is Some {
        Ok(
            (parse_u64(p[0])->0 * 3600 + parse_u64(p[1])->0 * 60 + parse_u64(
                p[2],
            )->0) as nat,
        )
    } else {
        Err("invalid duration `"@ + v + "`"@)
    }
}

/// The parse reaches a duration that does not fit in a `u64` (where `ScrubResult::parse`
/// would overflow).
pub open spec fn duration_overflows(output: Seq<char>) -> bool {
    let kv = output_fields(output);
    &&& spec_field(kv, "UUID"@) is Ok
    &&& spec_field(kv, "Scrub started"@) is Ok
    &&& spec_field(kv, "Status"@) is Ok
    &&& spec_field(kv, "Duration"@) matches Ok(d) && spec_parse_duration(d) matches Ok(secs)
        && secs > u64::MAX
}

/// What `ScrubResult::parse` makes of `output`: the fields are read in declaration order
/// and the first one that is missing or malformed gives the error.
pub open spec fn spec_scrub_parse(output: Seq<char>) -> Result<ScrubResultView, Seq<char>> {
    let kv = output_fields(output);
    match spec_field(kv, "UUID"@) {
        Err(e) => Err(e),
        Ok(uuid) => match spec_field(kv, "Scrub started"@) {
            Err(e) => Err(e),
            Ok(started) => match spec_field(kv, "Status"@) {
                Err(e) => Err(e),
                Ok(status) => match spec_field(kv, "Duration"@) {
                    Err(e) => Err(e),
                    Ok(dur) => match spec_parse_duration(dur) {
                        Err(e) => Err(e),
                        Ok(secs) => spec_scrub_counters(
                            kv,
                            uuid,
                            started,
                            spec_parse_status(status),
                            secs as u64,
                        ),
                    },
                },
            },
        },
    }
}

pub open spec fn spec_scrub_counters(
    kv: Seq<(Seq<char>, Seq<char>)>,
    uuid: Seq<char>,
    started: Seq<char>,
    status: ScrubStatusView,
    duration: u64,
) -> Result<ScrubResultView, Seq<char>> {
    match spec_number(kv, "data_bytes_scrubbed"@) {
        Err(e) => Err(e),
        Ok(data) => match spec_number(kv, "tree_bytes_scrubbed"@) {
            Err(e) => Err(e),
            Ok(tree) => match spec_number(kv, "read_errors"@) {
                Err(e) => Err(e),
                Ok(read) => match spec_number(kv, "csum_errors"@) {
                    Err(e) => Err(e),
                    Ok(csum) => match spec_number(kv, "verify_errors"@) {
                        Err(e) => Err(e),
                        Ok(verify) => match spec_number(kv, "super_errors"@) {
                            Err(e) => Err(e),
                            Ok(sup) => match spec_number(kv, "corrected_errors"@) {
                                Err(e) => Err(e),
                                Ok(corrected) => match spec_number(kv, "uncorrectable_errors"@) {
                                    Err(e) => Err(e),
                                    Ok(uncorrectable) => Ok(
                                        ScrubResultView {
                                            uuid,
                                            started,
                                            status,
                                            duration,
                                            data_bytes_scrubbed: data,
                                            tree_bytes_scrubbed: tree,
                                            read_errors: read,
                                            csum_errors: csum,
                                            verify_errors: verify,
                                            super_errors: sup,
                                            corrected_errors: corrected,
                                            uncorrectable_errors: uncorrectable,
                                        },
                                    ),
                                },
                            },
                        },
                    },
                },
            },
        },
    }
}

pub open spec fn kv_views(kv: Seq<(Vec<char>, Vec<char>)>) -> Seq<(Seq<char>, Seq<char>)> {
    kv.map_values(|p: (Vec<char>, Vec<char>)| (p.0@, p.1@))
}

/// The trimmed `key: value` pairs of the lines of `output`.
pub fn key_value_pairs(output: &str) -> (kv: Vec<(Vec<char>, Vec<char>)>)
    ensures
        kv_views(kv@) == output_fields(output@),
{
    let v = to_chars(output);
    let r = line_ranges(&v);
    let colon = vec![':'];
    let ghost ls = lines(v@);
    let mut kv: Vec<(Vec<char>, Vec<char>)> = Vec::new();
    let mut k: usize = 0;
    assert(ls.take(0) =~= Seq::<Seq<char>>::empty());
    assert(kv_views(kv@) =~= Seq::<(Seq<char>, Seq<char>)>::empty());
    while k < r.len()
        invariant
            ranges_hold(v@, r@, ls),
            ls == lines(v@),
            colon@ == seq![':'],
            k <= r@.len(),
            kv_views(kv@) == key_values(ls.take(k as int)),
        decreases r@.len() - k,
    {
        let line = slice_of(&v, r[k].0, r[k].1);
        assert(line@ == ls[k as int]);
        assert(ls.take(k + 1).drop_last() =~= ls.take(k as int));
        assert(ls.take(k + 1).last() == ls[k as int]);
        let ghost before = kv_views(kv@);
        match split_once_at(&line, &colon) {
            Some(parts) => {
                let key = trimmed(&parts.0);
                let value = trimmed(&parts.1);
                kv.push((key, value));
                assert(kv_views(kv@) =~= before.push((key@, value@)));
            },
            None => {},
        }
        k += 1;
    }
    assert(ls.take(r@.len() as int) =~= ls);
    kv
}

/// The value of `key` in `kv`, the last pair with that key winning.
pub fn lookup_exec(kv: &Vec<(Vec<char>, Vec<char>)>, key: &str) -> (r: Option<Vec<char>>)
    ensures
        r matches Some(v) ==> lookup(kv_views(kv@), key@) == Some(v@),
        r is None ==> lookup(kv_views(kv@), key@) is None,
{
    let keyv = to_chars(key);
    let mut i = kv.len();
    assert(kv@.take(kv@.len() as int) =~= kv@);
    while i > 0
        invariant
            i <= kv@.len(),
            keyv@ == key@,
            lookup(kv_views(kv@), key@) == lookup(kv_views(kv@.take(i as int)), key@),
        decreases i,
    {
        let ghost t = kv_views(kv@.take(i as int));
        assert(t.last() == (kv@[i - 1].0@, kv@[i - 1].1@));
        assert(t.drop_last() =~= kv_views(kv@.take(i - 1)));
        if crate::strings::same_chars(&kv[i - 1].0, &keyv) {
            let v = slice_of(&kv[i - 1].1, 0, kv[i - 1].1.len());
            assert(v@ =~= kv@[i - 1].1@);
            return Some(v);
        }
        i -= 1;
    }
    assert(kv_views(kv@.take(0)) =~= Seq::<(Seq<char>, Seq<char>)>::empty());
    None
}

/// The value of `key`, or the error that names the missing field.
fn field(kv: &Vec<(Vec<char>, Vec<char>)>, key: &str) -> (r: Result<Vec<char>, BtrfsError>)
    ensures
        match spec_field(kv_views(kv@), key@) {
            Ok(v) => r matches Ok(x) && x@ == v,
            Err(m) => r matches Err(BtrfsError::FormatError(x)) && x@ == m,
        },
{
    match lookup_exec(kv, key) {
        Some(v) => Ok(v),
        None => {
            let mut m = String::from_str("missing field `");
            m.append(key);
            m.append("`");
            Err(BtrfsError::FormatError(m))
        },
    }
}

/// The value of `key` as a number.
fn number(kv: &Vec<(Vec<char>, Vec<char>)>, key: &str) -> (r: Result<u64, BtrfsError>)
    ensures
        match spec_number(kv_views(kv@), key@) {
            Ok(n) => r == Ok::<u64, BtrfsError>(n),
            Err(m) => r matches Err(BtrfsError::FormatError(x)) && x@ == m,
        },
{
    let v = field(kv, key)?;
    match parse_u64_exec(&v) {
        Some(n) => Ok(n),
        None => {
            let mut m = String::from_str("`");
            m.append(key);
            m.append("` is not a valid number");
            Err(BtrfsError::FormatError(m))
        },
    }
}

fn parse_status(value: &Vec<char>) -> (s: ScrubStatus)
    ensures
        s@ == spec_parse_status(value@),
{
    if str_eq(value, "running") {
        ScrubStatus::Running
    } else if str_eq(value, "finished") {
        ScrubStatus::Finished
    } else if str_eq(value, "aborted") {
        ScrubStatus::Aborted
    } else if str_eq(value, "interrupted") {
        ScrubStatus::Interrupted
    } else {
        ScrubStatus::Unknown(string_from(value))
    }
}

/// Parses the `H:MM:SS` duration btrfs prints, into seconds.
fn parse_duration(value: &Vec<char>) -> (r: Result<u64, BtrfsError>)
    requires
        spec_parse_duration(value@) matches Ok(secs) ==> secs <= u64::MAX,
    ensures
        match spec_parse_duration(value@) {
            Ok(secs) => r == Ok::<u64, BtrfsError>(secs as u64),
            Err(m) => r matches Err(BtrfsError::FormatError(x)) && x@ == m,
        },
{
    let parts = split_pieces(value, ':');
    let ghost p = split_char(value@, ':');
    assert(views(parts@) == p);
    if parts.len() == 3 {
        assert(parts@[0]@ == p[0] && parts@[1]@ == p[1] && parts@[2]@ == p[2]);
        let hours = parse_u64_exec(&parts[0]);
        let minutes = parse_u64_exec(&parts[1]);
        let seconds = parse_u64_exec(&parts[2]);
        match (hours, minutes, seconds) {
            (Some(h), Some(m), Some(s)) => {
                return Ok(h * 3600 + m * 60 + s);
            },
            _ => {},
        }
    }
    let mut m = String::from_str("invalid duration `");
    let text = string_from(value);
    m.append(text.as_str());
    m.append("`");
    Err(BtrfsError::FormatError(m))
}

impl ScrubResult {
    /// Parses the output of `btrfs scrub status -R <mount>`.
    pub fn parse(output: &str) -> (r: Result<ScrubResult, BtrfsError>)
        requires
            !duration_overflows(output@),
        ensures
            match spec_scrub_parse(output@) {
                Ok(v) => r matches Ok(x) && x@ == v,
                Err(m) => r matches Err(BtrfsError::FormatError(x)) && x@ == m,
            },
    {
        let fields = key_value_pairs(output);
        let uuid = field(&fields, "UUID")?;
        let started = field(&fields, "Scrub started")?;
        let status = field(&fields, "Status")?;
        let duration_text = field(&fields, "Duration")?;
        let duration = parse_duration(&duration_text)?;
        let data_bytes_scrubbed = number(&fields, "data_bytes_scrubbed")?;
        let tree_bytes_scrubbed = number(&fields, "tree_bytes_scrubbed")?;
        let read_errors = number(&fields, "read_errors")?;
        let csum_errors = number(&fields, "csum_errors")?;
        let verify_errors = number(&fields, "verify_errors")?;
        let super_errors = number(&fields, "super_errors")?;
        let corrected_errors = number(&fields, "corrected_errors")?;
        let uncorrectable_errors = number(&fields, "uncorrectable_errors")?;
        Ok(
            ScrubResult {
                uuid: string_from(&uuid),
                started: string_from(&started),
                status: parse_status(&status),
                duration,
                data_bytes_scrubbed,
                tree_bytes_scrubbed,
                read_errors,
                csum_errors,
                verify_errors,
                super_errors,
                corrected_errors,
                uncorrectable_errors,
            },
        )
    }
}


/// Whether a scrub status is a finished one.
pub open spec fn is_finished(s: ScrubStatusView) -> bool {
    s matches ScrubStatusView::Finished
}

/// The text a status is shown as.
pub open spec fn status_text(s: ScrubStatusView) -> Seq<char> {
    match s {
        ScrubStatusView::Running => "running"@,
        ScrubStatusView::Finished => "finished"@,
        ScrubStatusView::Aborted => "aborted"@,
        ScrubStatusView::Interrupted => "interrupted"@,
        ScrubStatusView::Unknown(t) => t,
    }
}

impl ScrubStatus {
    /// The text the status is shown as.
    pub fn render(&self) -> (s: String)
        ensures
            s@ == status_text(self@),
    {
        match self {
            ScrubStatus::Running => String::from_str("running"),
            ScrubStatus::Finished => String::from_str("finished"),
            ScrubStatus::Aborted => String::from_str("aborted"),
            ScrubStatus::Interrupted => String::from_str("interrupted"),
            ScrubStatus::Unknown(other) => other.clone(),
        }
    }
}

pub open spec fn spec_has_unrecoverable_errors(v: ScrubResultView) -> bool {
    v.uncorrectable_errors > 0 || v.super_errors > 0 || v.verify_errors > 0
}

pub open spec fn spec_is_healthy(v: ScrubResultView) -> bool {
    is_finished(v.status) && !spec_has_unrecoverable_errors(v)
}

/// The error counters in the order they are reported, with their labels.
pub open spec fn counters(v: ScrubResultView) -> Seq<(Seq<char>, u64)> {
    seq![
        ("uncorrectable"@, v.uncorrectable_errors),
        ("csum"@, v.csum_errors),
        ("read"@, v.read_errors),
        ("verify"@, v.verify_errors),
        ("super"@, v.super_errors),
        ("corrected"@, v.corrected_errors),
    ]
}

/// `label: count` for each counter that is not zero, in order.
pub open spec fn nonzero_entries(c: Seq<(Seq<char>, u64)>) -> Seq<Seq<char>>
    decreases c.len(),
{
    if c.len() == 0 {
        Seq::empty()
    } else {
        let p = nonzero_entries(c.drop_last());
        if c.last().1 > 0 {
            p.push(c.last().0 + ": "@ + decimal(c.last().1 as nat))
        } else {
            p
        }
    }
}

pub open spec fn spec_error_summary(v: ScrubResultView) -> Seq<Seq<char>> {
    nonzero_entries(counters(v))
}

/// The health badge of a scrub result.
pub open spec fn health_badge(v: ScrubResultView) -> Seq<char> {
    if spec_has_unrecoverable_errors(v) {
        "❌ Errors"@
    } else if v.corrected_errors > 0 {
        "⚠️ Repaired"@
    } else if is_finished(v.status) {
        "✅ Healthy"@
    } else {
        "ℹ️ Incomplete"@
    }
}

/// The text a scrub result is shown as.
pub open spec fn spec_render(v: ScrubResultView) -> Seq<char> {
    let head = health_badge(v) + " · "@ + status_text(v.status) + " · "@ + spec_format_bytes(
        (v.data_bytes_scrubbed + v.tree_bytes_scrubbed) as nat,
    ) + " scrubbed"@;
    let errors = spec_error_summary(v);
    if errors.len() == 0 {
        head
    } else {
        head + "\n⚠️ "@ + join(errors, " · "@)
    }
}

impl ScrubResult {
    /// Errors that btrfs could not repair (data loss / unredundant corruption).
    pub fn has_unrecoverable_errors(&self) -> (b: bool)
        ensures
            b == spec_has_unrecoverable_errors(self@),
    {
        self.uncorrectable_errors > 0 || self.super_errors > 0 || self.verify_errors > 0
    }

    /// True only when the scrub ran to completion with nothing left broken.
    pub fn is_healthy(&self) -> (b: bool)
        ensures
            b == spec_is_healthy(self@),
    {
        let finished = match self.status {
            ScrubStatus::Finished => true,
            _ => false,
        };
        finished && !self.has_unrecoverable_errors()
    }

    /// Human-readable list of the non-zero error counters.
    pub fn error_summary(&self) -> (r: Vec<String>)
        ensures
            r@.map_values(|p: String| p@) == spec_error_summary(self@),
    {
        let labels = [
            "uncorrectable",
            "csum",
            "read",
            "verify",
            "super",
            "corrected",
        ];
        let counts = [
            self.uncorrectable_errors,
            self.csum_errors,
            self.read_errors,
            self.verify_errors,
            self.super_errors,
            self.corrected_errors,
        ];
        let ghost c = counters(self@);
        let mut r: Vec<String> = Vec::new();
        let mut i: usize = 0;
        assert(c.take(0) =~= Seq::<(Seq<char>, u64)>::empty());
        assert(r@.map_values(|p: String| p@) =~= Seq::<Seq<char>>::empty());
        while i < 6
            invariant
                i <= 6,
                c == counters(self@),
                forall|k: int| 0 <= k < 6 ==> #[trigger] c[k] == (labels@[k]@, counts@[k]),
                r@.map_values(|p: String| p@) == nonzero_entries(c.take(i as int)),
            decreases 6 - i,
        {
            assert(c.take(i + 1).drop_last() =~= c.take(i as int));
            assert(c.take(i + 1).last() == c[i as int]);
            let ghost before = r@.map_values(|p: String| p@);
            if counts[i] > 0 {
                let mut entry = String::from_str(labels[i]);
                entry.append(": ");
                push_decimal(&mut entry, counts[i] as u128);
                r.push(entry);
                assert(r@.map_values(|p: String| p@) =~= before.push(entry@));
            }
            i += 1;
        }
        assert(c.take(6) =~= c);
        r
    }

    /// The text the result is shown as: health, status, bytes scrubbed, then any
    /// non-zero error counters.
    pub fn render(&self) -> (s: String)
        requires
            self.data_bytes_scrubbed + self.tree_bytes_scrubbed <= u64::MAX,
        ensures
            s@ == spec_render(self@),
    {
        let mut s = if self.has_unrecoverable_errors() {
            String::from_str("❌ Errors")
        } else if self.corrected_errors > 0 {
            String::from_str("⚠️ Repaired")
        } else if match self.status {
            ScrubStatus::Finished => true,
            _ => false,
        } {
            String::from_str("✅ Healthy")
        } else {
            String::from_str("ℹ️ Incomplete")
        };
        s.append(" · ");
        let status = self.status.render();
        s.append(status.as_str());
        s.append(" · ");
        let bytes = format_bytes(self.data_bytes_scrubbed + self.tree_bytes_scrubbed);
        s.append(bytes.as_str());
        s.append(" scrubbed");
        let errors = self.error_summary();
        if errors.len() > 0 {
            s.append("\n⚠️ ");
            let joined = join_strings(&errors, " · ");
            s.append(joined.as_str());
        }
        s
    }
}

/// The rendered result reports, after its badge and status, the bytes scrubbed as the
/// data and the tree (metadata) bytes together: `format_bytes(data + tree)` followed by
/// ` scrubbed`.
pub proof fn lemma_render_reports_all_bytes(v: ScrubResultView)
    ensures
        ({
            let k = (health_badge(v) + " · "@ + status_text(v.status) + " · "@).len() as int;
            let shown: Seq<char> = spec_format_bytes(
                (v.data_bytes_scrubbed as nat) + (v.tree_bytes_scrubbed as nat),
            ) + " scrubbed"@;
            spec_render(v).subrange(k, k + shown.len() as int) == shown
        }),
{
    let k = (health_badge(v) + " · "@ + status_text(v.status) + " · "@).len() as int;
    let shown: Seq<char> = spec_format_bytes(
        (v.data_bytes_scrubbed as nat) + (v.tree_bytes_scrubbed as nat),
    ) + " scrubbed"@;
    assert(spec_render(v).subrange(k, k + shown.len() as int) =~= shown);
}

/// The rendered result opens with its health: `❌ Errors` when any uncorrectable, super or
/// verify error is counted; otherwise `⚠️ Repaired` when errors were corrected; otherwise
/// `✅ Healthy` for a finished scrub and `ℹ️ Incomplete` for any other status. A result is
/// healthy exactly when the scrub finished with no uncorrectable, super or verify error.
pub proof fn lemma_scrub_health(v: ScrubResultView)
    ensures
        v.uncorrectable_errors > 0 || v.super_errors > 0 || v.verify_errors > 0 ==> spec_render(
            v,
        ).take("❌ Errors"@.len() as int) == "❌ Errors"@,
        v.uncorrectable_errors == 0 && v.super_errors == 0 && v.verify_errors == 0
            && v.corrected_errors > 0 ==> spec_render(v).take("⚠️ Repaired"@.len() as int)
            == "⚠️ Repaired"@,
        v.uncorrectable_errors == 0 && v.super_errors == 0 && v.verify_errors == 0
            && v.corrected_errors == 0 && v.status is Finished ==> spec_render(v).take(
            "✅ Healthy"@.len() as int,
        ) == "✅ Healthy"@,
        v.uncorrectable_errors == 0 && v.super_errors == 0 && v.verify_errors == 0
            && v.corrected_errors == 0 && !(v.status is Finished) ==> spec_render(v).take(
            "ℹ️ Incomplete"@.len() as int,
        ) == "ℹ️ Incomplete"@,
        spec_is_healthy(v) <==> (v.status is Finished && v.uncorrectable_errors == 0
            && v.super_errors == 0 && v.verify_errors == 0),
        spec_has_unrecoverable_errors(v) <==> (v.uncorrectable_errors > 0 || v.super_errors > 0
            || v.verify_errors > 0),
{
    let r = spec_render(v);
    let b = health_badge(v);
    assert(r.take(b.len() as int) =~= b);
}

proof fn lemma_nonzero_listed(c: Seq<(Seq<char>, u64)>, k: int)
    requires
        0 <= k < c.len(),
        c[k].1 > 0,
    ensures
        nonzero_entries(c).contains(c[k].0 + ": "@ + decimal(c[k].1 as nat)),
    decreases c.len(),
{
    let w = c[k].0 + ": "@ + decimal(c[k].1 as nat);
    let p = nonzero_entries(c.drop_last());
    if k == c.len() - 1 {
        assert(nonzero_entries(c)[p.len() as int] == w);
    } else {
        assert(c.drop_last()[k] == c[k]);
        lemma_nonzero_listed(c.drop_last(), k);
        let j = choose|j: int| 0 <= j < p.len() && p[j] == w;
        assert(nonzero_entries(c)[j] == w);
    }
}

proof fn lemma_all_zero_none(c: Seq<(Seq<char>, u64)>)
    requires
        forall|k: int| 0 <= k < c.len() ==> c[k].1 == 0,
    ensures
        nonzero_entries(c).len() == 0,
    decreases c.len(),
{
    if c.len() > 0 {
        lemma_all_zero_none(c.drop_last());
    }
}

/// The error summary lists `uncorrectable: n`, `csum: n`, `read: n`, `verify: n`,
/// `super: n` and `corrected: n` for each of those counters that is not zero, and is empty
/// when they all are.
pub proof fn lemma_error_summary_lists_counters(v: ScrubResultView)
    ensures
        v.uncorrectable_errors > 0 ==> spec_error_summary(v).contains(
            "uncorrectable: "@ + decimal(v.uncorrectable_errors as nat),
        ),
        v.csum_errors > 0 ==> spec_error_summary(v).contains(
            "csum: "@ + decimal(v.csum_errors as nat),
        ),
        v.read_errors > 0 ==> spec_error_summary(v).contains(
            "read: "@ + decimal(v.read_errors as nat),
        ),
        v.verify_errors > 0 ==> spec_error_summary(v).contains(
            "verify: "@ + decimal(v.verify_errors as nat),
        ),
        v.super_errors > 0 ==> spec_error_summary(v).contains(
            "super: "@ + decimal(v.super_errors as nat),
        ),
        v.corrected_errors > 0 ==> spec_error_summary(v).contains(
            "corrected: "@ + decimal(v.corrected_errors as nat),
        ),
        v.uncorrectable_errors == 0 && v.csum_errors == 0 && v.read_errors == 0
            && v.verify_errors == 0 && v.super_errors == 0 && v.corrected_errors == 0
            ==> spec_error_summary(v).len() == 0,
{
    let c = counters(v);
    assert forall|k: int| 0 <= k < 6 && c[k].1 > 0 implies spec_error_summary(v).contains(
        c[k].0 + ": "@ + decimal(c[k].1 as nat),
    ) by {
        lemma_nonzero_listed(c, k);
    }
    assert("uncorrectable"@ + ": "@ == "uncorrectable: "@) by {
        reveal_strlit("uncorrectable");
        reveal_strlit(": ");
        reveal_strlit("uncorrectable: ");
        assert("uncorrectable"@ + ": "@ =~= "uncorrectable: "@);
    }
    assert("csum"@ + ": "@ == "csum: "@) by {
        reveal_strlit("csum");
        reveal_strlit(": ");
        reveal_strlit("csum: ");
        assert("csum"@ + ": "@ =~= "csum: "@);
    }
    assert("read"@ + ": "@ == "read: "@) by {
        reveal_strlit("read");
        reveal_strlit(": ");
        reveal_strlit("read: ");
        assert("read"@ + ": "@ =~= "read: "@);
    }
    assert("verify"@ + ": "@ == "verify: "@) by {
        reveal_strlit("verify");
        reveal_strlit(": ");
        reveal_strlit("verify: ");
        assert("verify"@ + ": "@ =~= "verify: "@);
    }
    assert("super"@ + ": "@ == "super: "@) by {
        reveal_strlit("super");
        reveal_strlit(": ");
        reveal_strlit("super: ");
        assert("super"@ + ": "@ =~= "super: "@);
    }
    assert("corrected"@ + ": "@ == "corrected: "@) by {
        reveal_strlit("corrected");
        reveal_strlit(": ");
        reveal_strlit("corrected: ");
        assert("corrected"@ + ": "@ =~= "corrected: "@);
    }
    assert(c[0].0 + ": "@ + decimal(c[0].1 as nat) == "uncorrectable: "@ + decimal(
        v.uncorrectable_errors as nat,
    ));
    assert(c[1].0 + ": "@ + decimal(c[1].1 as nat) == "csum: "@ + decimal(v.csum_errors as nat));
    assert(c[2].0 + ": "@ + decimal(c[2].1 as nat) == "read: "@ + decimal(v.read_errors as nat));
    assert(c[3].0 + ": "@ + decimal(c[3].1 as nat) == "verify: "@ + decimal(v.verify_errors as nat));
    assert(c[4].0 + ": "@ + decimal(c[4].1 as nat) == "super: "@ + decimal(v.super_errors as nat));
    assert(c[5].0 + ": "@ + decimal(c[5].1 as nat) == "corrected: "@ + decimal(
        v.corrected_errors as nat,
    ));
    if v.uncorrectable_errors == 0 && v.csum_errors == 0 && v.read_errors == 0 && v.verify_errors
        == 0 && v.super_errors == 0 && v.corrected_errors == 0 {
        lemma_all_zero_none(c);
    }
}

/// Whether `ScrubResult::parse` would reach a duration too long for a `u64` of seconds
/// (the case its `requires` leaves out).
pub fn parse_overflows(output: &str) -> (b: bool)
    ensures
        b == duration_overflows(output@),
{
    let fields = key_value_pairs(output);
    if field(&fields, "UUID").is_err() || field(&fields, "Scrub started").is_err() || field(
        &fields,
        "Status",
    ).is_err() {
        return false;
    }
    let d = match field(&fields, "Duration") {
        Ok(d) => d,
        Err(_) => return false,
    };
    let parts = split_pieces(&d, ':');
    let ghost p = split_char(d@, ':');
    if parts.len() != 3 {
        return false;
    }
    assert(parts@[0]@ == p[0] && parts@[1]@ == p[1] && parts@[2]@ == p[2]);
    match (parse_u64_exec(&parts[0]), parse_u64_exec(&parts[1]), parse_u64_exec(&parts[2])) {
        (Some(h), Some(m), Some(s)) => {
            let total: u128 = (h as u128) * 3600 + (m as u128) * 60 + (s as u128);
            total > u64::MAX as u128
        },
        _ => false,
    }
}

} // verus!

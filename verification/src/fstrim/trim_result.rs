use vstd::prelude::*;
use crate::decimal::{parse_u64, parse_u64_exec};
use crate::fstrim::fstrim_error::FstrimError;
use crate::strings::{
    has_prefix, rsplit_once, rsplit_once_at, slice_of, split_once, split_once_at, starts_with,
    string_from, to_chars, trim, trimmed,
};
use crate::text_utils::{format_bytes, spec_format_bytes};
use vstd::string::StringExecFns;

verus! {

/// One mount point's trim result, parsed from a single `fstrim -v` output line.
#[derive(Debug)]
pub struct TrimResult {
    pub mount_point: String,
    /// Backing device, reported only when fstrim discovered the mount itself (`-a`/`--fstab`).
    pub device: Option<String>,
    /// Bytes the kernel reports as trimmed. This is the length of the ranges handed to the
    /// device, not space reclaimed — on most filesystems it is an upper bound.
    pub bytes: u64,
}

pub struct TrimResultView {
    pub mount_point: Seq<char>,
    pub device: Option<Seq<char>>,
    pub bytes: u64,
}

impl View for TrimResult {
    type V = TrimResultView;

    open spec fn view(&self) -> TrimResultView {
        TrimResultView {
            mount_point: self.mount_point@,
            device: match self.device {
                Some(d) => Some(d@),
                None => None,
            },
            bytes: self.bytes,
        }
    }
}

/// `s.strip_prefix(pat)`.
pub open spec fn strip_prefix(s: Seq<char>, pat: Seq<char>) -> Option<Seq<char>> {
    if starts_with(s, pat) {
        Some(s.skip(pat.len() as int))
    } else {
        None
    }
}

/// What `TrimResult::parse` reads from a line, or `None` for a line it rejects.
///
/// The line is cut around its last `" ("` before the first `" bytes)"`, and the mount
/// point ends at the last `": "` before that, so a mount point holding `": "` or spaces
/// still comes out whole. What follows the byte count must start with `trimmed`; a
/// `trimmed on <device>` names the device.
pub open spec fn spec_trim_parse(line: Seq<char>) -> Option<TrimResultView> {
    match split_once(line, " bytes)"@) {
        None => None,
        Some(ht) => match rsplit_once(ht.0, " ("@) {
            None => None,
            Some(hb) => match rsplit_once(hb.0, ": "@) {
                None => None,
                Some(mh) => {
                    let tail = trim(ht.1);
                    if !starts_with(tail, "trimmed"@) {
                        None
                    } else {
                        match parse_u64(hb.1) {
                            None => None,
                            Some(n) => Some(
                                TrimResultView {
                                    mount_point: mh.0,
                                    device: strip_prefix(tail, "trimmed on "@),
                                    bytes: n,
                                },
                            ),
                        }
                    }
                },
            },
        },
    }
}

pub open spec fn invalid_line_message(line: Seq<char>) -> Seq<char> {
    "unrecognised output line `"@ + line + "`"@
}

fn invalid(line: &str) -> (e: FstrimError)
    ensures
        e matches FstrimError::FormatError(m) && m@ == invalid_line_message(line@),
{
    let mut m = String::from_str("unrecognised output line `");
    m.append(line);
    m.append("`");
    FstrimError::FormatError(m)
}

/// The trim text of one result.
pub open spec fn spec_result_text(v: TrimResultView) -> Seq<char> {
    let head = "✂️ "@ + spec_format_bytes(v.bytes as nat) + " trimmed"@;
    match v.device {
        Some(d) => head + " · "@ + d,
        None => head,
    }
}

impl TrimResult {
    /// Parses one line of `fstrim -v` output, in either shape it emits:
    ///   `/home: 1.5 GiB (1610612736 bytes) trimmed on /dev/sda2`
    ///   `/home: 1.5 GiB (1610612736 bytes) trimmed`
    pub fn parse(line: &str) -> (r: Result<TrimResult, FstrimError>)
        ensures
            match spec_trim_parse(line@) {
                Some(v) => r matches Ok(x) && x@ == v,
                None => r matches Err(FstrimError::FormatError(m)) && m@ == invalid_line_message(
                    line@,
                ),
            },
    {
        let v = to_chars(line);
        let bytes_pat = to_chars(" bytes)");
        let paren_pat = to_chars(" (");
        let colon_pat = to_chars(": ");
        let (head, tail) = match split_once_at(&v, &bytes_pat) {
            Some(p) => p,
            None => return Err(invalid(line)),
        };
        let (head, bytes) = match rsplit_once_at(&head, &paren_pat) {
            Some(p) => p,
            None => return Err(invalid(line)),
        };
        let (mount_point, _human_size) = match rsplit_once_at(&head, &colon_pat) {
            Some(p) => p,
            None => return Err(invalid(line)),
        };
        let tail = trimmed(&tail);
        let trimmed_word = to_chars("trimmed");
        if !has_prefix(&tail, &trimmed_word) {
            return Err(invalid(line));
        }
        let on_word = to_chars("trimmed on ");
        let device = if has_prefix(&tail, &on_word) {
            let d = slice_of(&tail, on_word.len(), tail.len());
            assert(d@ =~= tail@.skip(on_word@.len() as int));
            Some(string_from(&d))
        } else {
            None
        };
        let n = match parse_u64_exec(&bytes) {
            Some(n) => n,
            None => return Err(invalid(line)),
        };
        Ok(TrimResult { mount_point: string_from(&mount_point), device, bytes: n })
    }

    /// The text the result is shown as: the bytes trimmed, then the device if known.
    pub fn render(&self) -> (s: String)
        ensures
            s@ == spec_result_text(self@),
    {
        let mut s = String::from_str("✂️ ");
        let b = format_bytes(self.bytes);
        s.append(b.as_str());
        s.append(" trimmed");
        match &self.device {
            Some(d) => {
                s.append(" · ");
                s.append(d.as_str());
            },
            None => {},
        }
        s
    }
}

/// A trim result is shown as the bytes trimmed, `format_bytes(bytes)` then ` trimmed`,
/// after the scissors; the device follows only when fstrim named one.
pub proof fn lemma_trim_text_shows_bytes(v: TrimResultView)
    ensures
        ({
            let k = "✂️ "@.len() as int;
            let shown: Seq<char> = spec_format_bytes(v.bytes as nat) + " trimmed"@;
            &&& spec_result_text(v).subrange(k, k + shown.len() as int) == shown
            &&& v.device is None ==> spec_result_text(v).len() == k + shown.len()
            &&& v.device matches Some(d) ==> spec_result_text(v).skip(k + shown.len()) == " · "@ + d
        }),
{
    let k = "✂️ "@.len() as int;
    let shown: Seq<char> = spec_format_bytes(v.bytes as nat) + " trimmed"@;
    assert(spec_result_text(v).subrange(k, k + shown.len() as int) =~= shown);
    match v.device {
        Some(d) => {
            assert(spec_result_text(v).skip(k + shown.len()) =~= " · "@ + d);
        },
        None => {},
    }
}

} // verus!

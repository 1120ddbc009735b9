//! Reading the output of `fstrim -a -v --quiet-unsupported`.

use vstd::prelude::*;
use crate::command_runner::{string_from_utf8, utf8_error_text};
use crate::fstrim::fstrim_error::FstrimError;
use crate::fstrim::trim_report::{result_views, TrimReport};
use crate::fstrim::trim_result::{invalid_line_message, spec_trim_parse, TrimResult, TrimResultView};
use crate::strings::{line_ranges, lines, ranges_hold, string_of, to_chars, trim, trim_bounds};

verus! {

/// The non-blank lines, trimmed.
pub open spec fn trimmed_lines(ls: Seq<Seq<char>>) -> Seq<Seq<char>>
    decreases ls.len(),
{
    if ls.len() == 0 {
        Seq::empty()
    } else {
        let p = trimmed_lines(ls.drop_last());
        if trim(ls.last()).len() > 0 {
            p.push(trim(ls.last()))
        } else {
            p
        }
    }
}

/// Parses every line; the first line that does not parse gives the error.
pub open spec fn parse_all(ls: Seq<Seq<char>>) -> Result<Seq<TrimResultView>, Seq<char>>
    decreases ls.len(),
{
    if ls.len() == 0 {
        Ok(Seq::empty())
    } else {
        match parse_all(ls.drop_last()) {
            Err(e) => Err(e),
            Ok(p) => match spec_trim_parse(ls.last()) {
                Some(v) => Ok(p.push(v)),
                None => Err(invalid_line_message(ls.last())),
            },
        }
    }
}

/// Once a prefix of the lines fails to parse, so do all the lines, with that error.
pub proof fn lemma_parse_error_persists(ls: Seq<Seq<char>>, j: int, e: Seq<char>)
    requires
        0 <= j <= ls.len(),
        parse_all(trimmed_lines(ls.take(j))) == Err::<Seq<TrimResultView>, Seq<char>>(e),
    ensures
        parse_all(trimmed_lines(ls)) == Err::<Seq<TrimResultView>, Seq<char>>(e),
    decreases ls.len() - j,
{
    if j == ls.len() {
        assert(ls.take(j) =~= ls);
    } else {
        assert(ls.take(j + 1).drop_last() =~= ls.take(j));
        let t = trimmed_lines(ls.take(j + 1));
        if trim(ls.take(j + 1).last()).len() > 0 {
            assert(t.drop_last() == trimmed_lines(ls.take(j)));
        }
        lemma_parse_error_persists(ls, j + 1, e);
    }
}

/// What `parse_trim_text` gives for `text`.
pub open spec fn spec_trim_text(text: Seq<char>) -> Result<Seq<TrimResultView>, Seq<char>> {
    parse_all(trimmed_lines(lines(text)))
}

/// Parses fstrim's report: one result per non-blank line.
pub fn parse_trim_text(text: &str) -> (r: Result<TrimReport, FstrimError>)
    ensures
        match spec_trim_text(text@) {
            Ok(v) => r matches Ok(rep) && result_views(rep.results@) == v,
            Err(m) => r matches Err(FstrimError::FormatError(x)) && x@ == m,
        },
{
    let v = to_chars(text);
    let ranges = line_ranges(&v);
    let ghost ls = lines(v@);
    let mut results: Vec<TrimResult> = Vec::new();
    let mut k: usize = 0;
    assert(ls.take(0) =~= Seq::<Seq<char>>::empty());
    assert(result_views(results@) =~= Seq::<TrimResultView>::empty());
    while k < ranges.len()
        invariant
            ranges_hold(v@, ranges@, ls),
            ls == lines(v@),
            v@ == text@,
            k <= ranges@.len(),
            parse_all(trimmed_lines(ls.take(k as int))) == Ok::<Seq<TrimResultView>, Seq<char>>(
                result_views(results@),
            ),
        decreases ranges@.len() - k,
    {
        let (lo, hi) = ranges[k];
        let (a, b) = trim_bounds(&v, lo, hi);
        assert(ls.take(k + 1).drop_last() =~= ls.take(k as int));
        assert(ls.take(k + 1).last() == ls[k as int]);
        if a < b {
            let line = string_of(&v, a, b);
            let ghost t = trimmed_lines(ls.take(k + 1));
            assert(t.drop_last() == trimmed_lines(ls.take(k as int)));
            assert(t.last() == line@);
            match TrimResult::parse(line.as_str()) {
                Ok(res) => {
                    let ghost before = result_views(results@);
                    results.push(res);
                    assert(result_views(results@) =~= before.push(res@));
                },
                Err(e) => {
                    proof {
                        lemma_parse_error_persists(ls, k + 1, invalid_line_message(line@));
                        assert(v@ == text@);
                    }
                    return Err(e);
                },
            }
        }
        k += 1;
    }
    assert(ls.take(ranges@.len() as int) =~= ls);
    Ok(TrimReport { results })
}

/// Reads fstrim's output: it must be UTF-8 text, which is then parsed line by line.
pub fn parse_trim_output(output: Vec<u8>) -> (r: Result<TrimReport, FstrimError>)
    ensures
        !vstd::utf8::valid_utf8(output@) ==> (r matches Err(FstrimError::FormatError(m)) && m@
            == utf8_error_text(output@)),
        vstd::utf8::valid_utf8(output@) ==> match spec_trim_text(
            vstd::utf8::decode_utf8(output@),
        ) {
            Ok(v) => r matches Ok(rep) && result_views(rep.results@) == v,
            Err(m) => r matches Err(FstrimError::FormatError(x)) && x@ == m,
        },
{
    match string_from_utf8(output) {
        Ok(text) => parse_trim_text(text.as_str()),
        Err(m) => Err(FstrimError::FormatError(m)),
    }
}

} // verus!

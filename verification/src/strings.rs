//! Character-level text primitives with their meaning stated over `Seq<char>`.

use vstd::prelude::*;
use vstd::string::StringExecFns;

verus! {

/// Appends one character to a string (std's `String::push`).
/// Trusted: the result is the old contents followed by `c`.
#[verifier::external_body]
pub(crate) fn push_char(s: &mut String, c: char)
    ensures
        final(s)@ == old(s)@.push(c),
{
    s.push(c);
}

/// The characters of `s`, in order.
pub fn to_chars(s: &str) -> (v: Vec<char>)
    ensures
        v@ == s@,
{
    let n = s.unicode_len();
    let mut v: Vec<char> = Vec::new();
    let mut i: usize = 0;
    while i < n
        invariant
            n == s@.len(),
            i <= n,
            v@ == s@.take(i as int),
        decreases n - i,
    {
        let c = s.get_char(i);
        v.push(c);
        i += 1;
        assert(v@ =~= s@.take(i as int));
    }
    assert(v@ =~= s@);
    v
}


/// A new string holding `v[lo..hi]`.
pub fn string_of(v: &Vec<char>, lo: usize, hi: usize) -> (s: String)
    requires
        lo <= hi <= v@.len(),
    ensures
        s@ == v@.subrange(lo as int, hi as int),
{
    let mut s = String::new();
    let mut i = lo;
    while i < hi
        invariant
            lo <= i <= hi <= v@.len(),
            s@ == v@.subrange(lo as int, i as int),
        decreases hi - i,
    {
        push_char(&mut s, v[i]);
        i += 1;
        assert(s@ =~= v@.subrange(lo as int, i as int));
    }
    s
}

/// Whitespace as `char::is_whitespace` defines it (the Unicode `White_Space` property).
pub open spec fn is_ws(c: char) -> bool {
    ||| '\t' <= c <= '\r'
    ||| c == ' '
    ||| c == '\u{85}'
    ||| c == '\u{A0}'
    ||| c == '\u{1680}'
    ||| '\u{2000}' <= c <= '\u{200A}'
    ||| c == '\u{2028}'
    ||| c == '\u{2029}'
    ||| c == '\u{202F}'
    ||| c == '\u{205F}'
    ||| c == '\u{3000}'
}

pub fn is_whitespace(c: char) -> (b: bool)
    ensures
        b == is_ws(c),
{
    ('\t' <= c && c <= '\r') || c == ' ' || c == '\u{85}' || c == '\u{A0}' || c == '\u{1680}'
        || ('\u{2000}' <= c && c <= '\u{200A}') || c == '\u{2028}' || c == '\u{2029}'
        || c == '\u{202F}' || c == '\u{205F}' || c == '\u{3000}'
}

/// `s` without leading whitespace (`str::trim_start`).
pub open spec fn trim_start(s: Seq<char>) -> Seq<char>
    decreases s.len(),
{
    if s.len() > 0 && is_ws(s[0]) {
        trim_start(s.drop_first())
    } else {
        s
    }
}

/// `s` without trailing whitespace (`str::trim_end`).
pub open spec fn trim_end(s: Seq<char>) -> Seq<char>
    decreases s.len(),
{
    if s.len() > 0 && is_ws(s.last()) {
        trim_end(s.drop_last())
    } else {
        s
    }
}

/// `s` without leading and trailing whitespace (`str::trim`).
pub open spec fn trim(s: Seq<char>) -> Seq<char> {
    trim_end(trim_start(s))
}

/// Whether `s` holds nothing but whitespace.
pub fn is_blank(s: &str) -> (b: bool)
    ensures
        b == (trim(s@).len() == 0),
{
    let v = to_chars(s);
    let (a, b) = trim_bounds(&v, 0, v.len());
    assert(v@.subrange(0, v@.len() as int) =~= v@);
    a == b
}

/// Bounds of `trim(v[lo..hi])` inside `v`.
pub fn trim_bounds(v: &Vec<char>, lo: usize, hi: usize) -> (r: (usize, usize))
    requires
        lo <= hi <= v@.len(),
    ensures
        lo <= r.0 <= r.1 <= hi,
        v@.subrange(r.0 as int, r.1 as int) == trim(v@.subrange(lo as int, hi as int)),
{
    let mut a = lo;
    while a < hi && is_whitespace(v[a])
        invariant
            lo <= a <= hi <= v@.len(),
            trim_start(v@.subrange(lo as int, hi as int)) == trim_start(
                v@.subrange(a as int, hi as int),
            ),
        decreases hi - a,
    {
        assert(v@.subrange(a as int, hi as int).drop_first() =~= v@.subrange(
            a + 1,
            hi as int,
        ));
        a += 1;
    }
    assert(trim_start(v@.subrange(a as int, hi as int)) == v@.subrange(a as int, hi as int));
    let mut b = hi;
    while b > a && is_whitespace(v[b - 1])
        invariant
            lo <= a <= b <= hi <= v@.len(),
            trim(v@.subrange(lo as int, hi as int)) == trim_end(v@.subrange(a as int, b as int)),
        decreases b - a,
    {
        assert(v@.subrange(a as int, b as int).drop_last() =~= v@.subrange(
            a as int,
            b - 1,
        ));
        b -= 1;
    }
    (a, b)
}


/// The pieces of `s` between occurrences of `c` (`str::split(c)`); never empty.
pub open spec fn split_char(s: Seq<char>, c: char) -> Seq<Seq<char>>
    decreases s.len(),
{
    if s.len() == 0 {
        seq![Seq::empty()]
    } else {
        let p = split_char(s.drop_last(), c);
        if s.last() == c {
            p.push(Seq::empty())
        } else {
            p.update(p.len() - 1, p.last().push(s.last()))
        }
    }
}

/// Splitting always gives at least one piece.
pub proof fn lemma_split_char_nonempty(s: Seq<char>, c: char)
    ensures
        split_char(s, c).len() >= 1,
    decreases s.len(),
{
    if s.len() > 0 {
        lemma_split_char_nonempty(s.drop_last(), c);
    }
}

/// A line that was ended by `'\n'` loses one trailing `'\r'`.
pub open spec fn strip_cr(s: Seq<char>) -> Seq<char> {
    if s.len() > 0 && s.last() == '\r' {
        s.drop_last()
    } else {
        s
    }
}

/// The lines of `s` as `str::lines` yields them: split at `'\n'`, a `"\r\n"` ending
/// counts as one line ending, and a final empty piece after the last `'\n'` is no line.
pub open spec fn lines(s: Seq<char>) -> Seq<Seq<char>> {
    let p = split_char(s, '\n');
    let ended = p.drop_last().map_values(|l: Seq<char>| strip_cr(l));
    if p.last().len() == 0 {
        ended
    } else {
        ended.push(p.last())
    }
}

/// `r` lists, in order, the bounds inside `v` of each element of `ls`.
pub open spec fn ranges_hold(v: Seq<char>, r: Seq<(usize, usize)>, ls: Seq<Seq<char>>) -> bool {
    &&& r.len() == ls.len()
    &&& forall|k: int| 0 <= k < r.len() ==> (#[trigger] r[k]).0 <= r[k].1 <= v.len()
    &&& forall|k: int|
        0 <= k < r.len() ==> #[trigger] v.subrange(r[k].0 as int, r[k].1 as int) == ls[k]
}

/// Bounds of each line of `v` (see `lines`).
pub fn line_ranges(v: &Vec<char>) -> (r: Vec<(usize, usize)>)
    ensures
        ranges_hold(v@, r@, lines(v@)),
{
    let n = v.len();
    let mut r: Vec<(usize, usize)> = Vec::new();
    let mut start: usize = 0;
    let mut i: usize = 0;
    while i < n
        invariant
            n == v@.len(),
            start <= i <= n,
            split_char(v@.take(i as int), '\n').len() == r@.len() + 1,
            split_char(v@.take(i as int), '\n').last() == v@.subrange(start as int, i as int),
            forall|k: int| 0 <= k < r@.len() ==> (#[trigger] r@[k]).0 <= r@[k].1 <= start,
            forall|k: int|
                0 <= k < r@.len() ==> #[trigger] v@.subrange(r@[k].0 as int, r@[k].1 as int)
                    == strip_cr(split_char(v@.take(i as int), '\n')[k]),
        decreases n - i,
    {
        let ghost p = split_char(v@.take(i as int), '\n');
        let ghost r0 = r@;
        let ghost s0 = start;
        assert(v@.take(i + 1).drop_last() =~= v@.take(i as int));
        assert(v@.take(i + 1).last() == v@[i as int]);
        if v[i] == '\n' {
            let end = if i > start && v[i - 1] == '\r' {
                i - 1
            } else {
                i
            };
            assert(v@.subrange(start as int, end as int) =~= strip_cr(
                v@.subrange(start as int, i as int),
            ));
            r.push((start, end));
            start = i + 1;
            assert(split_char(v@.take(i + 1), '\n') == p.push(Seq::empty()));
            assert(v@.subrange(start as int, i + 1) =~= Seq::<char>::empty());
            assert forall|k: int| 0 <= k < r@.len() implies #[trigger] v@.subrange(r@[k].0 as int, r@[k].1 as int) == strip_cr(
                split_char(v@.take(i + 1), '\n')[k],
            ) by {
                if k < r@.len() - 1 {
                    assert(r@[k] == r0[k]);
                    assert(v@.subrange(r0[k].0 as int, r0[k].1 as int) == strip_cr(p[k]));
                    assert(split_char(v@.take(i + 1), '\n')[k] == p[k]);
                } else {
                    assert(r@[k] == (s0, end));
                    assert(split_char(v@.take(i + 1), '\n')[k] == p.last());
                }
            }
        } else {
            assert(split_char(v@.take(i + 1), '\n') == p.update(p.len() - 1, p.last().push(v@[i as int])));
            assert(v@.subrange(start as int, i + 1) =~= v@.subrange(start as int, i as int).push(
                v@[i as int],
            ));
            assert forall|k: int| 0 <= k < r@.len() implies #[trigger] v@.subrange(r@[k].0 as int, r@[k].1 as int) == strip_cr(
                split_char(v@.take(i + 1), '\n')[k],
            ) by {
                assert(v@.subrange(r0[k].0 as int, r0[k].1 as int) == strip_cr(p[k]));
                assert(split_char(v@.take(i + 1), '\n')[k] == p[k]);
            }
        }
        let ghost q = split_char(v@.take(i + 1), '\n');
        i += 1;
        assert(q == split_char(v@.take(i as int), '\n'));
    }
    assert(v@.take(n as int) =~= v@);
    let ghost p = split_char(v@, '\n');
    let ghost ended = p.drop_last().map_values(|l: Seq<char>| strip_cr(l));
    proof {
        lemma_split_char_nonempty(v@, '\n');
        assert forall|k: int| 0 <= k < r@.len() implies #[trigger] v@.subrange(
            r@[k].0 as int,
            r@[k].1 as int,
        ) == ended[k] by {
            assert(v@.subrange(r@[k].0 as int, r@[k].1 as int) == strip_cr(p[k]));
            assert(ended[k] == strip_cr(p[k]));
        }
        assert(ended.len() == r@.len());
    }
    let ghost r1 = r@;
    if start < n {
        r.push((start, n));
        assert forall|k: int| 0 <= k < r@.len() implies #[trigger] v@.subrange(
            r@[k].0 as int,
            r@[k].1 as int,
        ) == ended.push(p.last())[k] by {
            if k < r@.len() - 1 {
                assert(r@[k] == r1[k]);
                assert(v@.subrange(r1[k].0 as int, r1[k].1 as int) == ended[k]);
                assert(ended.push(p.last())[k] == ended[k]);
            }
        }
        assert(ranges_hold(v@, r@, ended.push(p.last())));
    } else {
        assert(p.last().len() == 0);
        assert(ranges_hold(v@, r@, ended));
    }
    r
}


/// A copy of `v[lo..hi]`.
pub fn slice_of(v: &Vec<char>, lo: usize, hi: usize) -> (r: Vec<char>)
    requires
        lo <= hi <= v@.len(),
    ensures
        r@ == v@.subrange(lo as int, hi as int),
{
    let mut r: Vec<char> = Vec::new();
    let mut i = lo;
    while i < hi
        invariant
            lo <= i <= hi <= v@.len(),
            r@ == v@.subrange(lo as int, i as int),
        decreases hi - i,
    {
        r.push(v[i]);
        i += 1;
        assert(r@ =~= v@.subrange(lo as int, i as int));
    }
    r
}

/// A new string with the characters of `v`.
pub fn string_from(v: &Vec<char>) -> (s: String)
    ensures
        s@ == v@,
{
    let s = string_of(v, 0, v.len());
    assert(v@.subrange(0, v@.len() as int) =~= v@);
    s
}

/// `pat` occurs in `s` starting at index `i`.
pub open spec fn matches_at(s: Seq<char>, pat: Seq<char>, i: int) -> bool {
    0 <= i && i + pat.len() <= s.len() && s.subrange(i, i + pat.len()) == pat
}

pub open spec fn is_first_match(s: Seq<char>, pat: Seq<char>, i: int) -> bool {
    matches_at(s, pat, i) && forall|j: int| 0 <= j < i ==> !matches_at(s, pat, j)
}

pub open spec fn is_last_match(s: Seq<char>, pat: Seq<char>, i: int) -> bool {
    matches_at(s, pat, i) && forall|j: int| i < j <= s.len() ==> !matches_at(s, pat, j)
}

/// Index of the leftmost occurrence of `pat` in `s` (`str::find`).
pub open spec fn first_match(s: Seq<char>, pat: Seq<char>) -> Option<int> {
    if exists|i: int| is_first_match(s, pat, i) {
        Some(choose|i: int| is_first_match(s, pat, i))
    } else {
        None
    }
}

/// Index of the rightmost occurrence of `pat` in `s` (`str::rfind`).
pub open spec fn last_match(s: Seq<char>, pat: Seq<char>) -> Option<int> {
    if exists|i: int| is_last_match(s, pat, i) {
        Some(choose|i: int| is_last_match(s, pat, i))
    } else {
        None
    }
}

/// A match with no earlier match is the first match.
pub proof fn lemma_first_match_is(s: Seq<char>, pat: Seq<char>, i: int)
    requires
        is_first_match(s, pat, i),
    ensures
        first_match(s, pat) == Some(i),
{
    let k = choose|k: int| is_first_match(s, pat, k);
    assert(is_first_match(s, pat, k));
    if k < i {
        assert(!matches_at(s, pat, k));
    } else if i < k {
        assert(!matches_at(s, pat, i));
    }
}

/// A match with no later match is the last match.
pub proof fn lemma_last_match_is(s: Seq<char>, pat: Seq<char>, i: int)
    requires
        is_last_match(s, pat, i),
    ensures
        last_match(s, pat) == Some(i),
{
    let k = choose|k: int| is_last_match(s, pat, k);
    assert(is_last_match(s, pat, k));
    if k < i {
        assert(!matches_at(s, pat, i));
    } else if i < k {
        assert(!matches_at(s, pat, k));
    }
}

/// Whether `pat` occurs in `s` at index `i`.
pub fn matches_here(s: &Vec<char>, pat: &Vec<char>, i: usize) -> (b: bool)
    ensures
        b == matches_at(s@, pat@, i as int),
{
    if i > s.len() || pat.len() > s.len() - i {
        return false;
    }
    let mut k: usize = 0;
    while k < pat.len()
        invariant
            i + pat@.len() <= s@.len() <= usize::MAX,
            k <= pat@.len(),
            forall|j: int| 0 <= j < k ==> s@[i + j] == pat@[j],
        decreases pat@.len() - k,
    {
        assert(i + k < s@.len());
        if s[i + k] != pat[k] {
            assert(s@.subrange(i as int, i + pat@.len())[k as int] != pat@[k as int]);
            return false;
        }
        k += 1;
    }
    assert(s@.subrange(i as int, i + pat@.len()) =~= pat@);
    true
}

/// `str::find` with a string pattern.
pub fn find(s: &Vec<char>, pat: &Vec<char>) -> (r: Option<usize>)
    ensures
        r matches Some(i) ==> first_match(s@, pat@) == Some(i as int) && matches_at(
            s@,
            pat@,
            i as int,
        ),
        r is None ==> first_match(s@, pat@) is None,
{
    let mut i: usize = 0;
    while i < s.len()
        invariant
            i <= s@.len(),
            forall|j: int| 0 <= j < i ==> !matches_at(s@, pat@, j),
        decreases s@.len() - i,
    {
        if matches_here(s, pat, i) {
            proof {
                lemma_first_match_is(s@, pat@, i as int);
            }
            return Some(i);
        }
        i += 1;
    }
    if matches_here(s, pat, i) {
        proof {
            lemma_first_match_is(s@, pat@, i as int);
        }
        return Some(i);
    }
    assert forall|i: int| !is_first_match(s@, pat@, i) by {
        if 0 <= i <= s@.len() {
            assert(!matches_at(s@, pat@, i));
        }
    }
    None
}

/// `str::rfind` with a string pattern.
pub fn rfind(s: &Vec<char>, pat: &Vec<char>) -> (r: Option<usize>)
    ensures
        r matches Some(i) ==> last_match(s@, pat@) == Some(i as int) && matches_at(
            s@,
            pat@,
            i as int,
        ),
        r is None ==> last_match(s@, pat@) is None,
{
    let mut i: usize = s.len();
    if matches_here(s, pat, i) {
        proof {
            lemma_last_match_is(s@, pat@, i as int);
        }
        return Some(i);
    }
    while i > 0
        invariant
            i <= s@.len(),
            forall|j: int| i <= j <= s@.len() ==> !matches_at(s@, pat@, j),
        decreases i,
    {
        i -= 1;
        if matches_here(s, pat, i) {
            proof {
                lemma_last_match_is(s@, pat@, i as int);
            }
            return Some(i);
        }
    }
    assert forall|i: int| !is_last_match(s@, pat@, i) by {
        if 0 <= i <= s@.len() {
            assert(!matches_at(s@, pat@, i));
        }
    }
    None
}

/// `str::split_once`: the parts before and after the leftmost `pat`.
pub open spec fn split_once(s: Seq<char>, pat: Seq<char>) -> Option<(Seq<char>, Seq<char>)> {
    match first_match(s, pat) {
        Some(i) => Some((s.take(i), s.skip(i + pat.len()))),
        None => None,
    }
}

/// `str::rsplit_once`: the parts before and after the rightmost `pat`.
pub open spec fn rsplit_once(s: Seq<char>, pat: Seq<char>) -> Option<(Seq<char>, Seq<char>)> {
    match last_match(s, pat) {
        Some(i) => Some((s.take(i), s.skip(i + pat.len()))),
        None => None,
    }
}

pub fn split_once_at(s: &Vec<char>, pat: &Vec<char>) -> (r: Option<(Vec<char>, Vec<char>)>)
    ensures
        r matches Some(p) ==> split_once(s@, pat@) == Some((p.0@, p.1@)),
        r is None ==> split_once(s@, pat@) is None,
{
    match find(s, pat) {
        Some(i) => {
            let a = slice_of(s, 0, i);
            let n = s.len();
            let m = pat.len();
            let b = slice_of(s, i + m, n);
            assert(a@ =~= s@.take(i as int));
            assert(b@ =~= s@.skip(i + pat@.len()));
            Some((a, b))
        },
        None => None,
    }
}

pub fn rsplit_once_at(s: &Vec<char>, pat: &Vec<char>) -> (r: Option<(Vec<char>, Vec<char>)>)
    ensures
        r matches Some(p) ==> rsplit_once(s@, pat@) == Some((p.0@, p.1@)),
        r is None ==> rsplit_once(s@, pat@) is None,
{
    match rfind(s, pat) {
        Some(i) => {
            let a = slice_of(s, 0, i);
            let n = s.len();
            let m = pat.len();
            let b = slice_of(s, i + m, n);
            assert(a@ =~= s@.take(i as int));
            assert(b@ =~= s@.skip(i + pat@.len()));
            Some((a, b))
        },
        None => None,
    }
}

/// `str::starts_with`.
pub open spec fn starts_with(s: Seq<char>, pat: Seq<char>) -> bool {
    pat.len() <= s.len() && s.take(pat.len() as int) == pat
}

pub fn has_prefix(s: &Vec<char>, pat: &Vec<char>) -> (b: bool)
    ensures
        b == starts_with(s@, pat@),
{
    let b = matches_here(s, pat, 0);
    assert(s@.subrange(0, pat@.len() as int) =~= s@.take(pat@.len() as int));
    b
}

/// The trimmed copy of `s`.
pub fn trimmed(s: &Vec<char>) -> (r: Vec<char>)
    ensures
        r@ == trim(s@),
{
    let (a, b) = trim_bounds(s, 0, s.len());
    assert(s@.subrange(0, s@.len() as int) =~= s@);
    slice_of(s, a, b)
}

/// Character-wise equality of two sequences.
pub fn same_chars(a: &Vec<char>, b: &Vec<char>) -> (r: bool)
    ensures
        r == (a@ == b@),
{
    if a.len() != b.len() {
        return false;
    }
    let mut i: usize = 0;
    while i < a.len()
        invariant
            a@.len() == b@.len(),
            i <= a@.len(),
            forall|j: int| 0 <= j < i ==> a@[j] == b@[j],
        decreases a@.len() - i,
    {
        if a[i] != b[i] {
            return false;
        }
        i += 1;
    }
    assert(a@ =~= b@);
    true
}

pub fn str_eq(a: &Vec<char>, b: &str) -> (r: bool)
    ensures
        r == (a@ == b@),
{
    let bv = to_chars(b);
    same_chars(a, &bv)
}


/// The views of a vector of character vectors.
pub open spec fn views(p: Seq<Vec<char>>) -> Seq<Seq<char>> {
    p.map_values(|x: Vec<char>| x@)
}

/// `s.split(c)`, each piece copied out.
pub fn split_pieces(s: &Vec<char>, c: char) -> (p: Vec<Vec<char>>)
    ensures
        views(p@) == split_char(s@, c),
{
    let n = s.len();
    let mut p: Vec<Vec<char>> = Vec::new();
    let mut start: usize = 0;
    let mut i: usize = 0;
    assert(s@.take(0) =~= Seq::<char>::empty());
    assert(views(p@).push(s@.subrange(0, 0)) =~= seq![Seq::<char>::empty()]);
    while i < n
        invariant
            n == s@.len(),
            start <= i <= n,
            split_char(s@.take(i as int), c) == views(p@).push(s@.subrange(start as int, i as int)),
        decreases n - i,
    {
        assert(s@.take(i + 1).drop_last() =~= s@.take(i as int));
        assert(s@.take(i + 1).last() == s@[i as int]);
        let ghost q = views(p@);
        if s[i] == c {
            let piece = slice_of(s, start, i);
            p.push(piece);
            start = i + 1;
            assert(views(p@) =~= q.push(piece@));
            assert(s@.subrange(start as int, i + 1) =~= Seq::<char>::empty());
            assert(split_char(s@.take(i + 1), c) =~= views(p@).push(
                s@.subrange(start as int, i + 1),
            ));
        } else {
            assert(s@.subrange(start as int, i + 1) =~= s@.subrange(start as int, i as int).push(
                s@[i as int],
            ));
            assert(split_char(s@.take(i + 1), c) =~= views(p@).push(
                s@.subrange(start as int, i + 1),
            ));
        }
        i += 1;
    }
    assert(s@.take(n as int) =~= s@);
    let last = slice_of(s, start, n);
    let ghost q = views(p@);
    p.push(last);
    assert(views(p@) =~= q.push(last@));
    p
}


/// The pieces of `s` between whitespace characters (empty pieces included).
pub open spec fn split_ws(s: Seq<char>) -> Seq<Seq<char>>
    decreases s.len(),
{
    if s.len() == 0 {
        seq![Seq::empty()]
    } else {
        let p = split_ws(s.drop_last());
        if is_ws(s.last()) {
            p.push(Seq::empty())
        } else {
            p.update(p.len() - 1, p.last().push(s.last()))
        }
    }
}

/// Splitting at whitespace always gives at least one piece.
pub proof fn lemma_split_ws_nonempty(s: Seq<char>)
    ensures
        split_ws(s).len() >= 1,
    decreases s.len(),
{
    if s.len() > 0 {
        lemma_split_ws_nonempty(s.drop_last());
    }
}

/// The non-empty pieces, in order.
pub open spec fn non_empty(p: Seq<Seq<char>>) -> Seq<Seq<char>>
    decreases p.len(),
{
    if p.len() == 0 {
        Seq::empty()
    } else if p.last().len() > 0 {
        non_empty(p.drop_last()).push(p.last())
    } else {
        non_empty(p.drop_last())
    }
}

/// The words of `s` (`str::split_whitespace`).
pub open spec fn words(s: Seq<char>) -> Seq<Seq<char>> {
    non_empty(split_ws(s))
}

/// The words of `s`, each copied out.
pub fn split_words(s: &Vec<char>) -> (w: Vec<Vec<char>>)
    ensures
        views(w@) == words(s@),
{
    let n = s.len();
    let mut w: Vec<Vec<char>> = Vec::new();
    let mut start: usize = 0;
    let mut i: usize = 0;
    assert(s@.take(0) =~= Seq::<char>::empty());
    assert(views(w@) =~= Seq::<Seq<char>>::empty());
    assert(split_ws(Seq::<char>::empty()).drop_last() =~= Seq::<Seq<char>>::empty());
    while i < n
        invariant
            n == s@.len(),
            start <= i <= n,
            split_ws(s@.take(i as int)).len() >= 1,
            split_ws(s@.take(i as int)).last() == s@.subrange(start as int, i as int),
            views(w@) == non_empty(split_ws(s@.take(i as int)).drop_last()),
        decreases n - i,
    {
        let ghost p = split_ws(s@.take(i as int));
        assert(s@.take(i + 1).drop_last() =~= s@.take(i as int));
        assert(s@.take(i + 1).last() == s@[i as int]);
        if is_whitespace(s[i]) {
            let ghost before = views(w@);
            if start < i {
                let piece = slice_of(s, start, i);
                w.push(piece);
                assert(views(w@) =~= before.push(piece@));
            }
            assert(split_ws(s@.take(i + 1)) == p.push(Seq::empty()));
            assert(p.push(Seq::empty()).drop_last() =~= p);
            assert(p =~= p.drop_last().push(p.last()));
            start = i + 1;
            assert(s@.subrange(start as int, i + 1) =~= Seq::<char>::empty());
        } else {
            let ghost q = p.update(p.len() - 1, p.last().push(s@[i as int]));
            assert(split_ws(s@.take(i + 1)) == q);
            assert(q.drop_last() =~= p.drop_last());
            assert(s@.subrange(start as int, i + 1) =~= s@.subrange(start as int, i as int).push(
                s@[i as int],
            ));
        }
        i += 1;
    }
    assert(s@.take(n as int) =~= s@);
    let ghost p = split_ws(s@);
    assert(p =~= p.drop_last().push(p.last()));
    if start < n {
        let ghost before = views(w@);
        let piece = slice_of(s, start, n);
        w.push(piece);
        assert(views(w@) =~= before.push(piece@));
    }
    w
}

/// `parts` joined with `sep`.
pub open spec fn join(parts: Seq<Seq<char>>, sep: Seq<char>) -> Seq<char>
    decreases parts.len(),
{
    if parts.len() == 0 {
        Seq::empty()
    } else if parts.len() == 1 {
        parts[0]
    } else {
        join(parts.drop_last(), sep) + sep + parts.last()
    }
}

pub fn join_strings(parts: &Vec<String>, sep: &str) -> (s: String)
    ensures
        s@ == join(parts@.map_values(|p: String| p@), sep@),
{
    let ghost pv = parts@.map_values(|p: String| p@);
    let mut s = String::new();
    let mut i: usize = 0;
    assert(pv.take(0) =~= Seq::<Seq<char>>::empty());
    while i < parts.len()
        invariant
            i <= parts@.len(),
            pv == parts@.map_values(|p: String| p@),
            s@ == join(pv.take(i as int), sep@),
        decreases parts@.len() - i,
    {
        if i > 0 {
            s.append(sep);
        }
        s.append(parts[i].as_str());
        assert(pv.take(i + 1).drop_last() =~= pv.take(i as int));
        if i == 0 {
            assert(pv.take(1) =~= seq![pv[0]]);
        }
        i += 1;
    }
    assert(pv.take(parts@.len() as int) =~= pv);
    s
}


/// The first match is a match.
pub proof fn lemma_first_match_matches(s: Seq<char>, pat: Seq<char>)
    ensures
        first_match(s, pat) matches Some(i) ==> matches_at(s, pat, i),
{
}

/// `s` with every occurrence of `pat`, scanned left to right, replaced by `rep`
/// (`str::replace`).
pub open spec fn replace_all(s: Seq<char>, pat: Seq<char>, rep: Seq<char>) -> Seq<char>
    decreases s.len(),
{
    if pat.len() == 0 {
        s
    } else {
        match first_match(s, pat) {
            Some(i) => {
                proof {
                    lemma_first_match_matches(s, pat);
                }
                s.take(i) + rep + replace_all(s.skip(i + pat.len()), pat, rep)
            },
            None => s,
        }
    }
}

pub fn replace_all_exec(s: &Vec<char>, pat: &Vec<char>, rep: &Vec<char>) -> (r: Vec<char>)
    requires
        pat@.len() > 0,
    ensures
        r@ == replace_all(s@, pat@, rep@),
    decreases s@.len(),
{
    match find(s, pat) {
        Some(i) => {
            let n = s.len();
            let m = pat.len();
            let mut r = slice_of(s, 0, i);
            let rest = slice_of(s, i + m, n);
            let tail = replace_all_exec(&rest, pat, rep);
            let ghost r0 = r@;
            let mut k: usize = 0;
            while k < rep.len()
                invariant
                    k <= rep@.len(),
                    r@ == r0 + rep@.take(k as int),
                decreases rep@.len() - k,
            {
                r.push(rep[k]);
                k += 1;
                assert(r@ =~= r0 + rep@.take(k as int));
            }
            let ghost r1 = r@;
            let mut k: usize = 0;
            while k < tail.len()
                invariant
                    k <= tail@.len(),
                    r@ == r1 + tail@.take(k as int),
                decreases tail@.len() - k,
            {
                r.push(tail[k]);
                k += 1;
                assert(r@ =~= r1 + tail@.take(k as int));
            }
            assert(rep@.take(rep@.len() as int) =~= rep@);
            assert(tail@.take(tail@.len() as int) =~= tail@);
            assert(r0 =~= s@.take(i as int));
            assert(rest@ =~= s@.skip(i + pat@.len()));
            r
        },
        None => slice_of(s, 0, s.len()),
    }
}

/// `s.trim_end()`, copied out.
pub fn trimmed_end(s: &Vec<char>, hi: usize) -> (r: Vec<char>)
    requires
        hi <= s@.len(),
    ensures
        r@ == trim_end(s@.take(hi as int)),
{
    let mut b = hi;
    while b > 0 && is_whitespace(s[b - 1])
        invariant
            b <= hi <= s@.len(),
            trim_end(s@.take(hi as int)) == trim_end(s@.take(b as int)),
        decreases b,
    {
        assert(s@.take(b as int).drop_last() =~= s@.take(b - 1));
        b -= 1;
    }
    let r = slice_of(s, 0, b);
    assert(r@ =~= s@.take(b as int));
    r
}

/// The words of `s` joined with single spaces (`split_whitespace().collect().join(" ")`).
pub fn normalize_spaces(s: &Vec<char>) -> (r: Vec<char>)
    ensures
        r@ == join(words(s@), seq![' ']),
{
    let w = split_words(s);
    let mut r: Vec<char> = Vec::new();
    let mut i: usize = 0;
    assert(views(w@).take(0) =~= Seq::<Seq<char>>::empty());
    while i < w.len()
        invariant
            i <= w@.len(),
            r@ == join(views(w@).take(i as int), seq![' ']),
        decreases w@.len() - i,
    {
        let ghost before = r@;
        if i > 0 {
            r.push(' ');
        }
        let mut k: usize = 0;
        let ghost mid = r@;
        while k < w[i].len()
            invariant
                i < w@.len(),
                k <= w@[i as int]@.len(),
                r@ == mid + w@[i as int]@.take(k as int),
            decreases w@[i as int]@.len() - k,
        {
            r.push(w[i][k]);
            k += 1;
            assert(r@ =~= mid + w@[i as int]@.take(k as int));
        }
        assert(w@[i as int]@.take(w@[i as int]@.len() as int) =~= w@[i as int]@);
        let ghost t = views(w@).take(i + 1);
        assert(t.drop_last() =~= views(w@).take(i as int));
        assert(t.last() == w@[i as int]@);
        if i == 0 {
            assert(t =~= seq![w@[0]@]);
            assert(r@ =~= w@[0]@);
        } else {
            assert(r@ =~= before + seq![' '] + w@[i as int]@);
        }
        i += 1;
    }
    assert(views(w@).take(w@.len() as int) =~= views(w@));
    r
}

} // verus!

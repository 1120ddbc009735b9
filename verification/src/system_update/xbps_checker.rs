//! Reading xbps output: which packages have updates, and the installed versions.

use vstd::prelude::*;
use crate::decimal::{is_ascii_digit, is_digit};
use crate::strings::{
    line_ranges, lines, ranges_hold, slice_of, split_words, string_from, to_chars, trim,
    trim_bounds, views, words,
};
use crate::system_update::available_package_update::AvailablePackageUpdate;

verus! {

/// At `i` stands a `-` followed by an ASCII digit.
pub open spec fn is_version_start(s: Seq<char>, i: int) -> bool {
    0 <= i && i + 1 < s.len() && s[i] == '-' && is_digit(s[i + 1])
}

pub open spec fn is_last_version_start(s: Seq<char>, i: int) -> bool {
    is_version_start(s, i) && forall|j: int| i < j < s.len() ==> !is_version_start(s, j)
}

/// A `pkgver` such as `foo-bar-1.2_3` split into name and version at the last `-` that
/// is followed by a digit.
pub open spec fn spec_split_pkg_ver(s: Seq<char>) -> Option<(Seq<char>, Seq<char>)> {
    if exists|i: int| is_last_version_start(s, i) {
        let i = choose|i: int| is_last_version_start(s, i);
        Some((s.take(i), s.skip(i + 1)))
    } else {
        None
    }
}

/// Splitting a `pkgver` loses nothing: name, `-` and version make up the input, the
/// version starts with a digit, and no later `-` in it is followed by a digit.
pub proof fn lemma_split_pkg_ver_rejoins(s: Seq<char>)
    ensures
        spec_split_pkg_ver(s) matches Some(p) ==> {
            &&& p.0 + seq!['-'] + p.1 == s
            &&& p.1.len() > 0 && is_digit(p.1[0])
            &&& forall|j: int| 0 <= j < p.1.len() ==> !is_version_start(p.1, j)
        },
{
    if exists|i: int| is_last_version_start(s, i) {
        let i = choose|i: int| is_last_version_start(s, i);
        let n = s.take(i);
        let v = s.skip(i + 1);
        assert(n + seq!['-'] + v =~= s);
        assert forall|j: int| 0 <= j < v.len() implies !is_version_start(v, j) by {
            if is_version_start(v, j) {
                assert(is_version_start(s, i + 1 + j));
            }
        }
    }
}

pub fn split_pkg_ver(s: &Vec<char>) -> (r: Option<(String, String)>)
    ensures
        r matches Some(p) ==> spec_split_pkg_ver(s@) == Some((p.0@, p.1@)),
        r is None ==> spec_split_pkg_ver(s@) is None,
{
    let n = s.len();
    if n < 2 {
        assert forall|i: int| !is_last_version_start(s@, i) by {}
        return None;
    }
    let mut i: usize = n - 1;
    while i > 0
        invariant
            n == s@.len(),
            i <= n - 1,
            forall|j: int| i <= j < n ==> !is_version_start(s@, j),
        decreases i,
    {
        i -= 1;
        if s[i] == '-' && is_ascii_digit(s[i + 1]) {
            assert(is_last_version_start(s@, i as int));
            proof {
                let k = choose|k: int| is_last_version_start(s@, k);
                if k < i as int {
                    assert(!is_version_start(s@, i as int));
                } else if (i as int) < k {
                    assert(!is_version_start(s@, k));
                }
            }
            let name = slice_of(s, 0, i);
            let ver = slice_of(s, i + 1, n);
            assert(name@ =~= s@.take(i as int));
            assert(ver@ =~= s@.skip(i + 1));
            return Some((string_from(&name), string_from(&ver)));
        }
    }
    assert forall|k: int| !is_last_version_start(s@, k) by {
        if 0 <= k < n {
            assert(!is_version_start(s@, k));
        }
    }
    None
}

/// The pending updates that `xbps-install -un` lists: for each non-blank line, its
/// first word split into name and new version; lines whose word does not split are
/// skipped.
pub open spec fn spec_pending(ls: Seq<Seq<char>>) -> Seq<(Seq<char>, Seq<char>)>
    decreases ls.len(),
{
    if ls.len() == 0 {
        Seq::empty()
    } else {
        let p = spec_pending(ls.drop_last());
        let w = words(ls.last());
        if trim(ls.last()).len() > 0 && w.len() > 0 && spec_split_pkg_ver(w[0]) is Some {
            p.push(spec_split_pkg_ver(w[0])->0)
        } else {
            p
        }
    }
}

/// The installed packages that `xbps-query -l` lists: each line's second word split
/// into name and version; lines whose word does not split are skipped.
pub open spec fn spec_installed(ls: Seq<Seq<char>>) -> Seq<(Seq<char>, Seq<char>)>
    decreases ls.len(),
{
    if ls.len() == 0 {
        Seq::empty()
    } else {
        let p = spec_installed(ls.drop_last());
        let w = words(ls.last());
        if w.len() > 1 && spec_split_pkg_ver(w[1]) is Some {
            p.push(spec_split_pkg_ver(w[1])->0)
        } else {
            p
        }
    }
}

pub open spec fn pair_views(p: Seq<(String, String)>) -> Seq<(Seq<char>, Seq<char>)> {
    p.map_values(|x: (String, String)| (x.0@, x.1@))
}

/// Reads the listing of `xbps-install -un`, in line order.
pub fn pending_updates(stdout: &str) -> (r: Vec<(String, String)>)
    ensures
        pair_views(r@) == spec_pending(lines(stdout@)),
{
    pkg_ver_column(stdout, 0)
}

/// Reads the listing of `xbps-query -l`, in line order.
pub fn installed_versions(stdout: &str) -> (r: Vec<(String, String)>)
    ensures
        pair_views(r@) == spec_installed(lines(stdout@)),
{
    pkg_ver_column(stdout, 1)
}

fn pkg_ver_column(stdout: &str, column: usize) -> (r: Vec<(String, String)>)
    requires
        column <= 1,
    ensures
        column == 0 ==> pair_views(r@) == spec_pending(lines(stdout@)),
        column == 1 ==> pair_views(r@) == spec_installed(lines(stdout@)),
{
    let v = to_chars(stdout);
    let ranges = line_ranges(&v);
    let ghost ls = lines(v@);
    let mut r: Vec<(String, String)> = Vec::new();
    let mut k: usize = 0;
    assert(ls.take(0) =~= Seq::<Seq<char>>::empty());
    assert(pair_views(r@) =~= Seq::<(Seq<char>, Seq<char>)>::empty());
    while k < ranges.len()
        invariant
            ranges_hold(v@, ranges@, ls),
            ls == lines(v@),
            column <= 1,
            k <= ranges@.len(),
            column == 0 ==> pair_views(r@) == spec_pending(ls.take(k as int)),
            column == 1 ==> pair_views(r@) == spec_installed(ls.take(k as int)),
        decreases ranges@.len() - k,
    {
        let (lo, hi) = ranges[k];
        let line = slice_of(&v, lo, hi);
        assert(line@ == ls[k as int]);
        assert(ls.take(k + 1).drop_last() =~= ls.take(k as int));
        assert(ls.take(k + 1).last() == ls[k as int]);
        let (a, b) = trim_bounds(&v, lo, hi);
        let w = split_words(&line);
        let ghost before = pair_views(r@);
        let blank = column == 0 && a == b;
        if !blank && column < w.len() {
            match split_pkg_ver(&w[column]) {
                Some(p) => {
                    r.push(p);
                    assert(pair_views(r@) =~= before.push((p.0@, p.1@)));
                },
                None => {},
            }
        }
        k += 1;
    }
    assert(ls.take(ranges@.len() as int) =~= ls);
    r
}

/// The version recorded for `name`: the last entry for it wins, and an unknown package
/// has the empty version.
pub open spec fn spec_version_of(installed: Seq<(Seq<char>, Seq<char>)>, name: Seq<char>) -> Seq<
    char,
>
    decreases installed.len(),
{
    if installed.len() == 0 {
        Seq::empty()
    } else if installed.last().0 == name {
        installed.last().1
    } else {
        spec_version_of(installed.drop_last(), name)
    }
}

/// Pairs each pending update with the installed version of its package.
pub fn merge_updates(pending: Vec<(String, String)>, installed: &Vec<(String, String)>) -> (r: Vec<
    AvailablePackageUpdate,
>)
    ensures
        r@.len() == pending@.len(),
        forall|i: int|
            0 <= i < r@.len() ==> (#[trigger] r@[i]).name@ == pending@[i].0@ && r@[i].to_version@
                == pending@[i].1@ && r@[i].from_version@ == spec_version_of(
                pair_views(installed@),
                pending@[i].0@,
            ),
{
    let mut r: Vec<AvailablePackageUpdate> = Vec::new();
    let mut i: usize = 0;
    while i < pending.len()
        invariant
            i <= pending@.len(),
            r@.len() == i,
            forall|k: int|
                0 <= k < i ==> (#[trigger] r@[k]).name@ == pending@[k].0@ && r@[k].to_version@
                    == pending@[k].1@ && r@[k].from_version@ == spec_version_of(
                    pair_views(installed@),
                    pending@[k].0@,
                ),
        decreases pending@.len() - i,
    {
        let from_version = version_of(installed, &pending[i].0);
        r.push(
            AvailablePackageUpdate {
                name: pending[i].0.clone(),
                from_version,
                to_version: pending[i].1.clone(),
            },
        );
        i += 1;
    }
    r
}

fn version_of(installed: &Vec<(String, String)>, name: &String) -> (v: String)
    ensures
        v@ == spec_version_of(pair_views(installed@), name@),
{
    let mut i = installed.len();
    assert(installed@.take(installed@.len() as int) =~= installed@);
    while i > 0
        invariant
            i <= installed@.len(),
            spec_version_of(pair_views(installed@), name@) == spec_version_of(
                pair_views(installed@.take(i as int)),
                name@,
            ),
        decreases i,
    {
        let ghost t = pair_views(installed@.take(i as int));
        assert(t.drop_last() =~= pair_views(installed@.take(i - 1)));
        assert(t.last() == (installed@[i - 1].0@, installed@[i - 1].1@));
        if installed[i - 1].0 == *name {
            return installed[i - 1].1.clone();
        }
        i -= 1;
    }
    assert(pair_views(installed@.take(0)) =~= Seq::<(Seq<char>, Seq<char>)>::empty());
    String::new()
}

} // verus!

//! The decisions around `findmnt` and `btrfs scrub`: which filesystems to scrub and how
//! a finished scrub's status output is read.

use vstd::prelude::*;
use crate::btrfs::btrfs_error::BtrfsError;
use crate::btrfs::btrfs_filesystem::BtrfsFilesystem;
use crate::btrfs::scrub_result::{duration_overflows, spec_scrub_parse, ScrubResult};
use crate::command_runner::{string_from_utf8, utf8_error_text};

verus! {

/// Whether some filesystem before index `i` has the UUID of `fs[i]`.
pub open spec fn uuid_seen_before(fs: Seq<BtrfsFilesystem>, i: int) -> bool {
    exists|j: int| 0 <= j < i && fs[j].uuid@ == fs[i].uuid@
}

/// The filesystems whose UUID has not been seen earlier in the list, in order.
pub open spec fn spec_dedupe(fs: Seq<BtrfsFilesystem>) -> Seq<BtrfsFilesystem>
    decreases fs.len(),
{
    if fs.len() == 0 {
        Seq::empty()
    } else if uuid_seen_before(fs, fs.len() - 1) {
        spec_dedupe(fs.drop_last())
    } else {
        spec_dedupe(fs.drop_last()).push(fs.last())
    }
}

/// Every filesystem that deduplication keeps comes from the input list.
pub proof fn lemma_dedupe_from_input(fs: Seq<BtrfsFilesystem>)
    ensures
        forall|j: int|
            0 <= j < spec_dedupe(fs).len() ==> exists|i: int|
                0 <= i < fs.len() && #[trigger] spec_dedupe(fs)[j] == fs[i],
    decreases fs.len(),
{
    if fs.len() > 0 {
        let p = fs.drop_last();
        lemma_dedupe_from_input(p);
        assert forall|j: int| 0 <= j < spec_dedupe(fs).len() implies exists|i: int|
            0 <= i < fs.len() && #[trigger] spec_dedupe(fs)[j] == fs[i] by {
            if j < spec_dedupe(p).len() {
                let i = choose|i: int| 0 <= i < p.len() && spec_dedupe(p)[j] == p[i];
                assert(fs[i] == p[i]);
            } else {
                assert(spec_dedupe(fs)[j] == fs[fs.len() - 1]);
            }
        }
    }
}

/// Deduplication leaves no two filesystems with the same UUID.
pub proof fn lemma_dedupe_unique(fs: Seq<BtrfsFilesystem>)
    ensures
        forall|a: int, b: int|
            0 <= a < b < spec_dedupe(fs).len() ==> #[trigger] spec_dedupe(fs)[a].uuid@
                != #[trigger] spec_dedupe(fs)[b].uuid@,
    decreases fs.len(),
{
    if fs.len() > 0 {
        let p = fs.drop_last();
        lemma_dedupe_unique(p);
        lemma_dedupe_from_input(p);
        let d = spec_dedupe(fs);
        if !uuid_seen_before(fs, fs.len() - 1) {
            assert forall|a: int, b: int| 0 <= a < b < d.len() implies #[trigger] d[a].uuid@
                != #[trigger] d[b].uuid@ by {
                if b == d.len() - 1 {
                    let i = choose|i: int| 0 <= i < p.len() && spec_dedupe(p)[a] == p[i];
                    assert(fs[i] == p[i]);
                    if d[a].uuid@ == d[b].uuid@ {
                        assert(fs[i].uuid@ == fs[fs.len() - 1].uuid@);
                    }
                } else {
                    assert(d[a] == spec_dedupe(p)[a]);
                    assert(d[b] == spec_dedupe(p)[b]);
                }
            }
        }
    }
}

/// Every UUID of the input list is kept by one filesystem of the deduplicated list.
pub proof fn lemma_dedupe_covers(fs: Seq<BtrfsFilesystem>)
    ensures
        forall|i: int|
            0 <= i < fs.len() ==> exists|j: int|
                0 <= j < spec_dedupe(fs).len() && spec_dedupe(fs)[j].uuid@ == (#[trigger] fs[i]).uuid@,
    decreases fs.len(),
{
    if fs.len() > 0 {
        let p = fs.drop_last();
        lemma_dedupe_covers(p);
        let d = spec_dedupe(fs);
        assert forall|i: int| 0 <= i < fs.len() implies exists|j: int|
            0 <= j < d.len() && d[j].uuid@ == (#[trigger] fs[i]).uuid@ by {
            if i < fs.len() - 1 {
                assert(fs[i] == p[i]);
                let j = choose|j: int|
                    0 <= j < spec_dedupe(p).len() && spec_dedupe(p)[j].uuid@ == p[i].uuid@;
                assert(d[j] == spec_dedupe(p)[j]);
            } else if uuid_seen_before(fs, fs.len() - 1) {
                let k = choose|k: int| 0 <= k < fs.len() - 1 && (#[trigger] fs[k]).uuid@ == fs[fs.len() - 1].uuid@;
                assert(fs[k] == p[k]);
                let j = choose|j: int|
                    0 <= j < spec_dedupe(p).len() && spec_dedupe(p)[j].uuid@ == p[k].uuid@;
                assert(d[j] == spec_dedupe(p)[j]);
            } else {
                assert(d[d.len() - 1] == fs[i]);
            }
        }
    }
}

/// `findmnt` exits 1, with no output, when no filesystem matches: only a code above 1 is
/// a failure.
pub fn findmnt_failed(code: i32) -> (b: bool)
    ensures
        b == (code > 1),
{
    code > 1
}

/// `btrfs scrub start -B` exits 3 when the scrub found errors, which is a result to
/// report, not a failure of the command.
pub fn scrub_start_failed(code: i32) -> (b: bool)
    ensures
        b == (code != 0 && code != 3),
{
    code != 0 && code != 3
}

/// Keeps the first filesystem of each UUID, in the order given.
pub fn dedupe_by_uuid(filesystems: Vec<BtrfsFilesystem>) -> (r: Vec<BtrfsFilesystem>)
    ensures
        r@ == spec_dedupe(filesystems@),
{
    let mut r: Vec<BtrfsFilesystem> = Vec::new();
    let mut i: usize = 0;
    assert(filesystems@.take(0) =~= Seq::<BtrfsFilesystem>::empty());
    while i < filesystems.len()
        invariant
            i <= filesystems@.len(),
            r@ == spec_dedupe(filesystems@.take(i as int)),
        decreases filesystems@.len() - i,
    {
        let ghost t = filesystems@.take(i + 1);
        assert(t.drop_last() =~= filesystems@.take(i as int));
        assert(t.last() == filesystems@[i as int]);
        let mut seen = false;
        let mut j: usize = 0;
        while j < i
            invariant
                j <= i < filesystems@.len(),
                t == filesystems@.take(i + 1),
                seen <==> exists|k: int| 0 <= k < j && t[k].uuid@ == t[i as int].uuid@,
            decreases i - j,
        {
            if filesystems[j].uuid == filesystems[i].uuid {
                assert(t[j as int] == filesystems@[j as int]);
                seen = true;
            } else {
                assert(t[j as int] == filesystems@[j as int]);
            }
            j += 1;
        }
        assert(seen == uuid_seen_before(t, t.len() - 1));
        if !seen {
            r.push(filesystems[i].clone());
        }
        i += 1;
    }
    assert(filesystems@.take(filesystems@.len() as int) =~= filesystems@);
    r
}

/// Reads the output of `btrfs scrub status -R <mount>`: it must be UTF-8 text, which
/// is then parsed.
pub fn parse_scrub_status_output(output: Vec<u8>) -> (r: Result<ScrubResult, BtrfsError>)
    requires
        vstd::utf8::valid_utf8(output@) ==> !duration_overflows(
            vstd::utf8::decode_utf8(output@),
        ),
    ensures
        !vstd::utf8::valid_utf8(output@) ==> (r matches Err(BtrfsError::FormatError(m)) && m@
            == utf8_error_text(output@)),
        vstd::utf8::valid_utf8(output@) ==> match spec_scrub_parse(
            vstd::utf8::decode_utf8(output@),
        ) {
            Ok(v) => r matches Ok(x) && x@ == v,
            Err(m) => r matches Err(BtrfsError::FormatError(x)) && x@ == m,
        },
{
    match string_from_utf8(output) {
        Ok(text) => ScrubResult::parse(text.as_str()),
        Err(m) => Err(BtrfsError::FormatError(m)),
    }
}

} // verus!

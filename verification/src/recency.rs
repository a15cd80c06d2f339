//! Listing the files of a package, most recently modified first.

use vstd::prelude::*;
use crate::artifact::{package_name, package_of};
use crate::text::{ends_with, same_text};
use crate::workdir::{FileView, WorkDir};

verus! {

/// `f` belongs to `package`, which is to say that its name carries that
/// package name, and its name ends in `suffix`.
pub open spec fn is_package_file(f: FileView, package: Seq<char>, suffix: Seq<char>) -> bool {
    package_of(f.name) == package && suffix.is_suffix_of(f.name)
}

/// How recent a modification time is; an unknown time is older than any
/// known one.
pub open spec fn recency(modified: Option<u64>) -> int {
    match modified {
        Some(t) => t as int,
        None => -1,
    }
}

/// The file at place `i` of `dir` is listed before the one at place `j`: it
/// is the more recent of the two or, where both are equally recent, the one
/// that comes first in the directory.
pub open spec fn listed_before(dir: Seq<FileView>, i: int, j: int) -> bool {
    recency(dir[i].modified) > recency(dir[j].modified) || (recency(dir[i].modified) == recency(
        dir[j].modified,
    ) && i < j)
}

/// `order` lists the places of exactly the files of `package` that end in
/// `suffix`, each once, most recent first.
pub open spec fn newest_first(
    dir: Seq<FileView>,
    package: Seq<char>,
    suffix: Seq<char>,
    order: Seq<usize>,
) -> bool {
    &&& forall|p: int|
        0 <= p < order.len() ==> (#[trigger] order[p]) < dir.len() && is_package_file(
            dir[order[p] as int],
            package,
            suffix,
        )
    &&& forall|p: int, q: int|
        0 <= p < q < order.len() ==> listed_before(
            dir,
            #[trigger] order[p] as int,
            #[trigger] order[q] as int,
        )
    &&& forall|i: int|
        0 <= i < dir.len() && is_package_file(#[trigger] dir[i], package, suffix) ==> exists|
            p: int,
        |
            0 <= p < order.len() && order[p] == i
}

/// Two listings of the same files, both most recent first, agree up to any
/// place that both reach.
proof fn lemma_newest_first_agree(
    dir: Seq<FileView>,
    package: Seq<char>,
    suffix: Seq<char>,
    a: Seq<usize>,
    b: Seq<usize>,
    n: int,
)
    requires
        newest_first(dir, package, suffix, a),
        newest_first(dir, package, suffix, b),
        0 <= n <= a.len(),
    ensures
        n <= b.len(),
        forall|p: int| 0 <= p < n ==> a[p] == b[p],
    decreases n,
{
    if n > 0 {
        lemma_newest_first_agree(dir, package, suffix, a, b, n - 1);
        let x = a[n - 1];
        assert(is_package_file(dir[x as int], package, suffix));
        let q = choose|q: int| 0 <= q < b.len() && b[q] == x;
        if q < n - 1 {
            // x stands earlier in b, hence earlier in a too
            assert(a[q] == b[q]);
            assert(listed_before(dir, a[q] as int, a[n - 1] as int));
            assert(false);
        }
        if q > n - 1 {
            let y = b[n - 1];
            assert(is_package_file(dir[y as int], package, suffix));
            assert(listed_before(dir, y as int, x as int));
            let r = choose|r: int| 0 <= r < a.len() && a[r] == y;
            if r < n - 1 {
                assert(b[r] == a[r]);
                assert(listed_before(dir, b[r] as int, b[n - 1] as int));
                assert(false);
            } else if r > n - 1 {
                assert(listed_before(dir, a[n - 1] as int, a[r] as int));
                assert(false);
            } else {
                assert(false);
            }
        }
        assert(q == n - 1);
    }
}

/// There is one listing only of a package's files, most recent first.
pub proof fn lemma_newest_first_unique(
    dir: Seq<FileView>,
    package: Seq<char>,
    suffix: Seq<char>,
    a: Seq<usize>,
    b: Seq<usize>,
)
    requires
        newest_first(dir, package, suffix, a),
        newest_first(dir, package, suffix, b),
    ensures
        a == b,
{
    lemma_newest_first_agree(dir, package, suffix, a, b, a.len() as int);
    lemma_newest_first_agree(dir, package, suffix, b, a, b.len() as int);
    assert(a =~= b);
}

/// Whether the time `a` is at least as recent as `b`.
fn at_least_as_recent(a: Option<u64>, b: Option<u64>) -> (r: bool)
    ensures
        r == (recency(a) >= recency(b)),
{
    match (a, b) {
        (Some(x), Some(y)) => x >= y,
        (Some(_), None) => true,
        (None, Some(_)) => false,
        (None, None) => true,
    }
}

/// The places in `dir` of the files of `package` that end in `suffix`, most
/// recently modified first; files of the same time keep their directory
/// order.
pub fn sorted_package_files(dir: &WorkDir, package: &str, suffix: &str) -> (order: Vec<usize>)
    ensures
        newest_first(dir@, package@, suffix@, order@),
{
    let mut order: Vec<usize> = Vec::new();
    let mut i: usize = 0;
    while i < dir.len()
        invariant
            i <= dir@.len(),
            forall|p: int|
                0 <= p < order@.len() ==> (#[trigger] order@[p]) < i && is_package_file(
                    dir@[order@[p] as int],
                    package@,
                    suffix@,
                ),
            forall|p: int, q: int|
                0 <= p < q < order@.len() ==> listed_before(
                    dir@,
                    #[trigger] order@[p] as int,
                    #[trigger] order@[q] as int,
                ),
            forall|k: int|
                0 <= k < i && is_package_file(#[trigger] dir@[k], package@, suffix@) ==> exists|
                    p: int,
                |
                    0 <= p < order@.len() && order@[p] == k,
        decreases dir@.len() - i,
    {
        let name = dir.entry(i).name.as_str();
        if same_text(package_name(name).as_str(), package) && ends_with(name, suffix) {
            let modified = dir.entry(i).modified;
            let mut pos: usize = 0;
            while pos < order.len() && at_least_as_recent(dir.entry(order[pos]).modified, modified)
                invariant
                    pos <= order@.len(),
                    i < dir@.len(),
                    modified == dir@[i as int].modified,
                    forall|p: int| 0 <= p < order@.len() ==> (#[trigger] order@[p]) < i,
                    forall|p: int|
                        0 <= p < pos ==> recency(dir@[(#[trigger] order@[p]) as int].modified)
                            >= recency(modified),
                decreases order@.len() - pos,
            {
                pos += 1;
            }
            let ghost before = order@;
            order.insert(pos, i);
            proof {
                let after = order@;
                assert forall|p: int| 0 <= p < after.len() implies after[p] == (if p < pos {
                    before[p]
                } else if p == pos {
                    i
                } else {
                    before[p - 1]
                }) by {}
                assert forall|p: int, q: int| 0 <= p < q < after.len() implies listed_before(
                    dir@,
                    #[trigger] after[p] as int,
                    #[trigger] after[q] as int,
                ) by {
                    if q == pos {
                        assert(after[p] == before[p]);
                    } else if p == pos {
                        assert(after[q] == before[q - 1]);
                        if q - 1 > pos {
                            assert(listed_before(
                                dir@,
                                before[pos as int] as int,
                                before[q - 1] as int,
                            ));
                        }
                    } else {
                        let was_p = if p < pos { p } else { p - 1 };
                        let was_q = if q < pos { q } else { q - 1 };
                        assert(after[p] == before[was_p] && after[q] == before[was_q]);
                    }
                }
                assert forall|k: int|
                    0 <= k < i + 1 && is_package_file(
                        #[trigger] dir@[k],
                        package@,
                        suffix@,
                    ) implies exists|p: int| 0 <= p < after.len() && after[p] == k by {
                    if k == i {
                        assert(after[pos as int] == k);
                    } else {
                        let was = choose|p: int| 0 <= p < before.len() && before[p] == k;
                        let now_at = if was < pos { was } else { was + 1 };
                        assert(after[now_at] == k);
                    }
                }
            }
        }
        i += 1;
    }
    order
}

} // verus!

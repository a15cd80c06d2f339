//! What the installer's bookkeeping leaves in the working directory.

use vstd::prelude::*;
use crate::artifact::{backup_name, installed_name, marker_name, package_of, version_of};
use crate::deb::{
    beyond, download_steps, install_steps, newest_file, purge_ops, removals, survives_install,
};
use crate::recency::{
    is_package_file, lemma_newest_first_unique, listed_before, newest_first, recency,
};
use crate::text::{lemma_first_index_is, lemma_first_index_of};
use crate::workdir::{
    after_op, after_ops, has_file, lemma_after_op_distinct, lemma_with_file, lemma_without_file,
    names_distinct, position_of, with_file, without_file, FileOpView, FileView,
};

verus! {

/// Every operation of `ops` is a deletion.
pub open spec fn all_removals(ops: Seq<FileOpView>) -> bool {
    forall|k: int| 0 <= k < ops.len() ==> (#[trigger] ops[k]) is Remove
}

/// `ops` holds the deletion of the file called `name`.
pub open spec fn removes(ops: Seq<FileOpView>, name: Seq<char>) -> bool {
    exists|k: int| 0 <= k < ops.len() && #[trigger] ops[k] == (FileOpView::Remove { name })
}

/// The deletions of the files called `names`, in order.
pub open spec fn removals_of(names: Seq<Seq<char>>) -> Seq<FileOpView> {
    Seq::new(names.len(), |i: int| FileOpView::Remove { name: names[i] })
}

/// After a list of deletions the directory holds exactly the files that it
/// held before and that the list does not delete.
pub proof fn lemma_after_removals(dir: Seq<FileView>, ops: Seq<FileOpView>, now: u64)
    requires
        names_distinct(dir),
        all_removals(ops),
    ensures
        names_distinct(after_ops(dir, ops, now)),
        forall|name: Seq<char>| #[trigger]
            has_file(after_ops(dir, ops, now), name) == (has_file(dir, name) && !removes(
                ops,
                name,
            )),
    decreases ops.len(),
{
    if ops.len() > 0 {
        let first = ops[0];
        let rest = ops.drop_first();
        let mid = after_op(dir, first, now);
        lemma_after_op_distinct(dir, first, now);
        assert(all_removals(rest)) by {
            assert forall|k: int| 0 <= k < rest.len() implies (#[trigger] rest[k]) is Remove by {
                assert(rest[k] == ops[k + 1]);
            }
        }
        lemma_after_removals(mid, rest, now);
        let gone = first->Remove_name;
        assert(first == (FileOpView::Remove { name: gone }));
        lemma_without_file(dir, gone);
        assert forall|name: Seq<char>| #[trigger]
            has_file(after_ops(dir, ops, now), name) == (has_file(dir, name) && !removes(
                ops,
                name,
            )) by {
            if removes(rest, name) {
                let k = choose|k: int|
                    0 <= k < rest.len() && #[trigger] rest[k] == (FileOpView::Remove { name });
                assert(ops[k + 1] == (FileOpView::Remove { name }));
            }
            if removes(ops, name) {
                let k = choose|k: int|
                    0 <= k < ops.len() && #[trigger] ops[k] == (FileOpView::Remove { name });
                if k > 0 {
                    assert(rest[k - 1] == (FileOpView::Remove { name }));
                } else {
                    assert(name == gone);
                }
            }
            if name == gone {
                assert(ops[0] == (FileOpView::Remove { name }));
            }
        }
    }
}

/// The purge of a package deletes exactly the directory's files that an
/// install of the package does not leave alone.
pub proof fn lemma_purge_ops(dir: Seq<FileView>, package: Seq<char>)
    ensures
        all_removals(purge_ops(dir, package)),
        forall|name: Seq<char>| #[trigger]
            removes(purge_ops(dir, package), name) == (has_file(dir, name) && !survives_install(
                name,
                package,
            )),
    decreases dir.len(),
{
    let ops = purge_ops(dir, package);
    if dir.len() > 0 {
        let head = dir.drop_last();
        let last = dir.last();
        let inner = purge_ops(head, package);
        lemma_purge_ops(head, package);
        assert forall|name: Seq<char>| #[trigger]
            removes(ops, name) == (has_file(dir, name) && !survives_install(name, package)) by {
            if removes(inner, name) {
                let k = choose|k: int|
                    0 <= k < inner.len() && #[trigger] inner[k] == (FileOpView::Remove { name });
                assert(ops[k] == (FileOpView::Remove { name }));
                let i = choose|i: int| 0 <= i < head.len() && head[i].name == name;
                assert(dir[i].name == name);
            }
            if has_file(dir, name) && !survives_install(name, package) {
                let i = choose|i: int| 0 <= i < dir.len() && dir[i].name == name;
                if i < head.len() {
                    assert(head[i].name == name);
                    assert(removes(inner, name));
                } else {
                    assert(ops[ops.len() - 1] == (FileOpView::Remove { name }));
                }
            }
            if removes(ops, name) {
                let k = choose|k: int|
                    0 <= k < ops.len() && #[trigger] ops[k] == (FileOpView::Remove { name });
                if k < inner.len() {
                    assert(inner[k] == (FileOpView::Remove { name }));
                } else {
                    assert(last.name == name);
                    assert(dir[dir.len() - 1].name == name);
                }
            }
        }
    } else {
        assert forall|name: Seq<char>| #[trigger]
            removes(ops, name) == (has_file(dir, name) && !survives_install(name, package)) by {}
    }
}

/// The name that marks an artifact as installed carries the artifact's
/// package name and ends in `_installed.deb`.
pub proof fn lemma_marker_name(filename: Seq<char>, version: Seq<char>)
    ensures
        package_of(marker_name(package_of(filename), version)) == package_of(filename),
        "_installed.deb"@.is_suffix_of(marker_name(package_of(filename), version)),
{
    let package = package_of(filename);
    let m = marker_name(package, version);
    let tail = "_installed.deb"@;
    assert(m.skip(m.len() - tail.len()) =~= tail);
    reveal_strlit("_");
    lemma_first_index_of(filename, '_');
    assert(m[package.len() as int] == '_');
    assert forall|j: int| 0 <= j < package.len() implies m[j] != '_' by {
        assert(m[j] == filename[j]);
    }
    lemma_first_index_is(m, '_', package.len() as int);
    assert(m.take(package.len() as int) =~= package);
}

/// Where the package of the artifact is installed and
/// the directory holds the artifact that is current, a download has two
/// steps; once the first is done the directory holds the snapshot under the
/// name of the installed version, and only the second step fetches.
pub proof fn lemma_backup_precedes_fetch(
    dir: Seq<FileView>,
    url: Seq<char>,
    filename: Seq<char>,
    installed_version: Seq<char>,
    current: Seq<char>,
    now: u64,
)
    requires
        names_distinct(dir),
        has_file(dir, current),
    ensures
        ({
            let steps = download_steps(url, filename, Some(installed_version), Some(current));
            &&& steps.len() == 2
            &&& steps[0] is Copy
            &&& steps[1] == (FileOpView::Fetch { url, to: filename })
            &&& has_file(
                after_op(dir, steps[0], now),
                backup_name(package_of(filename), installed_version),
            )
        }),
{
    lemma_with_file(dir, backup_name(package_of(filename), installed_version), Some(now));
}

/// After a successful install: once the steps are done, the
/// directory holds the artifact under its installed name, once; every file
/// that is left of the artifact's package marks an installed artifact; and
/// the files of other packages, those whose names carry another package
/// name, are those from before.
pub proof fn lemma_install_bookkeeping(dir: Seq<FileView>, filename: Seq<char>, now: u64)
    requires
        names_distinct(dir),
        has_file(dir, filename),
        installed_name(filename) is Some,
    ensures
        ({
            let out = after_ops(dir, install_steps(dir, filename), now);
            let package = package_of(filename);
            &&& names_distinct(out)
            &&& has_file(out, installed_name(filename).unwrap())
            &&& forall|i: int|
                0 <= i < out.len() ==> survives_install((#[trigger] out[i]).name, package)
            &&& forall|name: Seq<char>|
                package_of(name) != package ==> (#[trigger] has_file(out, name) == has_file(
                    dir,
                    name,
                ))
        }),
{
    let package = package_of(filename);
    let marker = installed_name(filename).unwrap();
    let rename = FileOpView::Rename { from: filename, to: marker };
    let steps = install_steps(dir, filename);
    let moved = after_op(dir, rename, now);
    let purge = purge_ops(moved, package);
    let out = after_ops(dir, steps, now);

    lemma_marker_name(filename, version_of(filename).unwrap());
    assert(package_of(marker) == package);

    let kept = dir[position_of(dir, filename)].modified;
    let cut = without_file(dir, filename);
    lemma_without_file(dir, filename);
    lemma_with_file(cut, marker, kept);
    assert(moved == with_file(cut, marker, kept));
    lemma_after_op_distinct(dir, rename, now);

    assert(steps[0] == rename);
    assert(steps.drop_first() =~= purge);
    assert(out == after_ops(moved, purge, now));

    lemma_purge_ops(moved, package);
    lemma_after_removals(moved, purge, now);

    assert(has_file(moved, marker));
    assert(survives_install(marker, package));
    assert(has_file(out, marker));

    assert forall|i: int| 0 <= i < out.len() implies survives_install(
        (#[trigger] out[i]).name,
        package,
    ) by {
        let name = out[i].name;
        assert(has_file(out, name));
    }
    assert forall|name: Seq<char>| package_of(name) != package implies (#[trigger] has_file(
        out,
        name,
    ) == has_file(dir, name)) by {
        assert(survives_install(name, package));
        assert(has_file(out, name) == has_file(moved, name));
        assert(name != filename);
        assert(name != marker);
    }
}

/// Once the artifacts fetched for a group have been deleted
/// again, the directory holds none of them.
pub proof fn lemma_discarded_downloads_are_gone(
    dir: Seq<FileView>,
    fetched: Seq<Seq<char>>,
    now: u64,
)
    requires
        names_distinct(dir),
    ensures
        forall|k: int|
            0 <= k < fetched.len() ==> !has_file(
                after_ops(dir, removals_of(fetched), now),
                #[trigger] fetched[k],
            ),
        forall|name: Seq<char>|
            !fetched.contains(name) ==> (#[trigger] has_file(
                after_ops(dir, removals_of(fetched), now),
                name,
            ) == has_file(dir, name)),
{
    let ops = removals_of(fetched);
    lemma_after_removals(dir, ops, now);
    assert forall|k: int| 0 <= k < fetched.len() implies !has_file(
        after_ops(dir, ops, now),
        #[trigger] fetched[k],
    ) by {
        assert(ops[k] == (FileOpView::Remove { name: fetched[k] }));
    }
    assert forall|name: Seq<char>| !fetched.contains(name) implies (#[trigger] has_file(
        after_ops(dir, ops, now),
        name,
    ) == has_file(dir, name)) by {
        if removes(ops, name) {
            let k = choose|k: int|
                0 <= k < ops.len() && #[trigger] ops[k] == (FileOpView::Remove { name });
            assert(fetched[k] == name);
        }
    }
}

/// Once the old files of a package have been deleted, the
/// directory holds of the package's `.deb` files exactly the `keep` most
/// recently modified, and every other file that it held before.
pub proof fn lemma_cleanup_retains_newest(
    dir: Seq<FileView>,
    package: Seq<char>,
    order: Seq<usize>,
    keep: usize,
    now: u64,
)
    requires
        names_distinct(dir),
        newest_first(dir, package, ".deb"@, order),
    ensures
        ({
            let out = after_ops(dir, removals(dir, beyond(order, keep)), now);
            &&& names_distinct(out)
            &&& forall|p: int|
                0 <= p < order.len() ==> (has_file(out, dir[(#[trigger] order[p]) as int].name)
                    <==> p < keep)
            &&& forall|i: int|
                0 <= i < dir.len() && !is_package_file(#[trigger] dir[i], package, ".deb"@)
                    ==> has_file(out, dir[i].name)
            &&& forall|name: Seq<char>| #[trigger] has_file(out, name) ==> has_file(dir, name)
        }),
{
    let gone = beyond(order, keep);
    let ops = removals(dir, gone);
    let out = after_ops(dir, ops, now);
    lemma_after_removals(dir, ops, now);
    assert forall|p: int| 0 <= p < order.len() implies (has_file(
        out,
        dir[(#[trigger] order[p]) as int].name,
    ) <==> p < keep) by {
        let name = dir[order[p] as int].name;
        crate::workdir::lemma_position(dir, order[p] as int);
        if p >= keep {
            assert(ops[p - keep] == (FileOpView::Remove { name }));
        } else if removes(ops, name) {
            let k = choose|k: int|
                0 <= k < ops.len() && #[trigger] ops[k] == (FileOpView::Remove { name });
            let q = keep + k;
            assert(dir[order[q] as int].name == name);
            crate::workdir::lemma_position(dir, order[q] as int);
            assert(listed_before(dir, order[p] as int, order[q] as int));
        }
    }
    assert forall|i: int|
        0 <= i < dir.len() && !is_package_file(
            #[trigger] dir[i],
            package,
            ".deb"@,
        ) implies has_file(out, dir[i].name) by {
        let name = dir[i].name;
        crate::workdir::lemma_position(dir, i);
        if removes(ops, name) {
            let k = choose|k: int|
                0 <= k < ops.len() && #[trigger] ops[k] == (FileOpView::Remove { name });
            let q = keep + k;
            assert(dir[order[q] as int].name == name);
            crate::workdir::lemma_position(dir, order[q] as int);
            assert(is_package_file(dir[order[q] as int], package, ".deb"@));
        }
    }
}

/// The most recent file of a package is one file: whatever is found, it is
/// found every time.
pub proof fn lemma_newest_file_unique(
    dir: Seq<FileView>,
    package: Seq<char>,
    suffix: Seq<char>,
    a: Option<Seq<char>>,
    b: Option<Seq<char>>,
)
    requires
        newest_file(dir, package, suffix, a),
        newest_file(dir, package, suffix, b),
    ensures
        a == b,
{
    let x = choose|order: Seq<usize>| #[trigger]
        newest_first(dir, package, suffix, order) && a == (if order.len() > 0 {
            Some(dir[order[0] as int].name)
        } else {
            None
        });
    let y = choose|order: Seq<usize>| #[trigger]
        newest_first(dir, package, suffix, order) && b == (if order.len() > 0 {
            Some(dir[order[0] as int].name)
        } else {
            None
        });
    lemma_newest_first_unique(dir, package, suffix, x, y);
}

/// The fallback is the most recent: the file that is found belongs to the
/// package, ends in the suffix, and no such file was modified later; and
/// nothing is found only where the directory holds no such file.
pub proof fn lemma_newest_file_is_most_recent(
    dir: Seq<FileView>,
    package: Seq<char>,
    suffix: Seq<char>,
    found: Option<Seq<char>>,
)
    requires
        newest_file(dir, package, suffix, found),
    ensures
        found is None <==> forall|i: int|
            0 <= i < dir.len() ==> !is_package_file(#[trigger] dir[i], package, suffix),
        found matches Some(name) ==> exists|i: int|
            0 <= i < dir.len() && (#[trigger] dir[i]).name == name && is_package_file(
                dir[i],
                package,
                suffix,
            ) && forall|j: int|
                0 <= j < dir.len() && is_package_file(#[trigger] dir[j], package, suffix)
                    ==> recency(dir[j].modified) <= recency(dir[i].modified),
{
    let order = choose|order: Seq<usize>| #[trigger]
        newest_first(dir, package, suffix, order) && found == (if order.len() > 0 {
            Some(dir[order[0] as int].name)
        } else {
            None
        });
    if order.len() > 0 {
        let i = order[0] as int;
        assert(is_package_file(dir[i], package, suffix));
        assert forall|j: int|
            0 <= j < dir.len() && is_package_file(
                #[trigger] dir[j],
                package,
                suffix,
            ) implies recency(dir[j].modified) <= recency(dir[i].modified) by {
            let p = choose|p: int| 0 <= p < order.len() && order[p] == j;
            if p > 0 {
                assert(listed_before(dir, order[0] as int, order[p] as int));
            }
        }
    } else {
        assert forall|i: int| 0 <= i < dir.len() implies !is_package_file(
            #[trigger] dir[i],
            package,
            suffix,
        ) by {
            if is_package_file(dir[i], package, suffix) {
                let p = choose|p: int| 0 <= p < order.len() && order[p] == i;
            }
        }
    }
}

} // verus!

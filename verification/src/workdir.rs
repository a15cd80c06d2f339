//! The working directory of the installer, as a list of named files with
//! their modification times, and the file operations that change it.
//!
//! The installer decides on this model which files to copy, rename and
//! delete; the same model says what each operation leaves behind.

use vstd::prelude::*;
use vstd::string::*;
use crate::text::same_text;

verus! {

/// A file of the working directory: its name and when it was last modified
/// (`None` where the time is not known).
#[derive(Debug, Clone, PartialEq, Eq)]
pub struct FileEntry {
    pub name: String,
    pub modified: Option<u64>,
}

/// Mathematical value of a [`FileEntry`].
pub struct FileView {
    pub name: Seq<char>,
    pub modified: Option<u64>,
}

impl View for FileEntry {
    type V = FileView;

    open spec fn view(&self) -> FileView {
        FileView { name: self.name@, modified: self.modified }
    }
}

/// One change to the working directory.
#[derive(Debug, Clone, PartialEq, Eq)]
pub enum FileOp {
    /// Copy the file `from` to the name `to`.
    Copy { from: String, to: String },
    /// Fetch `url` and store it under the name `to`.
    Fetch { url: String, to: String },
    /// Give the file `from` the name `to`.
    Rename { from: String, to: String },
    /// Delete the file `name`.
    Remove { name: String },
}

/// Mathematical value of a [`FileOp`].
pub enum FileOpView {
    Copy { from: Seq<char>, to: Seq<char> },
    Fetch { url: Seq<char>, to: Seq<char> },
    Rename { from: Seq<char>, to: Seq<char> },
    Remove { name: Seq<char> },
}

impl View for FileOp {
    type V = FileOpView;

    open spec fn view(&self) -> FileOpView {
        match self {
            FileOp::Copy { from, to } => FileOpView::Copy { from: from@, to: to@ },
            FileOp::Fetch { url, to } => FileOpView::Fetch { url: url@, to: to@ },
            FileOp::Rename { from, to } => FileOpView::Rename { from: from@, to: to@ },
            FileOp::Remove { name } => FileOpView::Remove { name: name@ },
        }
    }
}

/// The views of a list of operations, in order.
pub open spec fn op_views(ops: Seq<FileOp>) -> Seq<FileOpView> {
    Seq::new(ops.len(), |i: int| ops[i]@)
}

/// The views of a list of entries, in order.
pub open spec fn entry_views(entries: Seq<FileEntry>) -> Seq<FileView> {
    Seq::new(entries.len(), |i: int| entries[i]@)
}

/// No two files of `dir` share a name.
pub open spec fn names_distinct(dir: Seq<FileView>) -> bool {
    forall|i: int, j: int| 0 <= i < j < dir.len() ==> dir[i].name != dir[j].name
}

/// `dir` holds a file called `name`.
pub open spec fn has_file(dir: Seq<FileView>, name: Seq<char>) -> bool {
    exists|i: int| 0 <= i < dir.len() && dir[i].name == name
}

/// Where in `dir` the file called `name` stands.
pub open spec fn position_of(dir: Seq<FileView>, name: Seq<char>) -> int {
    choose|i: int| 0 <= i < dir.len() && dir[i].name == name
}

/// `dir` after `name` has been written at time stamp `modified`: an existing
/// file keeps its place and gets the new time; a new file is added last.
pub open spec fn with_file(dir: Seq<FileView>, name: Seq<char>, modified: Option<u64>) -> Seq<
    FileView,
> {
    if has_file(dir, name) {
        dir.update(position_of(dir, name), FileView { name, modified })
    } else {
        dir.push(FileView { name, modified })
    }
}

/// `dir` after the file called `name` has been deleted.
pub open spec fn without_file(dir: Seq<FileView>, name: Seq<char>) -> Seq<FileView> {
    if has_file(dir, name) {
        dir.remove(position_of(dir, name))
    } else {
        dir
    }
}

/// `dir` after the file `from` has been given the name `to`: the file keeps
/// its time, and replaces a file that had the new name. Nothing changes
/// where `dir` holds no file `from`.
pub open spec fn renamed(dir: Seq<FileView>, from: Seq<char>, to: Seq<char>) -> Seq<FileView> {
    if has_file(dir, from) {
        with_file(without_file(dir, from), to, dir[position_of(dir, from)].modified)
    } else {
        dir
    }
}

/// Whether `op` can be carried out on `dir`: copying and renaming need their
/// source.
pub open spec fn op_applies(dir: Seq<FileView>, op: FileOpView) -> bool {
    match op {
        FileOpView::Copy { from, to } => has_file(dir, from),
        FileOpView::Rename { from, to } => has_file(dir, from),
        _ => true,
    }
}

/// `dir` after `op` at time `now`. A copy and a fetched file are new as of
/// `now`; a renamed file keeps its time, and replaces a file that had the new
/// name. An operation that cannot be carried out changes nothing.
pub open spec fn after_op(dir: Seq<FileView>, op: FileOpView, now: u64) -> Seq<FileView> {
    match op {
        FileOpView::Copy { from, to } => if has_file(dir, from) {
            with_file(dir, to, Some(now))
        } else {
            dir
        },
        FileOpView::Fetch { url, to } => with_file(dir, to, Some(now)),
        FileOpView::Rename { from, to } => renamed(dir, from, to),
        FileOpView::Remove { name } => without_file(dir, name),
    }
}

/// `dir` after all of `ops`, in order, at time `now`.
pub open spec fn after_ops(dir: Seq<FileView>, ops: Seq<FileOpView>, now: u64) -> Seq<FileView>
    decreases ops.len(),
{
    if ops.len() == 0 {
        dir
    } else {
        after_ops(after_op(dir, ops[0], now), ops.drop_first(), now)
    }
}

/// In a directory of distinct names, a file's position is the one place
/// where its name stands.
pub proof fn lemma_position(dir: Seq<FileView>, i: int)
    requires
        names_distinct(dir),
        0 <= i < dir.len(),
    ensures
        has_file(dir, dir[i].name),
        position_of(dir, dir[i].name) == i,
{
    let p = position_of(dir, dir[i].name);
    assert(0 <= p < dir.len() && dir[p].name == dir[i].name);
    if p < i {
        assert(dir[p].name != dir[i].name);
    } else if i < p {
        assert(dir[i].name != dir[p].name);
    }
}

/// Writing a file keeps names distinct, leaves every other file as it was,
/// and makes the written file present with the given time.
pub proof fn lemma_with_file(dir: Seq<FileView>, name: Seq<char>, modified: Option<u64>)
    requires
        names_distinct(dir),
    ensures
        names_distinct(with_file(dir, name, modified)),
        has_file(with_file(dir, name, modified), name),
        forall|other: Seq<char>|
            other != name ==> (#[trigger] has_file(with_file(dir, name, modified), other)
                == has_file(dir, other)),
{
    let out = with_file(dir, name, modified);
    if has_file(dir, name) {
        let p = position_of(dir, name);
        assert(out[p].name == name);
        assert forall|other: Seq<char>| other != name implies (#[trigger] has_file(out, other)
            == has_file(dir, other)) by {
            if has_file(dir, other) {
                let q = position_of(dir, other);
                assert(out[q].name == other);
            }
            if has_file(out, other) {
                let q = position_of(out, other);
                assert(dir[q].name == other);
            }
        }
    } else {
        assert(out[dir.len() as int].name == name);
        assert forall|other: Seq<char>| other != name implies (#[trigger] has_file(out, other)
            == has_file(dir, other)) by {
            if has_file(dir, other) {
                let q = position_of(dir, other);
                assert(out[q].name == other);
            }
            if has_file(out, other) {
                let q = position_of(out, other);
                assert(dir[q].name == other);
            }
        }
    }
}

/// Deleting a file keeps names distinct, leaves every other file as it was,
/// and makes the deleted file absent.
pub proof fn lemma_without_file(dir: Seq<FileView>, name: Seq<char>)
    requires
        names_distinct(dir),
    ensures
        names_distinct(without_file(dir, name)),
        !has_file(without_file(dir, name), name),
        forall|other: Seq<char>|
            other != name ==> (#[trigger] has_file(without_file(dir, name), other) == has_file(
                dir,
                other,
            )),
{
    let out = without_file(dir, name);
    if has_file(dir, name) {
        let p = position_of(dir, name);
        assert forall|i: int, j: int| 0 <= i < j < out.len() implies out[i].name
            != out[j].name by {
            let a = if i < p { i } else { i + 1 };
            let b = if j < p { j } else { j + 1 };
            assert(out[i] == dir[a] && out[j] == dir[b]);
        }
        if has_file(out, name) {
            let q = position_of(out, name);
            let a = if q < p { q } else { q + 1 };
            assert(out[q] == dir[a]);
            lemma_position(dir, a);
        }
        assert forall|other: Seq<char>| other != name implies (#[trigger] has_file(out, other)
            == has_file(dir, other)) by {
            if has_file(dir, other) {
                let q = position_of(dir, other);
                let a = if q < p { q } else { q - 1 };
                assert(out[a] == dir[q]);
            }
            if has_file(out, other) {
                let q = position_of(out, other);
                let a = if q < p { q } else { q + 1 };
                assert(out[q] == dir[a]);
            }
        }
    }
}

/// Every operation keeps the names of a directory distinct.
pub proof fn lemma_after_op_distinct(dir: Seq<FileView>, op: FileOpView, now: u64)
    requires
        names_distinct(dir),
    ensures
        names_distinct(after_op(dir, op, now)),
{
    match op {
        FileOpView::Copy { from, to } => {
            lemma_with_file(dir, to, Some(now));
        },
        FileOpView::Fetch { url, to } => {
            lemma_with_file(dir, to, Some(now));
        },
        FileOpView::Rename { from, to } => {
            lemma_without_file(dir, from);
            if has_file(dir, from) {
                lemma_with_file(without_file(dir, from), to, dir[position_of(dir, from)].modified);
            }
        },
        FileOpView::Remove { name } => {
            lemma_without_file(dir, name);
        },
    }
}

/// Every list of operations keeps the names of a directory distinct.
pub proof fn lemma_after_ops_distinct(dir: Seq<FileView>, ops: Seq<FileOpView>, now: u64)
    requires
        names_distinct(dir),
    ensures
        names_distinct(after_ops(dir, ops, now)),
    decreases ops.len(),
{
    if ops.len() > 0 {
        lemma_after_op_distinct(dir, ops[0], now);
        lemma_after_ops_distinct(after_op(dir, ops[0], now), ops.drop_first(), now);
    }
}

/// The working directory: files with distinct names, in listing order.
#[derive(Debug)]
pub struct WorkDir {
    entries: Vec<FileEntry>,
}

impl View for WorkDir {
    type V = Seq<FileView>;

    closed spec fn view(&self) -> Seq<FileView> {
        entry_views(self.entries@)
    }
}

impl WorkDir {
    /// No two files share a name.
    pub open spec fn wf(&self) -> bool {
        names_distinct(self@)
    }

    /// An empty directory.
    pub fn new() -> (r: WorkDir)
        ensures
            r@ == Seq::<FileView>::empty(),
            r.wf(),
    {
        let r = WorkDir { entries: Vec::new() };
        assert(r@ =~= Seq::<FileView>::empty());
        r
    }

    /// A copy of the directory.
    pub fn duplicate(&self) -> (r: WorkDir)
        ensures
            r@ == self@,
    {
        let mut entries: Vec<FileEntry> = Vec::new();
        let mut i: usize = 0;
        while i < self.entries.len()
            invariant
                i <= self.entries.len(),
                entries@.len() == i,
                forall|k: int| 0 <= k < i ==> (#[trigger] entries@[k])@ == self.entries@[k]@,
            decreases self.entries.len() - i,
        {
            let e = &self.entries[i];
            entries.push(FileEntry { name: e.name.clone(), modified: e.modified });
            i += 1;
        }
        let r = WorkDir { entries };
        assert(r@ =~= self@);
        r
    }

    /// Number of files.
    pub fn len(&self) -> (n: usize)
        ensures
            n == self@.len(),
    {
        self.entries.len()
    }

    /// The file at place `i` of the listing.
    pub fn entry(&self, i: usize) -> (e: &FileEntry)
        requires
            i < self@.len(),
        ensures
            e@ == self@[i as int],
    {
        &self.entries[i]
    }

    /// Where the file called `name` stands, if the directory holds it.
    pub fn find(&self, name: &str) -> (r: Option<usize>)
        requires
            self.wf(),
        ensures
            r is Some == has_file(self@, name@),
            r matches Some(i) ==> i < self@.len() && i == position_of(self@, name@),
    {
        let mut i: usize = 0;
        while i < self.entries.len()
            invariant
                i <= self.entries.len(),
                self.wf(),
                forall|k: int| 0 <= k < i ==> self@[k].name != name@,
            decreases self.entries.len() - i,
        {
            if same_text(self.entries[i].name.as_str(), name) {
                proof {
                    assert(self@[i as int].name == name@);
                    lemma_position(self@, i as int);
                }
                return Some(i);
            }
            i += 1;
        }
        None
    }

    /// Whether the directory holds a file called `name`.
    pub fn contains(&self, name: &str) -> (r: bool)
        requires
            self.wf(),
        ensures
            r == has_file(self@, name@),
    {
        self.find(name).is_some()
    }

    /// When the file called `name` was last modified; `None` where the
    /// directory does not hold it.
    pub fn modified(&self, name: &str) -> (r: Option<Option<u64>>)
        requires
            self.wf(),
        ensures
            r is Some == has_file(self@, name@),
            r matches Some(m) ==> m == self@[position_of(self@, name@)].modified,
    {
        match self.find(name) {
            Some(i) => Some(self.entries[i].modified),
            None => None,
        }
    }

    /// Writes the file `name` with time stamp `modified`.
    pub fn record(&mut self, name: &str, modified: Option<u64>)
        requires
            old(self).wf(),
        ensures
            final(self).wf(),
            final(self)@ == with_file(old(self)@, name@, modified),
    {
        proof {
            lemma_with_file(self@, name@, modified);
        }
        let entry = FileEntry { name: String::from_str(name), modified };
        match self.find(name) {
            Some(i) => {
                self.entries.set(i, entry);
                assert(self@ =~= with_file(old(self)@, name@, modified));
            },
            None => {
                self.entries.push(entry);
                assert(self@ =~= with_file(old(self)@, name@, modified));
            },
        }
    }

    /// Deletes the file `name`. Returns whether there was one.
    pub fn remove(&mut self, name: &str) -> (r: bool)
        requires
            old(self).wf(),
        ensures
            final(self).wf(),
            r == has_file(old(self)@, name@),
            final(self)@ == without_file(old(self)@, name@),
    {
        proof {
            lemma_without_file(self@, name@);
        }
        match self.find(name) {
            Some(i) => {
                self.entries.remove(i);
                assert(self@ =~= without_file(old(self)@, name@));
                true
            },
            None => false,
        }
    }

    /// Carries out `op` at time `now`. Returns whether it could be carried
    /// out; where it could not, nothing has changed.
    pub fn apply(&mut self, op: &FileOp, now: u64) -> (r: bool)
        requires
            old(self).wf(),
        ensures
            final(self).wf(),
            r == op_applies(old(self)@, op@),
            final(self)@ == after_op(old(self)@, op@, now),
    {
        proof {
            lemma_after_op_distinct(self@, op@, now);
        }
        match op {
            FileOp::Copy { from, to } => {
                if self.contains(from.as_str()) {
                    self.record(to.as_str(), Some(now));
                    true
                } else {
                    false
                }
            },
            FileOp::Fetch { url, to } => {
                self.record(to.as_str(), Some(now));
                true
            },
            FileOp::Rename { from, to } => {
                match self.modified(from.as_str()) {
                    Some(m) => {
                        self.remove(from.as_str());
                        self.record(to.as_str(), m);
                        true
                    },
                    None => false,
                }
            },
            FileOp::Remove { name } => {
                self.remove(name.as_str());
                true
            },
        }
    }

    /// Carries out `ops` in order at time `now`, treating one that cannot be
    /// carried out as done.
    pub fn apply_all(&mut self, ops: &Vec<FileOp>, now: u64)
        requires
            old(self).wf(),
        ensures
            final(self).wf(),
            final(self)@ == after_ops(old(self)@, op_views(ops@), now),
    {
        let mut i: usize = 0;
        assert(op_views(ops@).skip(0) == op_views(ops@));
        while i < ops.len()
            invariant
                i <= ops.len(),
                self.wf(),
                after_ops(old(self)@, op_views(ops@), now) == after_ops(
                    self@,
                    op_views(ops@).skip(i as int),
                    now,
                ),
            decreases ops.len() - i,
        {
            proof {
                let rest = op_views(ops@).skip(i as int);
                assert(rest[0] == ops@[i as int]@);
                assert(rest.drop_first() == op_views(ops@).skip(i + 1));
            }
            self.apply(&ops[i], now);
            i += 1;
        }
    }
}

} // verus!

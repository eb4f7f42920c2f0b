//! An in-memory filesystem state: a list of files, each with a path, its
//! data, and its permission bits, in a stable listing order. The engine's
//! planned operations are applied to this state; the semantics proved here
//! is what the unverified shell mirrors against the real filesystem.

use vstd::prelude::*;

use crate::paths::str_eq;
use crate::rules::ActionError;
use crate::rules::FileOp;
use crate::rules::FileOpModel;

verus! {

/// One file of the state.
pub struct FileRecord {
    /// Absolute path of the file.
    pub path: String,
    /// The file's contents.
    pub data: Vec<u8>,
    /// POSIX permission bits.
    pub mode: u32,
}

/// The mathematical counterpart of [`FileRecord`].
#[verifier::ext_equal]
pub struct FileModel {
    pub path: Seq<char>,
    pub data: Seq<u8>,
    pub mode: u32,
}

impl View for FileRecord {
    type V = FileModel;

    open spec fn view(&self) -> FileModel {
        FileModel { path: self.path@, data: self.data@, mode: self.mode }
    }
}

impl DeepView for FileRecord {
    type V = FileModel;

    open spec fn deep_view(&self) -> FileModel {
        self.view()
    }
}

/// No two files share a path.
pub open spec fn paths_unique(s: Seq<FileModel>) -> bool {
    forall|i: int, j: int| 0 <= i < j < s.len() ==> s[i].path != s[j].path
}

/// The index of the first file at path `p`, or `-1` when there is none.
pub open spec fn first_index(s: Seq<FileModel>, p: Seq<char>) -> int
    decreases s.len(),
{
    if s.len() == 0 {
        -1
    } else if s[0].path == p {
        0
    } else {
        let r = first_index(s.drop_first(), p);
        if r < 0 {
            -1
        } else {
            r + 1
        }
    }
}

/// A file exists at path `p`.
pub open spec fn fs_contains(s: Seq<FileModel>, p: Seq<char>) -> bool {
    first_index(s, p) >= 0
}

/// The file at path `p`.
pub open spec fn fs_get(s: Seq<FileModel>, p: Seq<char>) -> FileModel
    recommends
        fs_contains(s, p),
{
    s[first_index(s, p)]
}

/// `first_index` points at the first occurrence of `p`, and at nothing when
/// `p` is absent.
pub proof fn lemma_first_index(s: Seq<FileModel>, p: Seq<char>)
    ensures
        first_index(s, p) >= 0 ==> first_index(s, p) < s.len() && s[first_index(s, p)].path == p
            && (forall|j: int| 0 <= j < first_index(s, p) ==> s[j].path != p),
        first_index(s, p) < 0 ==> forall|j: int| 0 <= j < s.len() ==> s[j].path != p,
    decreases s.len(),
{
    if s.len() == 0 {
    } else if s[0].path == p {
    } else {
        let t = s.drop_first();
        lemma_first_index(t, p);
        let r = first_index(t, p);
        if r >= 0 {
            assert(t[r] == s[r + 1]);
            assert forall|j: int| 0 <= j < r + 1 implies s[j].path != p by {
                if j > 0 {
                    assert(t[j - 1] == s[j]);
                }
            }
        } else {
            assert forall|j: int| 0 <= j < s.len() implies s[j].path != p by {
                if j > 0 {
                    assert(t[j - 1] == s[j]);
                }
            }
        }
    }
}

/// An occurrence of `p` whose earlier entries all avoid `p` is the first.
pub proof fn lemma_first_index_at(s: Seq<FileModel>, p: Seq<char>, i: int)
    requires
        0 <= i < s.len(),
        s[i].path == p,
        forall|j: int| 0 <= j < i ==> s[j].path != p,
    ensures
        first_index(s, p) == i,
    decreases s.len(),
{
    if i == 0 {
    } else {
        assert(s[0].path != p);
        let t = s.drop_first();
        assert(t[i - 1] == s[i]);
        assert forall|j: int| 0 <= j < i - 1 implies t[j].path != p by {
            assert(t[j] == s[j + 1]);
        }
        lemma_first_index_at(t, p, i - 1);
    }
}

/// When no entry holds `p`, `first_index` finds nothing.
pub proof fn lemma_first_index_absent(s: Seq<FileModel>, p: Seq<char>)
    requires
        forall|j: int| 0 <= j < s.len() ==> s[j].path != p,
    ensures
        first_index(s, p) == -1,
    decreases s.len(),
{
    if s.len() > 0 {
        let t = s.drop_first();
        assert forall|j: int| 0 <= j < t.len() implies t[j].path != p by {
            assert(t[j] == s[j + 1]);
        }
        lemma_first_index_absent(t, p);
    }
}

/// Write the file at path `p`: overwrite in place when present, append when
/// absent.
pub open spec fn fs_upsert(s: Seq<FileModel>, p: Seq<char>, data: Seq<u8>, mode: u32) -> Seq<
    FileModel,
> {
    let i = first_index(s, p);
    if i >= 0 {
        s.update(i, FileModel { path: p, data, mode })
    } else {
        s.push(FileModel { path: p, data, mode })
    }
}

/// Remove the file at path `p`; the state is unchanged when `p` is absent.
pub open spec fn fs_remove(s: Seq<FileModel>, p: Seq<char>) -> Seq<FileModel> {
    let i = first_index(s, p);
    if i >= 0 {
        s.remove(i)
    } else {
        s
    }
}

/// The operation's source (and for a hard link, its free target) exists, so
/// applying it succeeds.
pub open spec fn op_applicable(s: Seq<FileModel>, op: FileOpModel) -> bool {
    match op {
        FileOpModel::NoOp => true,
        FileOpModel::Rename { from, to } => fs_contains(s, from),
        FileOpModel::CopyThenDelete { from, to } => fs_contains(s, from),
        FileOpModel::Copy { from, to } => fs_contains(s, from),
        FileOpModel::Delete { path } => fs_contains(s, path),
        FileOpModel::HardLink { from, to } => fs_contains(s, from) && !fs_contains(s, to),
        FileOpModel::Chmod { path, mode } => fs_contains(s, path),
    }
}

/// The state after one planned operation; a failing operation leaves the
/// state untouched. A write to an existing path overwrites it (last writer
/// wins).
pub open spec fn apply_op_model(s: Seq<FileModel>, op: FileOpModel) -> Seq<FileModel> {
    if !op_applicable(s, op) {
        s
    } else {
        match op {
            FileOpModel::NoOp => s,
            FileOpModel::Rename { from, to } => {
                let m = fs_get(s, from);
                fs_upsert(fs_remove(s, from), to, m.data, m.mode)
            },
            FileOpModel::CopyThenDelete { from, to } => {
                let m = fs_get(s, from);
                fs_remove(fs_upsert(s, to, m.data, m.mode), from)
            },
            FileOpModel::Copy { from, to } => {
                let m = fs_get(s, from);
                fs_upsert(s, to, m.data, m.mode)
            },
            FileOpModel::Delete { path } => fs_remove(s, path),
            FileOpModel::HardLink { from, to } => {
                let m = fs_get(s, from);
                fs_upsert(s, to, m.data, m.mode)
            },
            FileOpModel::Chmod { path, mode } => {
                let m = fs_get(s, path);
                fs_upsert(s, path, m.data, mode)
            },
        }
    }
}

/// Writing a file keeps paths unique.
pub proof fn lemma_upsert_unique(s: Seq<FileModel>, p: Seq<char>, data: Seq<u8>, mode: u32)
    requires
        paths_unique(s),
    ensures
        paths_unique(fs_upsert(s, p, data, mode)),
{
    lemma_first_index(s, p);
    let i = first_index(s, p);
    if i >= 0 {
        let t = s.update(i, FileModel { path: p, data, mode });
        assert forall|x: int, y: int| 0 <= x < y < t.len() implies t[x].path != t[y].path by {
            assert(s[i].path == p);
        }
    } else {
        let t = s.push(FileModel { path: p, data, mode });
        assert forall|x: int, y: int| 0 <= x < y < t.len() implies t[x].path != t[y].path by {
            if y == s.len() {
                assert(t[x] == s[x]);
            }
        }
    }
}

/// Removing a file keeps paths unique.
pub proof fn lemma_remove_unique(s: Seq<FileModel>, p: Seq<char>)
    requires
        paths_unique(s),
    ensures
        paths_unique(fs_remove(s, p)),
{
    let i = first_index(s, p);
    lemma_first_index(s, p);
    if i >= 0 {
        let t = s.remove(i);
        assert forall|x: int, y: int| 0 <= x < y < t.len() implies t[x].path != t[y].path by {
            let xs: int = if x < i {
                x
            } else {
                x + 1
            };
            let ys: int = if y < i {
                y
            } else {
                y + 1
            };
            assert(t[x] == s[xs]);
            assert(t[y] == s[ys]);
        }
    }
}

/// The in-memory filesystem state.
pub struct FsState {
    files: Vec<FileRecord>,
}

impl View for FsState {
    type V = Seq<FileModel>;

    closed spec fn view(&self) -> Seq<FileModel> {
        self.files.deep_view()
    }
}

impl FsState {
    /// Paths are unique; established by the constructor and preserved by
    /// every operation.
    pub open spec fn inv(&self) -> bool {
        paths_unique(self@)
    }

    /// An empty state.
    pub fn new() -> (r: FsState)
        ensures
            r@ == Seq::<FileModel>::empty(),
            r.inv(),
    {
        let r = FsState { files: Vec::new() };
        proof {
            assert(r@ =~= Seq::<FileModel>::empty());
        }
        r
    }

    /// The number of files.
    pub fn len(&self) -> (r: usize)
        ensures
            r == self@.len(),
    {
        self.files.len()
    }

    /// The index of the file at `path`, when one exists.
    fn find(&self, path: &str) -> (r: Option<usize>)
        ensures
            r is Some <==> fs_contains(self@, path@),
            r is Some ==> r->0 == first_index(self@, path@) && r->0 < self@.len()
                && self@[r->0 as int].path == path@,
    {
        let mut i: usize = 0;
        while i < self.files.len()
            invariant
                i <= self@.len(),
                self@.len() == self.files@.len(),
                forall|j: int| 0 <= j < i ==> self@[j].path != path@,
            decreases self@.len() - i,
        {
            assert(self@[i as int] == self.files@[i as int].deep_view());
            if str_eq(self.files[i].path.as_str(), path) {
                proof {
                    lemma_first_index_at(self@, path@, i as int);
                }
                return Some(i);
            }
            i += 1;
        }
        proof {
            lemma_first_index_absent(self@, path@);
        }
        None
    }

    /// Whether a file exists at `path`.
    pub fn contains(&self, path: &str) -> (r: bool)
        ensures
            r == fs_contains(self@, path@),
    {
        self.find(path).is_some()
    }

    /// The file at `path`, when one exists.
    pub fn lookup(&self, path: &str) -> (r: Option<&FileRecord>)
        ensures
            r is Some <==> fs_contains(self@, path@),
            r is Some ==> r->0@ == fs_get(self@, path@),
    {
        match self.find(path) {
            Some(i) => {
                assert(self@[i as int] == self.files@[i as int].deep_view());
                assert(first_index(self@, path@) == i as int);
                Some(&self.files[i])
            },
            None => None,
        }
    }

    /// The paths of all files, in listing order.
    pub fn list_paths(&self) -> (r: Vec<String>)
        ensures
            r.deep_view() == self@.map_values(|m: FileModel| m.path),
    {
        let mut out: Vec<String> = Vec::new();
        let mut i: usize = 0;
        while i < self.files.len()
            invariant
                i <= self@.len(),
                self@.len() == self.files@.len(),
                out.len() == i,
                forall|j: int| 0 <= j < i ==> out.deep_view()[j] == self@[j].path,
            decreases self@.len() - i,
        {
            let ghost pre = out@;
            let ghost predv = out.deep_view();
            assert(self@[i as int] == self.files@[i as int].deep_view());
            let p = self.files[i].path.clone();
            assert(p@ == self@[i as int].path);
            out.push(p);
            proof {
                assert forall|j: int| 0 <= j < i + 1 implies out.deep_view()[j]
                    == self@[j].path by {
                    assert(out.deep_view()[j] == out@[j].deep_view());
                    if j < i {
                        assert(out@[j] == pre[j]);
                        assert(predv[j] == pre[j].deep_view());
                        assert(predv[j] == self@[j].path);
                    } else {
                        assert(out@[j] == p);
                        assert(out@[j].deep_view() == p@);
                    }
                }
            }
            i += 1;
        }
        proof {
            assert(out.deep_view() =~= self@.map_values(|m: FileModel| m.path));
        }
        out
    }

    /// Write the file at `path`: overwrite in place when present, append
    /// when absent.
    pub fn upsert(&mut self, path: &str, data: Vec<u8>, mode: u32)
        requires
            old(self).inv(),
        ensures
            final(self).inv(),
            final(self)@ == fs_upsert(old(self)@, path@, data@, mode),
    {
        proof {
            lemma_upsert_unique(self@, path@, data@, mode);
        }
        let ghost m = FileModel { path: path@, data: data@, mode };
        let idx = self.find(path);
        let record = FileRecord { path: path.to_owned(), data, mode };
        assert(record@ == m);
        match idx {
            Some(i) => {
                let ghost pre = self.files@;
                self.files.set(i, record);
                proof {
                    assert forall|j: int| 0 <= j < self@.len() implies self@[j] == old(
                        self,
                    )@.update(i as int, m)[j] by {
                        assert(self@[j] == self.files@[j].deep_view());
                        if j != i {
                            assert(self.files@[j] == pre[j]);
                        }
                    }
                    assert(self@ =~= old(self)@.update(i as int, m));
                }
            },
            None => {
                let ghost pre = self.files@;
                self.files.push(record);
                proof {
                    assert forall|j: int| 0 <= j < self@.len() implies self@[j] == old(
                        self,
                    )@.push(m)[j] by {
                        assert(self@[j] == self.files@[j].deep_view());
                        if j < pre.len() {
                            assert(self.files@[j] == pre[j]);
                        }
                    }
                    assert(self@ =~= old(self)@.push(m));
                }
            },
        }
    }

    /// Remove the file at `path`; do nothing when it is absent.
    pub fn remove(&mut self, path: &str)
        requires
            old(self).inv(),
        ensures
            final(self).inv(),
            final(self)@ == fs_remove(old(self)@, path@),
    {
        proof {
            lemma_remove_unique(self@, path@);
        }
        match self.find(path) {
            Some(i) => {
                let ghost pre = self.files@;
                self.files.remove(i);
                proof {
                    assert forall|j: int| 0 <= j < self@.len() implies self@[j] == old(
                        self,
                    )@.remove(i as int)[j] by {
                        assert(self@[j] == self.files@[j].deep_view());
                        if j < i {
                            assert(self.files@[j] == pre[j]);
                        } else {
                            assert(self.files@[j] == pre[j + 1]);
                        }
                    }
                    assert(self@ =~= old(self)@.remove(i as int));
                }
            },
            None => {},
        }
    }

    /// Apply one planned operation; a per-file failure (a missing source, an
    /// occupied hard-link target) is reported and leaves the state
    /// untouched.
    pub fn apply_op(&mut self, op: &FileOp) -> (r: Result<(), ActionError>)
        requires
            old(self).inv(),
        ensures
            final(self).inv(),
            final(self)@ == apply_op_model(old(self)@, op@),
            r is Ok <==> op_applicable(old(self)@, op@),
            r is Err ==> r->Err_0 == ActionError::Io,
    {
        match op {
            FileOp::NoOp => Ok(()),
            FileOp::Rename { from, to } => {
                let (data, mode) = match self.lookup(from.as_str()) {
                    Some(rec) => (rec.data.clone(), rec.mode),
                    None => {
                        return Err(ActionError::Io);
                    },
                };
                assert(data@ =~= fs_get(self@, from@).data);
                self.remove(from.as_str());
                self.upsert(to.as_str(), data, mode);
                Ok(())
            },
            FileOp::CopyThenDelete { from, to } => {
                let (data, mode) = match self.lookup(from.as_str()) {
                    Some(rec) => (rec.data.clone(), rec.mode),
                    None => {
                        return Err(ActionError::Io);
                    },
                };
                assert(data@ =~= fs_get(self@, from@).data);
                self.upsert(to.as_str(), data, mode);
                self.remove(from.as_str());
                Ok(())
            },
            FileOp::Copy { from, to } => {
                let (data, mode) = match self.lookup(from.as_str()) {
                    Some(rec) => (rec.data.clone(), rec.mode),
                    None => {
                        return Err(ActionError::Io);
                    },
                };
                assert(data@ =~= fs_get(self@, from@).data);
                self.upsert(to.as_str(), data, mode);
                Ok(())
            },
            FileOp::Delete { path } => {
                if !self.contains(path.as_str()) {
                    return Err(ActionError::Io);
                }
                self.remove(path.as_str());
                Ok(())
            },
            FileOp::HardLink { from, to } => {
                let (data, mode) = match self.lookup(from.as_str()) {
                    Some(rec) => (rec.data.clone(), rec.mode),
                    None => {
                        return Err(ActionError::Io);
                    },
                };
                if self.contains(to.as_str()) {
                    return Err(ActionError::Io);
                }
                assert(data@ =~= fs_get(self@, from@).data);
                self.upsert(to.as_str(), data, mode);
                Ok(())
            },
            FileOp::Chmod { path, mode } => {
                let data = match self.lookup(path.as_str()) {
                    Some(rec) => rec.data.clone(),
                    None => {
                        return Err(ActionError::Io);
                    },
                };
                assert(data@ =~= fs_get(self@, path@).data);
                self.upsert(path.as_str(), data, *mode);
                Ok(())
            },
        }
    }
}

} // verus!

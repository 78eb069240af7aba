//! The per-path file index: one row per path, upsert on rescan, deletion
//! only by reconciliation against the set of paths still on disk.

use vstd::prelude::*;
use crate::records::FileRecord;

verus! {

/// The views of a sequence of path strings.
pub open spec fn path_views(paths: Seq<String>) -> Seq<Seq<char>> {
    paths.map_values(|p: String| p@)
}

/// The rows of `files` whose path is among `live`, in their original order.
pub open spec fn reconciled(files: Seq<FileRecord>, live: Seq<Seq<char>>) -> Seq<FileRecord>
    decreases files.len(),
{
    if files.len() == 0 {
        Seq::empty()
    } else if live.contains(files.last().path@) {
        reconciled(files.drop_last(), live).push(files.last())
    } else {
        reconciled(files.drop_last(), live)
    }
}

pub struct FileIndex {
    records: Vec<FileRecord>,
    next_id: u64,
}

impl FileIndex {
    /// The rows, in insertion order.
    pub closed spec fn view(&self) -> Seq<FileRecord> {
        self.records@
    }

    /// The identifier the next freshly inserted row will get.
    pub closed spec fn spec_next_id(&self) -> u64 {
        self.next_id
    }

    /// Well-formed: paths are unique, identifiers are unique and below the
    /// next fresh one, which is at least 1.
    pub open spec fn wf(&self) -> bool {
        &&& forall|i: int, j: int|
            0 <= i < j < self@.len() ==> self@[i].path@ != self@[j].path@
        &&& forall|i: int, j: int| 0 <= i < j < self@.len() ==> self@[i].id != self@[j].id
        &&& forall|i: int| 0 <= i < self@.len() ==> self@[i].id < self.spec_next_id()
        &&& self.spec_next_id() >= 1
    }

    /// Whether some row holds this path.
    pub open spec fn has_path(&self, path: Seq<char>) -> bool {
        exists|i: int| 0 <= i < self@.len() && self@[i].path@ == path
    }

    /// The index of the row holding this path.
    pub open spec fn path_index(&self, path: Seq<char>) -> int {
        choose|i: int| 0 <= i < self@.len() && self@[i].path@ == path
    }

    /// The row holding this path.
    pub open spec fn record_for(&self, path: Seq<char>) -> FileRecord {
        self@[self.path_index(path)]
    }

    pub fn new() -> (s: FileIndex)
        ensures
            s.wf(),
            s@ == Seq::<FileRecord>::empty(),
            s.spec_next_id() == 1,
    {
        FileIndex { records: Vec::new(), next_id: 1 }
    }

    /// The identifier the next freshly inserted row will get.
    pub fn next_id(&self) -> (n: u64)
        ensures
            n == self.spec_next_id(),
    {
        self.next_id
    }

    /// How many rows the index holds.
    pub fn len(&self) -> (n: usize)
        ensures
            n == self@.len(),
    {
        self.records.len()
    }

    /// The row at one position, counting from zero.
    pub fn row(&self, i: usize) -> (r: &FileRecord)
        requires
            i < self@.len(),
        ensures
            *r == self@[i as int],
    {
        &self.records[i]
    }

    /// A path names at most one row.
    pub proof fn lemma_path_unique(&self, path: Seq<char>, i: int, j: int)
        requires
            self.wf(),
            0 <= i < self@.len(),
            0 <= j < self@.len(),
            self@[i].path@ == path,
            self@[j].path@ == path,
        ensures
            i == j,
    {
    }

    /// If the path is present, `path_index` and `record_for` name its row.
    pub proof fn lemma_record_for(&self, path: Seq<char>)
        requires
            self.wf(),
            self.has_path(path),
        ensures
            0 <= self.path_index(path) < self@.len(),
            self@[self.path_index(path)].path@ == path,
            self.record_for(path).path@ == path,
    {
    }

    /// The stored row for a path, if any.
    pub fn lookup(&self, path: &String) -> (r: Option<&FileRecord>)
        requires
            self.wf(),
        ensures
            r is Some <==> self.has_path(path@),
            r matches Some(rec) ==> *rec == self.record_for(path@),
    {
        let n = self.records.len();
        let mut i: usize = 0;
        while i < n
            invariant
                self.wf(),
                n == self@.len(),
                i <= n,
                forall|k: int| 0 <= k < i ==> self@[k].path@ != path@,
            decreases n - i,
        {
            if self.records[i].path == *path {
                proof {
                    assert(self.has_path(path@));
                    self.lemma_record_for(path@);
                    self.lemma_path_unique(path@, i as int, self.path_index(path@));
                }
                return Some(&self.records[i]);
            }
            i = i + 1;
        }
        None
    }

    /// Insert a row for a new path, or overwrite the identifier, size and
    /// modification time of the existing row for it (same path, new content).
    /// Touches no other row.
    pub fn upsert(&mut self, path: String, hash_id: u64, size: u64, modified_time: u64)
        requires
            old(self).wf(),
            old(self).spec_next_id() < u64::MAX,
        ensures
            final(self).wf(),
            final(self).has_path(path@),
            // the row for this path now carries exactly the given fields
            final(self).record_for(path@).path@ == path@,
            final(self).record_for(path@).hash_id == hash_id,
            final(self).record_for(path@).size == size,
            final(self).record_for(path@).modified_time == modified_time,
            // an existing row is overwritten in place, keeping its identifier
            old(self).has_path(path@) ==> final(self)@ == old(self)@.update(
                old(self).path_index(path@),
                (FileRecord {
                    id: old(self).record_for(path@).id,
                    path,
                    size,
                    modified_time,
                    hash_id,
                }),
            ) && final(self).spec_next_id() == old(self).spec_next_id(),
            // a new path appends one fresh row
            !old(self).has_path(path@) ==> final(self)@ == old(self)@.push(
                (FileRecord { id: old(self).spec_next_id(), path, size, modified_time, hash_id }),
            ) && final(self).spec_next_id() == old(self).spec_next_id() + 1,
            // every other path's presence and row are untouched
            forall|q: Seq<char>|
                q != path@ ==> final(self).has_path(q) == old(self).has_path(q),
            forall|q: Seq<char>|
                q != path@ && old(self).has_path(q) ==> final(self).record_for(q) == old(
                    self,
                ).record_for(q),
    {
        let ghost pre = *self;
        let n = self.records.len();
        let mut i: usize = 0;
        while i < n
            invariant
                *self == pre,
                pre == *old(self),
                pre.wf(),
                n == self@.len(),
                i <= n,
                forall|k: int| 0 <= k < i ==> self@[k].path@ != path@,
            decreases n - i,
        {
            if self.records[i].path == path {
                proof {
                    assert(pre.has_path(path@));
                    pre.lemma_record_for(path@);
                    pre.lemma_path_unique(path@, i as int, pre.path_index(path@));
                }
                let id = self.records[i].id;
                self.records[i] = FileRecord { id, path, size, modified_time, hash_id };
                proof {
                    assert(self@.len() == pre@.len());
                    assert(self@[i as int].path@ == path@);
                    assert(self.has_path(path@));
                    self.lemma_record_for(path@);
                    self.lemma_path_unique(path@, i as int, self.path_index(path@));
                    assert forall|q: Seq<char>| q != path@ implies self.has_path(q)
                        == pre.has_path(q) by {
                        if pre.has_path(q) {
                            pre.lemma_record_for(q);
                            assert(self@[pre.path_index(q)].path@ == q);
                        }
                        if self.has_path(q) {
                            self.lemma_record_for(q);
                            assert(pre@[self.path_index(q)].path@ == q);
                        }
                    }
                    assert forall|q: Seq<char>| q != path@ && pre.has_path(q) implies
                        self.record_for(q) == pre.record_for(q) by {
                        pre.lemma_record_for(q);
                        let w = pre.path_index(q);
                        assert(self@[w].path@ == q);
                        assert(self.has_path(q));
                        self.lemma_record_for(q);
                        self.lemma_path_unique(q, w, self.path_index(q));
                    }
                }
                return ;
            }
            i = i + 1;
        }
        assert(!pre.has_path(path@));
        let id = self.next_id;
        self.next_id = self.next_id + 1;
        self.records.push(FileRecord { id, path, size, modified_time, hash_id });
        proof {
            assert(self@[n as int].path@ == path@);
            assert(self.has_path(path@));
            self.lemma_record_for(path@);
            self.lemma_path_unique(path@, n as int, self.path_index(path@));
            assert forall|q: Seq<char>| q != path@ implies self.has_path(q) == pre.has_path(q) by {
                if pre.has_path(q) {
                    pre.lemma_record_for(q);
                    assert(self@[pre.path_index(q)].path@ == q);
                }
                if self.has_path(q) {
                    self.lemma_record_for(q);
                    assert(self.path_index(q) != n as int);
                    assert(pre@[self.path_index(q)].path@ == q);
                }
            }
            assert forall|q: Seq<char>| q != path@ && pre.has_path(q) implies self.record_for(q)
                == pre.record_for(q) by {
                pre.lemma_record_for(q);
                let w = pre.path_index(q);
                assert(self@[w].path@ == q);
                assert(self.has_path(q));
                self.lemma_record_for(q);
                self.lemma_path_unique(q, w, self.path_index(q));
            }
        }
    }

    /// Every stored path, in row order.
    pub fn paths(&self) -> (r: Vec<String>)
        ensures
            r@.len() == self@.len(),
            forall|i: int| 0 <= i < self@.len() ==> r@[i]@ == self@[i].path@,
    {
        let n = self.records.len();
        let mut out: Vec<String> = Vec::new();
        let mut i: usize = 0;
        while i < n
            invariant
                n == self@.len(),
                i <= n,
                out@.len() == i,
                forall|k: int| 0 <= k < i ==> out@[k]@ == self@[k].path@,
            decreases n - i,
        {
            out.push(self.records[i].path.clone());
            i = i + 1;
        }
        out
    }

    /// Reconciliation: keep exactly the rows whose path is among `live`,
    /// each untouched and in its original order; delete every other row.
    pub fn retain_live(&mut self, live: &Vec<String>)
        requires
            old(self).wf(),
        ensures
            final(self).wf(),
            final(self)@ == reconciled(old(self)@, path_views(live@)),
            final(self).spec_next_id() == old(self).spec_next_id(),
    {
        let ghost pre = *self;
        let n = self.records.len();
        let mut kept: Vec<FileRecord> = Vec::new();
        let mut i: usize = 0;
        while i < n
            invariant
                *self == pre,
                pre == *old(self),
                pre.wf(),
                n == self@.len(),
                i <= n,
                kept@ == reconciled(self@.take(i as int), path_views(live@)),
            decreases n - i,
        {
            let r = &self.records[i];
            if contains_path(live, &r.path) {
                kept.push(self.records[i].duplicate());
            }
            proof {
                assert(self@.take(i as int + 1).drop_last() =~= self@.take(i as int));
                assert(self@.take(i as int + 1).last() == self@[i as int]);
            }
            i = i + 1;
        }
        proof {
            assert(self@.take(n as int) =~= self@);
            lemma_reconciled_sub(pre@, path_views(live@));
            lemma_reconciled_unique(pre@, path_views(live@));
        }
        self.records = kept;
    }
}

/// Whether `paths` holds a string equal to `p`.
pub fn contains_path(paths: &Vec<String>, p: &String) -> (r: bool)
    ensures
        r == path_views(paths@).contains(p@),
{
    let n = paths.len();
    let mut i: usize = 0;
    while i < n
        invariant
            n == paths@.len(),
            i <= n,
            forall|k: int| 0 <= k < i ==> paths@[k]@ != p@,
        decreases n - i,
    {
        if paths[i] == *p {
            assert(path_views(paths@)[i as int] == p@);
            return true;
        }
        i = i + 1;
    }
    assert(forall|k: int| 0 <= k < path_views(paths@).len() ==> path_views(paths@)[k] != p@);
    false
}

/// Reconciliation keeps a subsequence: every kept row appears in the input,
/// order-preserved and untouched, and every kept row's path is live.
pub proof fn lemma_reconciled_sub(files: Seq<FileRecord>, live: Seq<Seq<char>>)
    ensures
        reconciled(files, live).len() <= files.len(),
        forall|k: int|
            0 <= k < reconciled(files, live).len() ==> files.contains(
                #[trigger] reconciled(files, live)[k],
            ) && live.contains(reconciled(files, live)[k].path@),
    decreases files.len(),
{
    if files.len() > 0 {
        lemma_reconciled_sub(files.drop_last(), live);
        assert forall|k: int| 0 <= k < reconciled(files, live).len() implies files.contains(
            #[trigger] reconciled(files, live)[k],
        ) && live.contains(reconciled(files, live)[k].path@) by {
            let prev = reconciled(files.drop_last(), live);
            if k < prev.len() {
                assert(reconciled(files, live)[k] == prev[k]);
                let j = choose|j: int| 0 <= j < files.drop_last().len() && files.drop_last()[j] == prev[k];
                assert(files[j] == prev[k]);
            } else {
                assert(reconciled(files, live)[k] == files.last());
                assert(files[files.len() - 1] == files.last());
            }
        }
    }
}

/// Reconciliation deletes nothing it should keep: every row whose path is
/// live stays in the index.
pub proof fn lemma_reconciled_keeps_live(files: Seq<FileRecord>, live: Seq<Seq<char>>)
    ensures
        forall|i: int|
            0 <= i < files.len() && live.contains(#[trigger] files[i].path@) ==> reconciled(
                files,
                live,
            ).contains(files[i]),
    decreases files.len(),
{
    if files.len() > 0 {
        let head = files.drop_last();
        lemma_reconciled_keeps_live(head, live);
        let out = reconciled(files, live);
        let prev = reconciled(head, live);
        assert forall|i: int|
            0 <= i < files.len() && live.contains(#[trigger] files[i].path@) implies out.contains(
            files[i],
        ) by {
            if i < files.len() - 1 {
                assert(head[i] == files[i]);
                assert(prev.contains(files[i]));
                let k = choose|k: int| 0 <= k < prev.len() && prev[k] == files[i];
                assert(out[k] == prev[k]);
            } else {
                assert(files[i] == files.last());
                assert(out.last() == files.last());
                assert(out[out.len() - 1] == files[i]);
            }
        }
    }
}

/// Reconciliation of an index with pairwise-distinct paths and identifiers
/// keeps them pairwise distinct.
pub proof fn lemma_reconciled_unique(files: Seq<FileRecord>, live: Seq<Seq<char>>)
    requires
        forall|i: int, j: int| 0 <= i < j < files.len() ==> files[i].path@ != files[j].path@,
        forall|i: int, j: int| 0 <= i < j < files.len() ==> files[i].id != files[j].id,
    ensures
        forall|i: int, j: int|
            0 <= i < j < reconciled(files, live).len() ==> reconciled(files, live)[i].path@
                != reconciled(files, live)[j].path@,
        forall|i: int, j: int|
            0 <= i < j < reconciled(files, live).len() ==> reconciled(files, live)[i].id
                != reconciled(files, live)[j].id,
    decreases files.len(),
{
    if files.len() > 0 {
        let head = files.drop_last();
        lemma_reconciled_unique(head, live);
        lemma_reconciled_sub(head, live);
        let out = reconciled(files, live);
        let prev = reconciled(head, live);
        assert forall|i: int, j: int| 0 <= i < j < out.len() implies out[i].path@ != out[j].path@
            && out[i].id != out[j].id by {
            if j < prev.len() {
                assert(out[i] == prev[i] && out[j] == prev[j]);
            } else {
                assert(out[j] == files.last());
                assert(out[i] == prev[i]);
                let k = choose|k: int| 0 <= k < head.len() && head[k] == prev[i];
                assert(files[k] == prev[i]);
                assert(files[files.len() - 1] == files.last());
            }
        }
    }
}

} // verus!

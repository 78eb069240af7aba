//! The duplicate report: group file rows by content identifier, keep only
//! groups of two or more members, join each member with its content size
//! and group member count, and order the rows by path ascending.

use vstd::prelude::*;
use crate::file_index::FileIndex;
use crate::path_order::{lex_le, lemma_lex_le_total, lemma_lex_le_trans, str_le};
use crate::pipeline::Catalog;
use crate::records::FileRecord;

verus! {

/// One row of the duplicate report: a file row joined with the owning hash
/// row's size and the member count of its duplicate group.
pub struct DupRow {
    pub file_id: u64,
    pub path: String,
    pub size: u64,
    pub modified_time: u64,
    pub hash_id: u64,
    pub content_size: u64,
    pub member_count: u64,
}

/// How many file rows reference this content identifier.
pub open spec fn group_count(files: Seq<FileRecord>, hash_id: u64) -> nat
    decreases files.len(),
{
    if files.len() == 0 {
        0
    } else {
        group_count(files.drop_last(), hash_id) + if files.last().hash_id == hash_id {
            1nat
        } else {
            0nat
        }
    }
}

/// A group has at most as many members as there are file rows.
pub proof fn lemma_group_count_le(files: Seq<FileRecord>, hash_id: u64)
    ensures
        group_count(files, hash_id) <= files.len(),
    decreases files.len(),
{
    if files.len() > 0 {
        lemma_group_count_le(files.drop_last(), hash_id);
    }
}

/// The report row for one file row of the catalog.
pub open spec fn spec_row(c: Catalog, r: FileRecord) -> DupRow {
    DupRow {
        file_id: r.id,
        path: r.path,
        size: r.size,
        modified_time: r.modified_time,
        hash_id: r.hash_id,
        content_size: c.hash_store()@[r.hash_id - 1].size,
        member_count: group_count(c.file_index()@, r.hash_id) as u64,
    }
}

/// The report rows for a prefix of the catalog's file rows, in row order:
/// exactly the rows whose group has two or more members.
pub open spec fn spec_dup_rows(c: Catalog, files: Seq<FileRecord>) -> Seq<DupRow>
    decreases files.len(),
{
    if files.len() == 0 {
        Seq::empty()
    } else if group_count(c.file_index()@, files.last().hash_id) >= 2 {
        spec_dup_rows(c, files.drop_last()).push(spec_row(c, files.last()))
    } else {
        spec_dup_rows(c, files.drop_last())
    }
}

/// Whether report row `k` is the join row of some file row of `files`
/// whose group has two or more members.
pub open spec fn row_from_group(c: Catalog, files: Seq<FileRecord>, k: int) -> bool {
    exists|i: int|
        0 <= i < files.len() && spec_dup_rows(c, files)[k] == spec_row(c, #[trigger] files[i])
            && group_count(c.file_index()@, files[i].hash_id) >= 2
}

/// Only real groups are reported: every report row's member count is at
/// least 2 — a singleton never appears — and every row is the join row of
/// some file row whose group has two or more members.
pub proof fn lemma_dup_rows_only_groups(c: Catalog, files: Seq<FileRecord>)
    requires
        c.file_index()@.len() <= u64::MAX,
    ensures
        forall|k: int|
            0 <= k < spec_dup_rows(c, files).len() ==> #[trigger] spec_dup_rows(c, files)[k].member_count
                >= 2,
        forall|k: int|
            0 <= k < spec_dup_rows(c, files).len() ==> #[trigger] row_from_group(c, files, k),
    decreases files.len(),
{
    if files.len() > 0 {
        lemma_dup_rows_only_groups(c, files.drop_last());
        let out = spec_dup_rows(c, files);
        let prev = spec_dup_rows(c, files.drop_last());
        let head = files.drop_last();
        assert forall|k: int| 0 <= k < out.len() implies #[trigger] out[k].member_count >= 2
            && row_from_group(c, files, k) by {
            if k < prev.len() {
                assert(out[k] == prev[k]);
                assert(row_from_group(c, head, k));
                let i = choose|i: int|
                    0 <= i < head.len() && spec_dup_rows(c, head)[k] == spec_row(c, #[trigger] head[i])
                        && group_count(c.file_index()@, head[i].hash_id) >= 2;
                assert(files[i] == head[i]);
                assert(out[k] == spec_row(c, files[i]));
            } else {
                assert(out[k] == spec_row(c, files.last()));
                lemma_group_count_le(c.file_index()@, files.last().hash_id);
                let i = files.len() - 1;
                assert(files[i] == files.last());
                assert(out[k] == spec_row(c, files[i]));
                assert(group_count(c.file_index()@, files[i].hash_id) >= 2);
            }
        }
        assert forall|k: int| 0 <= k < out.len() implies #[trigger] row_from_group(c, files, k) by {
            assert(out[k].member_count >= 2 && row_from_group(c, files, k));
        }
    }
}

/// Whether the rows are ordered by path ascending.
pub open spec fn rows_sorted(rows: Seq<DupRow>) -> bool {
    forall|i: int, j: int| 0 <= i < j < rows.len() ==> lex_le(rows[i].path@, rows[j].path@)
}

/// The member count of one content identifier, by one pass over the rows.
fn count_group(files: &FileIndex, hash_id: u64) -> (n: u64)
    ensures
        n == group_count(files@, hash_id),
{
    let len = files.len();
    let mut n: u64 = 0;
    let mut j: usize = 0;
    while j < len
        invariant
            len == files@.len(),
            j <= len,
            n <= j,
            n == group_count(files@.take(j as int), hash_id),
        decreases len - j,
    {
        proof {
            assert(files@.take(j as int + 1).drop_last() =~= files@.take(j as int));
            assert(files@.take(j as int + 1).last() == files@[j as int]);
        }
        if files.row(j).hash_id == hash_id {
            n = n + 1;
        }
        j = j + 1;
    }
    proof {
        assert(files@.take(len as int) =~= files@);
    }
    n
}

/// The position at which `row` goes into the sorted `rows`: the first index
/// whose path does not precede `row`'s.
fn insert_pos(rows: &Vec<DupRow>, row: &DupRow) -> (k: usize)
    ensures
        k <= rows@.len(),
        forall|j: int| 0 <= j < k ==> lex_le(rows@[j].path@, row.path@),
        k < rows@.len() ==> !lex_le(rows@[k as int].path@, row.path@),
{
    let n = rows.len();
    let mut k: usize = 0;
    while k < n
        invariant
            n == rows@.len(),
            k <= n,
            forall|j: int| 0 <= j < k ==> lex_le(rows@[j].path@, row.path@),
        decreases n - k,
    {
        if !str_le(rows[k].path.as_str(), row.path.as_str()) {
            return k;
        }
        k = k + 1;
    }
    k
}

/// Insert one row into a path-sorted vector, keeping it sorted; the rows
/// afterwards are the rows before plus the new one.
fn sorted_insert(rows: &mut Vec<DupRow>, row: DupRow)
    requires
        rows_sorted(old(rows)@),
    ensures
        rows_sorted(final(rows)@),
        final(rows)@.to_multiset() == old(rows)@.to_multiset().insert(row),
        final(rows)@.len() == old(rows)@.len() + 1,
{
    let k = insert_pos(rows, &row);
    let ghost pre = rows@;
    rows.insert(k, row);
    proof {
        let post = rows@;
        pre.insert_ensures(k as int, row);
        assert forall|i: int, j: int| 0 <= i < j < post.len() implies lex_le(
            post[i].path@,
            post[j].path@,
        ) by {
            if i == k {
                lemma_lex_le_total(pre[k as int].path@, row.path@);
                if j - 1 > k {
                    lemma_lex_le_trans(row.path@, pre[k as int].path@, pre[j - 1].path@);
                }
            }
        }
        // the inserted sequence holds the same rows plus the new one
        pre.to_multiset_ensures();
        post.to_multiset_ensures();
        assert(post.remove(k as int) =~= pre);
        assert(post[k as int] == row);
        assert(post.to_multiset().remove(row) =~= pre.to_multiset());
        assert(post.contains(row));
        assert(post.to_multiset().count(row) > 0);
        assert(post.to_multiset() =~= pre.to_multiset().insert(row));
    }
}

/// The duplicate report of a catalog: the file rows whose duplicate group
/// has two or more members, each joined with its content size and member
/// count, ordered by path ascending. Read-only.
pub fn duplicate_report(c: &Catalog) -> (rows: Vec<DupRow>)
    requires
        c.wf(),
    ensures
        rows_sorted(rows@),
        rows@.to_multiset() == spec_dup_rows(*c, c.file_index()@).to_multiset(),
        // only real groups: a singleton never appears
        forall|k: int| 0 <= k < rows@.len() ==> #[trigger] rows@[k].member_count >= 2,
{
    let files = c.files();
    let len = files.len();
    let mut rows: Vec<DupRow> = Vec::new();
    let mut i: usize = 0;
    while i < len
        invariant
            c.wf(),
            len == c.file_index()@.len(),
            *files == c.file_index(),
            rows_sorted(rows@),
            i <= len,
            rows@.to_multiset() == spec_dup_rows(*c, c.file_index()@.take(i as int)).to_multiset(),
        decreases len - i,
    {
        proof {
            assert(c.file_index()@.take(i as int + 1).drop_last() =~= c.file_index()@.take(
                i as int,
            ));
            assert(c.file_index()@.take(i as int + 1).last() == c.file_index()@[i as int]);
        }
        let r = files.row(i);
        let count = count_group(files, r.hash_id);
        if count >= 2 {
            proof {
                assert(1 <= c.file_index()@[i as int].hash_id <= c.hash_store()@.len());
                lemma_group_count_le(c.file_index()@, c.file_index()@[i as int].hash_id);
            }
            let hs_len = c.hashes().len();
            assert(r.hash_id as int <= hs_len as int);
            let idx = (r.hash_id as usize) - 1;
            let hash_row = c.hashes().row(idx);
            let dup = DupRow {
                file_id: r.id,
                path: r.path.clone(),
                size: r.size,
                modified_time: r.modified_time,
                hash_id: r.hash_id,
                content_size: hash_row.size,
                member_count: count,
            };
            assert(dup == spec_row(*c, c.file_index()@[i as int]));
            sorted_insert(&mut rows, dup);
            proof {
                let prevseq = spec_dup_rows(*c, c.file_index()@.take(i as int));
                prevseq.to_multiset_ensures();
                assert(spec_dup_rows(*c, c.file_index()@.take(i as int + 1)) == prevseq.push(
                    spec_row(*c, c.file_index()@[i as int]),
                ));
            }
        }
        i = i + 1;
    }
    proof {
        assert(c.file_index()@.take(len as int) =~= c.file_index()@);
        let dup = spec_dup_rows(*c, c.file_index()@);
        lemma_dup_rows_only_groups(*c, c.file_index()@);
        rows@.to_multiset_ensures();
        dup.to_multiset_ensures();
        assert forall|k: int| 0 <= k < rows@.len() implies #[trigger] rows@[k].member_count
            >= 2 by {
            assert(rows@.contains(rows@[k]));
            assert(rows@.to_multiset().count(rows@[k]) > 0);
            assert(dup.contains(rows@[k]));
            let j = choose|j: int| 0 <= j < dup.len() && dup[j] == rows@[k];
            assert(dup[j].member_count >= 2);
        }
    }
    rows
}

} // verus!

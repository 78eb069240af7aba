//! The per-file pipeline over the two tables: change filter, content hash,
//! hash-store resolve, file-index upsert — always in that order, so every
//! index row references an existing hash row.

use vstd::prelude::*;
use crate::change_filter::{change_decision, spec_needs_processing, ScanDecision};
use crate::file_index::FileIndex;
use crate::hash_store::HashStore;
use crate::hashing::{digest_of_bytes, xxh3_of};
use crate::hexcode::hex_of;
use crate::hexcode::digest_hex;

verus! {

/// What one per-file task did.
#[derive(Clone, Copy, Debug, PartialEq, Eq, Structural)]
pub enum ProcessOutcome {
    /// The change filter decided SKIP: nothing was hashed or written.
    Skipped,
    /// The file was hashed and both tables were upserted.
    Indexed,
}

/// The two persisted tables, coupled only through hash identifiers.
pub struct Catalog {
    hashes: HashStore,
    files: FileIndex,
}

impl Catalog {
    pub closed spec fn hash_store(&self) -> HashStore {
        self.hashes
    }

    pub closed spec fn file_index(&self) -> FileIndex {
        self.files
    }

    /// Well-formed: both tables are, and every file row's hash_id references
    /// an existing hash row (identifiers are dense, so existence is a range).
    pub open spec fn wf(&self) -> bool {
        &&& self.hash_store().wf()
        &&& self.file_index().wf()
        &&& forall|i: int|
            0 <= i < self.file_index()@.len() ==> 1 <= #[trigger] self.file_index()@[i].hash_id
                <= self.hash_store()@.len()
    }

    /// Whether the stored row for `path` carries exactly this metadata.
    pub open spec fn indexed_with(&self, path: Seq<char>, size: u64, modified_time: u64) -> bool {
        &&& self.file_index().has_path(path)
        &&& self.file_index().record_for(path).size == size
        &&& self.file_index().record_for(path).modified_time == modified_time
    }

    pub fn new() -> (c: Catalog)
        ensures
            c.wf(),
            c.hash_store()@.len() == 0,
            c.file_index()@.len() == 0,
            c.file_index().spec_next_id() == 1,
    {
        Catalog { hashes: HashStore::new(), files: FileIndex::new() }
    }

    /// Read access to the hash table.
    pub fn hashes(&self) -> (r: &HashStore)
        ensures
            *r == self.hash_store(),
    {
        &self.hashes
    }

    /// Read access to the file table.
    pub fn files(&self) -> (r: &FileIndex)
        ensures
            *r == self.file_index(),
    {
        &self.files
    }

    /// Mutable access to the file table, for reconciliation: deleting file
    /// rows never breaks referential integrity, because hash rows are never
    /// deleted. The caller may only delete or keep rows, so the borrow is
    /// re-checked through `reconcile`.
    pub fn reconcile(&mut self, live: &Vec<String>)
        requires
            old(self).wf(),
        ensures
            final(self).wf(),
            final(self).hash_store() == old(self).hash_store(),
            final(self).file_index()@ == crate::file_index::reconciled(
                old(self).file_index()@,
                crate::file_index::path_views(live@),
            ),
    {
        proof {
            crate::file_index::lemma_reconciled_sub(
                self.files@,
                crate::file_index::path_views(live@),
            );
        }
        self.files.retain_live(live);
        proof {
            let pre = old(self).file_index()@;
            let post = self.files@;
            assert forall|i: int| 0 <= i < post.len() implies 1 <= #[trigger] post[i].hash_id
                <= self.hashes@.len() by {
                assert(pre.contains(post[i]));
                let j = choose|j: int| 0 <= j < pre.len() && pre[j] == post[i];
                assert(1 <= pre[j].hash_id <= self.hashes@.len());
            }
        }
    }

    /// The change filter's decision for a path with this current metadata.
    pub fn decision(&self, path: &String, size: u64, modified_time: u64) -> (d: ScanDecision)
        requires
            self.wf(),
        ensures
            (d == ScanDecision::Process) == self.spec_decision_is_process(
                path@,
                size,
                modified_time,
            ),
    {
        let prior = self.files.lookup(path);
        proof {
            if self.files.has_path(path@) {
                self.files.lemma_record_for(path@);
            }
        }
        change_decision(prior, size, modified_time)
    }

    /// When `decision` answers PROCESS.
    pub open spec fn spec_decision_is_process(
        &self,
        path: Seq<char>,
        size: u64,
        modified_time: u64,
    ) -> bool {
        spec_needs_processing(
            if self.file_index().has_path(path) {
                Option::Some(self.file_index().record_for(path))
            } else {
                Option::None
            },
            size,
            modified_time,
        )
    }

    /// Record a hashed file: resolve the content-address (size, digest) to
    /// its identifier — creating the hash row on first observation — then
    /// upsert the file row under that identifier. The hash row always goes
    /// in first, so referential integrity is preserved.
    pub fn record_hashed(&mut self, path: String, size: u64, modified_time: u64, digest: u64)
        requires
            old(self).wf(),
            size != 0,
            old(self).hash_store()@.len() < u64::MAX,
            old(self).file_index().spec_next_id() < u64::MAX,
        ensures
            final(self).wf(),
            // the hash table now holds the content-address, under a stable id
            final(self).hash_store().has_key(size, hex_of(digest)),
            old(self).hash_store().has_key(size, hex_of(digest)) ==> final(self).hash_store()@
                == old(self).hash_store()@,
            !old(self).hash_store().has_key(size, hex_of(digest)) ==> final(self).hash_store()@
                .len() == old(self).hash_store()@.len() + 1,
            forall|sz: u64, dg: Seq<char>|
                old(self).hash_store().has_key(sz, dg) ==> final(self).hash_store().has_key(sz, dg)
                    && final(self).hash_store().id_of(sz, dg) == old(self).hash_store().id_of(
                    sz,
                    dg,
                ),
            // the file row for this path now carries the metadata and the
            // content-address's identifier; a known path is overwritten in
            // place, a new one adds exactly one row
            final(self).indexed_with(path@, size, modified_time),
            old(self).file_index().has_path(path@)
                ==> final(self).file_index()@.len() == old(self).file_index()@.len(),
            !old(self).file_index().has_path(path@)
                ==> final(self).file_index()@.len() == old(self).file_index()@.len() + 1,
            final(self).file_index().record_for(path@).hash_id == final(self).hash_store().id_of(
                size,
                hex_of(digest),
            ),
            // no other file row is touched
            forall|q: Seq<char>|
                q != path@ ==> final(self).file_index().has_path(q) == old(
                    self,
                ).file_index().has_path(q),
            forall|q: Seq<char>|
                q != path@ && old(self).file_index().has_path(q)
                    ==> final(self).file_index().record_for(q) == old(
                    self,
                ).file_index().record_for(q),
    {
        let hex = digest_hex(digest);
        let hash_id = self.hashes.resolve_or_create(size, hex);
        let ghost mid_files = self.files;
        self.files.upsert(path, hash_id, size, modified_time);
        proof {
            let post = self.files@;
            assert forall|i: int| 0 <= i < post.len() implies 1 <= #[trigger] post[i].hash_id
                <= self.hashes@.len() by {
                if mid_files.has_path(path@) {
                    let k = mid_files.path_index(path@);
                    if i != k {
                        assert(post[i] == mid_files@[i]);
                    }
                } else {
                    if i < post.len() - 1 {
                        assert(post[i] == mid_files@[i]);
                    }
                }
            }
        }
    }

    /// The whole per-file task on in-memory content, mirroring one hashing
    /// task end to end: change filter, then — only on PROCESS — the chunked
    /// content hash, the content-address resolve, and the file upsert.
    /// `size` and `modified_time` are the file's current metadata; `bytes`
    /// is the content that was read.
    pub fn process_file(
        &mut self,
        path: &String,
        size: u64,
        modified_time: u64,
        bytes: &[u8],
    ) -> (r: ProcessOutcome)
        requires
            old(self).wf(),
            old(self).hash_store()@.len() < u64::MAX,
            old(self).file_index().spec_next_id() < u64::MAX,
        ensures
            final(self).wf(),
            // SKIP if and only if the change filter said so, and then
            // nothing at all was written
            (r == ProcessOutcome::Skipped) == !old(self).spec_decision_is_process(
                path@,
                size,
                modified_time,
            ),
            r == ProcessOutcome::Skipped ==> *final(self) == *old(self),
            // on PROCESS, the digest of exactly these bytes was recorded
            r == ProcessOutcome::Indexed ==> final(self).indexed_with(path@, size, modified_time)
                && final(self).hash_store().has_key(size, hex_of(xxh3_of(bytes@)))
                && final(self).file_index().record_for(path@).hash_id == final(self).hash_store().id_of(size, hex_of(xxh3_of(bytes@))),
            // hash rows are never deleted, and existing ids never move
            forall|sz: u64, dg: Seq<char>|
                old(self).hash_store().has_key(sz, dg) ==> final(self).hash_store().has_key(sz, dg)
                    && final(self).hash_store().id_of(sz, dg) == old(self).hash_store().id_of(
                    sz,
                    dg,
                ),
            // a new path adds exactly one file row, a known one adds none
            r == ProcessOutcome::Indexed && !old(self).file_index().has_path(path@)
                ==> final(self).file_index()@.len() == old(self).file_index()@.len() + 1,
            r == ProcessOutcome::Indexed && old(self).file_index().has_path(path@)
                ==> final(self).file_index()@.len() == old(self).file_index()@.len(),
    {
        let d = self.decision(path, size, modified_time);
        if matches!(d, ScanDecision::Skip) {
            return ProcessOutcome::Skipped;
        }
        let digest = digest_of_bytes(bytes);
        self.record_hashed(path.clone(), size, modified_time, digest);
        ProcessOutcome::Indexed
    }
}

/// Idempotent re-entry: once a path is indexed with a given size and
/// modification time, rescanning it with the same metadata decides SKIP, so
/// a second run over an unchanged tree performs zero hash computations.
pub proof fn lemma_idempotent_rescan(c: Catalog, path: Seq<char>, size: u64, modified_time: u64)
    requires
        c.wf(),
        c.indexed_with(path, size, modified_time),
    ensures
        !c.spec_decision_is_process(path, size, modified_time),
{
}

/// Content-addressing: two paths whose rows were recorded under the same
/// content-address — equal size and equal digest, as byte-identical content
/// always hashes to — carry the same hash identifier. The premises are what
/// `record_hashed` ensures of each path.
pub proof fn lemma_equal_content_shares_id(
    c: Catalog,
    p1: Seq<char>,
    p2: Seq<char>,
    size: u64,
    digest: u64,
)
    requires
        c.wf(),
        c.file_index().has_path(p1),
        c.file_index().has_path(p2),
        c.file_index().record_for(p1).hash_id == c.hash_store().id_of(size, hex_of(digest)),
        c.file_index().record_for(p2).hash_id == c.hash_store().id_of(size, hex_of(digest)),
    ensures
        c.file_index().record_for(p1).hash_id == c.file_index().record_for(p2).hash_id,
{
}

/// Zero-size exclusion: a zero-length file is never processed, so it
/// produces no hash row and no file row.
pub proof fn lemma_zero_size_excluded(c: Catalog, path: Seq<char>, modified_time: u64)
    ensures
        !c.spec_decision_is_process(path, 0, modified_time),
{
}

} // verus!

//! The content-addressed hash store: one row per distinct (size, digest)
//! pair, idempotent resolve-or-create, rows never mutated or deleted.

use vstd::prelude::*;
use crate::records::HashRecord;

verus! {

pub struct HashStore {
    records: Vec<HashRecord>,
}

impl HashStore {
    /// The rows, in identifier order.
    pub closed spec fn view(&self) -> Seq<HashRecord> {
        self.records@
    }

    /// Well-formed: no two rows share a content-address, and identifiers are
    /// assigned densely in insertion order starting at 1.
    pub open spec fn wf(&self) -> bool {
        &&& forall|i: int, j: int|
            0 <= i < j < self@.len() ==> !(self@[i].size == self@[j].size
                && self@[i].digest@ == self@[j].digest@)
        &&& forall|i: int| 0 <= i < self@.len() ==> self@[i].id == i + 1
    }

    /// Whether some row holds this content-address.
    pub open spec fn has_key(&self, size: u64, digest: Seq<char>) -> bool {
        exists|i: int|
            0 <= i < self@.len() && self@[i].size == size && self@[i].digest@ == digest
    }

    /// The index of the row holding this content-address.
    pub open spec fn key_index(&self, size: u64, digest: Seq<char>) -> int {
        choose|i: int|
            0 <= i < self@.len() && self@[i].size == size && self@[i].digest@ == digest
    }

    /// The identifier of the row holding this content-address.
    pub open spec fn id_of(&self, size: u64, digest: Seq<char>) -> u64 {
        self@[self.key_index(size, digest)].id
    }

    pub fn new() -> (s: HashStore)
        ensures
            s.wf(),
            s@ == Seq::<HashRecord>::empty(),
    {
        HashStore { records: Vec::new() }
    }

    /// How many rows the store holds.
    pub fn len(&self) -> (n: usize)
        ensures
            n == self@.len(),
    {
        self.records.len()
    }

    /// The row at one position, counting from zero.
    pub fn row(&self, i: usize) -> (r: &HashRecord)
        requires
            i < self@.len(),
        ensures
            *r == self@[i as int],
    {
        &self.records[i]
    }

    /// Content-addressing: a (size, digest) pair maps to exactly one row,
    /// however many paths share it.
    pub proof fn lemma_content_address_unique(&self, size: u64, digest: Seq<char>, i: int, j: int)
        requires
            self.wf(),
            0 <= i < self@.len(),
            0 <= j < self@.len(),
            self@[i].size == size && self@[i].digest@ == digest,
            self@[j].size == size && self@[j].digest@ == digest,
        ensures
            i == j,
    {
    }

    /// If the key is present, `key_index` and `id_of` name its unique row.
    pub proof fn lemma_id_of(&self, size: u64, digest: Seq<char>)
        requires
            self.wf(),
            self.has_key(size, digest),
        ensures
            0 <= self.key_index(size, digest) < self@.len(),
            self@[self.key_index(size, digest)].size == size,
            self@[self.key_index(size, digest)].digest@ == digest,
            self.id_of(size, digest) == self.key_index(size, digest) + 1,
    {
    }

    /// Resolve a content-address to its identifier, creating the row on
    /// first observation. Idempotent: an existing row is returned unchanged,
    /// and no row other than (possibly) one appended row is touched.
    pub fn resolve_or_create(&mut self, size: u64, digest: String) -> (id: u64)
        requires
            old(self).wf(),
            old(self)@.len() < u64::MAX,
        ensures
            final(self).wf(),
            final(self).has_key(size, digest@),
            id == final(self).id_of(size, digest@),
            1 <= id <= final(self)@.len(),
            // an existing content-address resolves without any change
            old(self).has_key(size, digest@) ==> final(self)@ == old(self)@ && id == old(
                self,
            ).id_of(size, digest@),
            // a new content-address appends exactly one fresh row
            !old(self).has_key(size, digest@) ==> final(self)@ == old(self)@.push(
                (HashRecord { id: (old(self)@.len() + 1) as u64, size, digest }),
            ) && id == old(self)@.len() + 1,
            // every previously present content-address keeps its identifier
            forall|sz: u64, dg: Seq<char>|
                old(self).has_key(sz, dg) ==> final(self).has_key(sz, dg) && final(self).id_of(
                    sz,
                    dg,
                ) == old(self).id_of(sz, dg),
    {
        let ghost pre = *self;
        let n = self.records.len();
        let mut i: usize = 0;
        while i < n
            invariant
                *self == pre,
                pre == *old(self),
                pre.wf(),
                n == self@.len(),
                i <= n,
                forall|k: int|
                    0 <= k < i ==> !(self@[k].size == size && self@[k].digest@ == digest@),
            decreases n - i,
        {
            let r = &self.records[i];
            if r.size == size && r.digest == digest {
                proof {
                    assert(self.has_key(size, digest@));
                    self.lemma_id_of(size, digest@);
                    self.lemma_content_address_unique(
                        size,
                        digest@,
                        i as int,
                        self.key_index(size, digest@),
                    );
                }
                return self.records[i].id;
            }
            i = i + 1;
        }
        assert(!pre.has_key(size, digest@));
        let id: u64 = (n as u64) + 1;
        self.records.push(HashRecord { id, size, digest });
        proof {
            assert(self@[n as int].id == id);
            assert(self.has_key(size, digest@));
            self.lemma_id_of(size, digest@);
            assert forall|sz: u64, dg: Seq<char>| pre.has_key(sz, dg) implies self.has_key(sz, dg)
                && self.id_of(sz, dg) == pre.id_of(sz, dg) by {
                pre.lemma_id_of(sz, dg);
                let k = pre.key_index(sz, dg);
                assert(self@[k].size == sz && self@[k].digest@ == dg);
                assert(self.has_key(sz, dg));
                self.lemma_id_of(sz, dg);
                self.lemma_content_address_unique(sz, dg, k, self.key_index(sz, dg));
            }
        }
        id
    }
}

} // verus!

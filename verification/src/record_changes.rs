//! What changed in the record store since the overlay last looked: a revision number,
//! the charts whose records changed, and whether everything has to be reread.
use vstd::prelude::*;
use crate::model::{Difficulty, Mode};

verus! {

/// A chart: song id, button mode, difficulty.
pub type RecordKey = (i32, Mode, Difficulty);

/// The revision after `r`: one more, wrapping around.
pub open spec fn next_revision(r: u64) -> u64 {
    if r == u64::MAX { 0 } else { (r + 1) as u64 }
}

/// Whether two charts are the same.
fn same_key(a: &RecordKey, b: &RecordKey) -> (r: bool)
    ensures
        r == (*a == *b),
{
    a.0 == b.0 && a.1 == b.1 && a.2 == b.2
}

/// The change log of the record store.
pub struct RecordChanges {
    data_revision: u64,
    dirty_record_keys: Vec<RecordKey>,
    full_dirty: bool,
}

impl RecordChanges {
    /// The revision number, raised by every change.
    pub closed spec fn revision(&self) -> u64 {
        self.data_revision
    }

    /// The charts changed since the last look.
    pub closed spec fn dirty_keys(&self) -> Set<RecordKey> {
        self.dirty_record_keys@.to_set()
    }

    /// Everything has to be reread.
    pub closed spec fn all_dirty(&self) -> bool {
        self.full_dirty
    }

    /// Each changed chart is listed once.
    #[verifier::type_invariant]
    spec fn wf(&self) -> bool {
        self.dirty_record_keys@.no_duplicates()
    }

    /// A log before anything was read: revision 0, everything to be read.
    pub fn new() -> (r: RecordChanges)
        ensures
            r.revision() == 0,
            r.dirty_keys() == Set::<RecordKey>::empty(),
            r.all_dirty(),
    {
        let r = RecordChanges { data_revision: 0, dirty_record_keys: Vec::new(), full_dirty: true };
        assert(r.dirty_record_keys@.to_set() =~= Set::<RecordKey>::empty());
        r
    }

    /// The store was reloaded: everything has to be reread, no single chart is listed.
    pub fn mark_all_dirty(&mut self)
        ensures
            final(self).revision() == next_revision(old(self).revision()),
            final(self).dirty_keys() == Set::<RecordKey>::empty(),
            final(self).all_dirty(),
    {
        self.dirty_record_keys = Vec::new();
        self.full_dirty = true;
        self.data_revision = self.data_revision.wrapping_add(1);
        assert(self.dirty_record_keys@.to_set() =~= Set::<RecordKey>::empty());
    }

    /// The record of chart `key` changed.
    pub fn mark_dirty(&mut self, key: RecordKey)
        ensures
            final(self).revision() == next_revision(old(self).revision()),
            final(self).dirty_keys() == old(self).dirty_keys().insert(key),
            final(self).all_dirty() == old(self).all_dirty(),
    {
        proof {
            use_type_invariant(&*self);
        }
        let mut keys: Vec<RecordKey> = Vec::new();
        std::mem::swap(&mut keys, &mut self.dirty_record_keys);
        let ghost before = keys@;
        let mut i: usize = 0;
        let n = keys.len();
        while i < n && !same_key(&keys[i], &key)
            invariant
                n == keys@.len(),
                i <= n,
                forall|j: int| 0 <= j < i ==> keys@[j] != key,
            decreases n - i,
        {
            i = i + 1;
        }
        if i == n {
            keys.push(key);
            proof {
                assert forall|a: int, b: int|
                    0 <= a < keys@.len() && 0 <= b < keys@.len() && a != b
                    implies keys@[a] != keys@[b] by {
                    if a < n && b < n {
                        assert(keys@[a] == before[a]);
                        assert(keys@[b] == before[b]);
                    } else if a < n {
                        assert(keys@[a] == before[a]);
                    } else {
                        assert(keys@[b] == before[b]);
                    }
                }
                assert(keys@.to_set() =~= before.to_set().insert(key)) by {
                    assert forall|k: RecordKey| #[trigger] keys@.contains(k) == before.to_set().insert(key).contains(k) by {
                        if keys@.contains(k) {
                            let j = choose|j: int| 0 <= j < keys@.len() && keys@[j] == k;
                            if j < n {
                                assert(before[j] == k);
                            }
                        }
                        if before.contains(k) {
                            let j = choose|j: int| 0 <= j < before.len() && before[j] == k;
                            assert(keys@[j] == k);
                        }
                        if k == key {
                            assert(keys@[n as int] == k);
                        }
                    }
                }
            }
        } else {
            proof {
                assert(before[i as int] == key);
                assert(before.to_set().insert(key) =~= before.to_set());
            }
        }
        self.dirty_record_keys = keys;
        self.data_revision = self.data_revision.wrapping_add(1);
    }

    /// The current revision number.
    pub fn data_revision(&self) -> (r: u64)
        ensures
            r == self.revision(),
    {
        self.data_revision
    }

    /// Hands out what changed since the last call (whether everything has to be reread,
    /// and the changed charts, each once) and starts over with nothing changed.
    pub fn consume_dirty_info(&mut self) -> (r: (bool, Vec<RecordKey>))
        ensures
            r.0 == old(self).all_dirty(),
            r.1@.no_duplicates(),
            r.1@.to_set() == old(self).dirty_keys(),
            !final(self).all_dirty(),
            final(self).dirty_keys() == Set::<RecordKey>::empty(),
            final(self).revision() == old(self).revision(),
    {
        proof {
            use_type_invariant(&*self);
        }
        let full_dirty = self.full_dirty;
        self.full_dirty = false;
        let mut keys: Vec<RecordKey> = Vec::new();
        std::mem::swap(&mut self.dirty_record_keys, &mut keys);
        assert(self.dirty_record_keys@.to_set() =~= Set::<RecordKey>::empty());
        (full_dirty, keys)
    }
}


/// A chart marked as changed is among the charts that the next look hands out: `marked`
/// is the log after `mark_dirty(key)`, `reported` what `consume_dirty_info` then returns.
pub proof fn lemma_marked_key_is_reported(before: RecordChanges, marked: RecordChanges, key: RecordKey, reported: Seq<RecordKey>)
    requires
        marked.dirty_keys() == before.dirty_keys().insert(key),
        reported.to_set() == marked.dirty_keys(),
    ensures
        reported.contains(key),
{
    assert(reported.to_set().contains(key));
}

} // verus!

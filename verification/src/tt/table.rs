//! The transposition table: one entry per slot, the slot chosen by the hash.
use vstd::prelude::*;
use crate::board::position::Move;
use crate::tt::entry::{Bound, TTEntry, is_empty_entry};

verus! {

/// The size in bytes of an entry.
pub const ENTRY_BYTES: usize = 24;

pub struct TranspositionTable {
    entries: Vec<TTEntry>,
    size: usize,
    age: u8,
}

/// The slot of a hash in a table of `size` slots.
pub open spec fn slot_of(hash: u64, size: int) -> int {
    (hash as usize) as int % size
}

/// The entry `store` leaves in a slot holding `e`.
pub open spec fn stored(e: TTEntry, hash: u64, mv: Move, score: i32, depth: u8, bound: Bound, age: u8) -> TTEntry {
    if e.hash != hash || depth >= e.depth || age != e.age {
        TTEntry { hash, mv, score, depth, bound, age }
    } else {
        e
    }
}

/// The filter of the entries of the current search.
pub open spec fn of_age(age: u8) -> spec_fn(TTEntry) -> bool {
    |e: TTEntry| e.age == age
}

impl TranspositionTable {
    /// The slots.
    pub closed spec fn slots(&self) -> Seq<TTEntry> {
        self.entries@
    }

    /// The age of the current search.
    pub closed spec fn current_age(&self) -> u8 {
        self.age
    }

    /// The size field matches the number of slots.
    pub closed spec fn wf(&self) -> bool {
        self.size == self.entries@.len()
    }

    /// Allocates `mb` megabytes of empty entries.
    pub fn new(mb: usize) -> (t: Self)
        requires
            mb * 1048576 <= usize::MAX,
        ensures
            t.wf(),
            t.slots().len() == mb * 1048576 / (ENTRY_BYTES as int),
            forall|i: int| 0 <= i < t.slots().len() ==> is_empty_entry(#[trigger] t.slots()[i]),
            t.current_age() == 0,
    {
        let size = (mb * 1024 * 1024) / ENTRY_BYTES;
        let t = TranspositionTable { entries: vec![TTEntry::empty(); size], size, age: 0 };
        t
    }

    /// A table of the default size, 64 MB.
    pub fn new_auto() -> (t: Self)
        ensures
            t.wf(),
            t.slots().len() == 67108864int / (ENTRY_BYTES as int),
            forall|i: int| 0 <= i < t.slots().len() ==> is_empty_entry(#[trigger] t.slots()[i]),
            t.current_age() == 0,
    {
        Self::new(64)
    }

    fn index(&self, hash: u64) -> (i: usize)
        requires
            self.wf(),
            self.slots().len() > 0,
        ensures
            i == slot_of(hash, self.slots().len() as int),
            i < self.slots().len(),
    {
        (hash as usize) % self.size
    }

    /// The entry of the slot of `hash`, if it was stored for that very hash.
    pub fn probe(&self, hash: u64) -> (r: Option<TTEntry>)
        requires
            self.wf(),
            self.slots().len() > 0,
        ensures
            ({
                let e = self.slots()[slot_of(hash, self.slots().len() as int)];
                if e.hash == hash { r == Some(e) } else { r is None }
            }),
    {
        let entry = self.entries[self.index(hash)];
        if entry.hash == hash { Some(entry) } else { None }
    }

    /// Stores a result in the slot of `hash`, replacing a different position, a result
    /// of a shallower or equal search, or one of an earlier search.
    pub fn store(&mut self, hash: u64, mv: Move, score: i32, depth: u8, bound: Bound)
        requires
            old(self).wf(),
            old(self).slots().len() > 0,
        ensures
            final(self).wf(),
            final(self).current_age() == old(self).current_age(),
            final(self).slots() == old(self).slots().update(
                slot_of(hash, old(self).slots().len() as int),
                stored(old(self).slots()[slot_of(hash, old(self).slots().len() as int)], hash, mv, score, depth,
                    bound, old(self).current_age()),
            ),
    {
        let idx = self.index(hash);
        let existing = self.entries[idx];
        if existing.hash != hash || depth >= existing.depth || self.age != existing.age {
            self.entries.set(idx, TTEntry { hash, mv, score, depth, bound, age: self.age });
        }
        proof {
            assert(self.entries@ =~= old(self).entries@.update(idx as int,
                stored(existing, hash, mv, score, depth, bound, self.age)));
        }
    }

    /// Empties every slot.
    pub fn clear(&mut self)
        requires
            old(self).wf(),
        ensures
            final(self).wf(),
            final(self).current_age() == old(self).current_age(),
            final(self).slots().len() == old(self).slots().len(),
            forall|i: int| 0 <= i < final(self).slots().len() ==> is_empty_entry(#[trigger] final(self).slots()[i]),
    {
        let mut i: usize = 0;
        let n = self.entries.len();
        while i < n
            invariant
                self.wf(),
                n == self.entries@.len(),
                self.entries@.len() == old(self).entries@.len(),
                self.age == old(self).age,
                0 <= i <= n,
                forall|j: int| 0 <= j < i ==> is_empty_entry(#[trigger] self.entries@[j]),
            decreases n - i,
        {
            self.entries.set(i, TTEntry::empty());
            i = i + 1;
        }
    }

    /// Starts a new search: the age advances, wrapping at 256.
    pub fn new_search(&mut self)
        ensures
            final(self).wf() == old(self).wf(),
            final(self).slots() == old(self).slots(),
            final(self).current_age() == (if old(self).current_age() == 255 { 0 } else { old(self).current_age() + 1 }),
    {
        self.age = if self.age == 255 { 0 } else { self.age + 1 };
    }

    /// How full the table is, in permille: the entries of the current search among the
    /// first thousand slots.
    pub fn hashfull(&self) -> (r: u32)
        requires
            self.wf(),
        ensures
            r == self.slots().take(if self.slots().len() < 1000 { self.slots().len() as int } else { 1000 })
                .filter(of_age(self.current_age())).len(),
    {
        let n = if self.entries.len() < 1000 { self.entries.len() } else { 1000 };
        let mut count: u32 = 0;
        let mut i: usize = 0;
        while i < n
            invariant
                n <= self.entries@.len(),
                n <= 1000,
                0 <= i <= n,
                count == self.entries@.take(i as int).filter(of_age(self.age)).len(),
                count <= i,
            decreases n - i,
        {
            proof {
                let s = self.entries@.take(i as int + 1);
                assert(s.drop_last() =~= self.entries@.take(i as int));
                reveal(Seq::filter);
            }
            if self.entries[i].age == self.age {
                count = count + 1;
            }
            i = i + 1;
        }
        (count * 1000) / 1000
    }
}

/// Probing right after a store finds an entry for the stored hash: the stored result,
/// unless the slot already held a deeper result for that hash from the same search.
pub proof fn lemma_store_then_probe(slots: Seq<TTEntry>, hash: u64, mv: Move, score: i32, depth: u8, bound: Bound, age: u8)
    requires
        slots.len() > 0,
    ensures
        ({
            let i = slot_of(hash, slots.len() as int);
            let old_e = slots[i];
            let after = slots.update(i, stored(old_e, hash, mv, score, depth, bound, age));
            &&& after[slot_of(hash, after.len() as int)].hash == hash
            &&& (old_e.hash != hash || depth >= old_e.depth || age != old_e.age)
                ==> after[slot_of(hash, after.len() as int)] == TTEntry { hash, mv, score, depth, bound, age }
        }),
{
    let i = slot_of(hash, slots.len() as int);
    assert(0 <= i < slots.len());
}

} // verus!

//! The growable array list itself: one owned block, a length and a capacity,
//! with index-based operations translated into word offsets inside the block.
//!
//! Block layout: byte 0 holds a fixed marker identifying the block as an
//! array list for out-of-band tooling; the word for index `i` starts at byte
//! offset `1 + 8 * i`; the word at offset `1 + 8 * cap` is a sentinel placed
//! just past the logical capacity so that stray writes can be detected when a
//! raw block is inspected.  It is never treated as a live element.

use ic_stable_memory::primitive::s_slice::SSlice;
use vstd::prelude::*;

use crate::mem::{
    block_size, block_words, mem_allocate, mem_block_size, mem_read_word, mem_reallocate,
    mem_write_byte, mem_write_word, AllocError, BlockMemory,
};

verus! {

/// Marker byte stored at offset 0 of every array-list block.
pub const LIST_MARKER: u8 = 0xA7;

/// Sentinel word stored just past the logical capacity.
pub const SENTINEL_WORD: u64 = 0xFFFF_FFFF_FFFF_FFFF;

/// Byte offset of the word for index `i`: one marker byte, then 8-byte words.
pub open spec fn slot_key(i: int) -> u64 {
    (1 + 8 * i) as u64
}

/// The block layout for capacity `cap` (marker byte, `cap` words, sentinel
/// word) fits the machine's address arithmetic.
pub open spec fn layout_fits(cap: int) -> bool {
    1 + 8 * (cap + 1) <= usize::MAX
}

/// Capacity after one growth step: doubling, with the degenerate empty
/// capacity guarded to one slot.
pub open spec fn grown_cap(cap: u64) -> int {
    if cap == 0 {
        1
    } else {
        2 * cap
    }
}

/// A growable array of 64-bit words backed by one block of externally
/// allocated memory.
pub struct StableArrayListInner {
    /// The block currently backing storage; exclusively owned, reassigned
    /// whenever growth reallocates.  Held in an `Option` only so that growth
    /// can hand the block to the allocator by value.
    pub slice: Option<SSlice<u64>>,
    /// Number of live elements.
    pub len: u64,
    /// Number of element slots reserved in the block.
    pub cap: u64,
}

impl StableArrayListInner {
    /// The backing block.
    pub open spec fn sl(self) -> SSlice<u64> {
        self.slice->0
    }

    /// The word stored for index `i` under memory state `m`.
    pub open spec fn word_at(self, m: BlockMemory, i: int) -> u64 {
        block_words(m, self.sl())[slot_key(i)]
    }

    /// The live elements, in index order, under memory state `m`.
    pub open spec fn contents(self, m: BlockMemory) -> Seq<u64> {
        Seq::new(self.len as nat, |i: int| self.word_at(m, i))
    }

    /// Well-formedness: the length never exceeds the capacity, the layout
    /// fits the machine, the block is large enough for the layout, the marker
    /// byte stands at offset 0 (stated as the low byte of the word there),
    /// and the sentinel word sits just past the logical capacity.
    pub open spec fn wf(self, m: BlockMemory) -> bool {
        &&& self.slice is Some
        &&& self.len <= self.cap
        &&& layout_fits(self.cap as int)
        &&& block_size(self.sl()) >= 1 + 8 * (self.cap as int + 1)
        &&& block_size(self.sl()) <= usize::MAX
        &&& block_words(m, self.sl())[0] as int % 256 == LIST_MARKER as int
        &&& block_words(m, self.sl())[slot_key(self.cap as int)] == SENTINEL_WORD
    }

    /// Creates a list with `len = 0` and the requested capacity, backed by a
    /// fresh block carrying the marker byte and the sentinel word.
    ///
    /// The block memory layer in use traps when memory is exhausted instead
    /// of reporting it, so construction always succeeds; the `Result` keeps
    /// the allocator's failure expressible for callers.
    pub fn new(initial_cap: u64, m: &mut BlockMemory) -> (res: Result<Self, AllocError>)
        requires
            layout_fits(initial_cap as int),
        ensures
            match res {
                Ok(list) => {
                    &&& list.wf(*final(m))
                    &&& list.len == 0
                    &&& list.cap == initial_cap
                    &&& list.contents(*final(m)) == Seq::<u64>::empty()
                },
                Err(_) => false,
            },
    {
        let size: u64 = 1 + 8 * (initial_cap + 1);
        let slice = mem_allocate(m, size);
        mem_write_byte(m, &slice, 0, LIST_MARKER);
        let sentinel_off: u64 = 1 + 8 * initial_cap;
        mem_write_word(m, &slice, sentinel_off, SENTINEL_WORD);
        let list = StableArrayListInner { slice: Some(slice), len: 0, cap: initial_cap };
        proof {
            assert(list.contents(*m) =~= Seq::<u64>::empty());
        }
        Ok(list)
    }

    /// Sets up a fresh block memory and creates a list in it; the one-call
    /// entry point for a process that owns no memory token yet.
    ///
    /// Fails exactly when the process's block memory is already claimed by an
    /// earlier call: the memory layer is a process singleton, so there is at
    /// most one `BlockMemory` to hand out.  That state lives outside the
    /// contracts, so the error case promises nothing more.
    pub fn new_with_memory(initial_cap: u64) -> (res: Result<(Self, BlockMemory), AllocError>)
        requires
            layout_fits(initial_cap as int),
        ensures
            match res {
                Ok(pair) => {
                    &&& pair.0.wf(pair.1)
                    &&& pair.0.len == 0
                    &&& pair.0.cap == initial_cap
                    &&& pair.0.contents(pair.1) == Seq::<u64>::empty()
                },
                Err(_) => true,
            },
    {
        match BlockMemory::init() {
            Some(mut m) => match Self::new(initial_cap, &mut m) {
                Ok(list) => Ok((list, m)),
                Err(e) => Err(e),
            },
            None => Err(AllocError),
        }
    }

    /// Number of live elements.
    pub fn len(&self) -> (r: u64)
        ensures
            r == self.len,
    {
        self.len
    }

    /// Number of reserved element slots.
    pub fn cap(&self) -> (r: u64)
        ensures
            r == self.cap,
    {
        self.cap
    }

    /// Reads the element at `index`.  The bound is strict: reading at
    /// `index == len` is a contract violation and is rejected statically.
    pub fn get(&self, index: u64, m: &BlockMemory) -> (r: u64)
        requires
            self.wf(*m),
            index < self.len,
        ensures
            r == self.contents(*m)[index as int],
    {
        let off: u64 = 1 + 8 * index;
        mem_read_word(m, self.slice.as_ref().unwrap(), off)
    }

    /// Overwrites the element at `index` with `value`; no other word of the
    /// block changes.  The bound is strict, as for `get`.
    pub fn replace(&self, value: u64, index: u64, m: &mut BlockMemory)
        requires
            self.wf(*old(m)),
            index < self.len,
        ensures
            self.wf(*final(m)),
            self.contents(*final(m)) == self.contents(*old(m)).update(index as int, value),
    {
        let off: u64 = 1 + 8 * index;
        mem_write_word(m, self.slice.as_ref().unwrap(), off, value);
        proof {
            assert forall|j: int| 0 <= j < self.len as int && j != index as int implies self.word_at(
                *m,
                j,
            ) == self.word_at(*old(m), j) by {
                lemma_slot_keys_disjoint(j, index as int, self.cap as int);
            }
            lemma_slot_keys_disjoint(self.cap as int, index as int, self.cap as int);
            assert(self.contents(*m) =~= self.contents(*old(m)).update(index as int, value));
        }
    }

    /// Requests a block for the doubled capacity, adopts the handle the
    /// allocator returns, and rewrites the sentinel at the new capacity.
    /// Growth never alters the length or any live element.
    fn grow(&mut self, m: &mut BlockMemory)
        requires
            old(self).wf(*old(m)),
            layout_fits(grown_cap(old(self).cap)),
        ensures
            final(self).wf(*final(m)),
            final(self).len == old(self).len,
            final(self).cap as int == grown_cap(old(self).cap),
            final(self).contents(*final(m)) == old(self).contents(*old(m)),
    {
        let new_cap: u64 = if self.cap == 0 {
            1
        } else {
            self.cap * 2
        };
        let mut new_size: u64 = 1 + 8 * (new_cap + 1);
        let cur_size: u64 = mem_block_size(self.slice.as_ref().unwrap());
        if new_size < cur_size {
            // The allocator may have handed out a block larger than asked
            // for; never hand back less than it already holds.
            new_size = cur_size;
        }
        let old_slice = self.slice.take().unwrap();
        let ghost w0 = block_words(*old(m), old_slice);
        let new_slice = mem_reallocate(m, old_slice, new_size);
        mem_write_word(m, &new_slice, 1 + 8 * new_cap, SENTINEL_WORD);
        self.slice = Some(new_slice);
        self.cap = new_cap;
        proof {
            assert forall|j: int| 0 <= j < self.len as int implies self.word_at(*m, j)
                == w0[slot_key(j)] by {
                assert(slot_key(j) + 8 <= block_size(old(self).sl()));
                lemma_slot_keys_disjoint(j, new_cap as int, new_cap as int);
            }
            assert(self.contents(*m) =~= old(self).contents(*old(m)));
        }
    }

    /// Appends `value`, growing first when the list is full.  Growth must
    /// complete before the write offset is computed, so the write always
    /// lands inside the (possibly new) block.
    pub fn push(&mut self, value: u64, m: &mut BlockMemory)
        requires
            old(self).wf(*old(m)),
            old(self).len < old(self).cap || layout_fits(grown_cap(old(self).cap)),
        ensures
            final(self).wf(*final(m)),
            final(self).len == old(self).len + 1,
            final(self).cap as int == if old(self).len < old(self).cap {
                old(self).cap as int
            } else {
                grown_cap(old(self).cap)
            },
            final(self).contents(*final(m)) == old(self).contents(*old(m)).push(value),
    {
        if self.len == self.cap {
            self.grow(m);
        }
        let ghost mid = *m;
        let ghost snap = *self;
        let off: u64 = 1 + 8 * self.len;
        mem_write_word(m, self.slice.as_ref().unwrap(), off, value);
        self.len = self.len + 1;
        proof {
            assert forall|j: int| 0 <= j < snap.len as int implies self.word_at(*m, j)
                == snap.word_at(mid, j) by {
                lemma_slot_keys_disjoint(j, snap.len as int, self.cap as int);
            }
            lemma_slot_keys_disjoint(self.cap as int, snap.len as int, self.cap as int);
            assert(self.contents(*m) =~= old(self).contents(*old(m)).push(value));
        }
    }

    /// Inserts `value` at `index`, shifting the elements of `[index, len)` one
    /// slot to the right.  Inserting at `index == len` is equivalent to
    /// `push`.  The shift runs from the highest index down: ascending order
    /// would overwrite elements before they are moved.
    pub fn insert(&mut self, value: u64, index: u64, m: &mut BlockMemory)
        requires
            old(self).wf(*old(m)),
            index <= old(self).len,
            old(self).len < old(self).cap || layout_fits(grown_cap(old(self).cap)),
        ensures
            final(self).wf(*final(m)),
            final(self).len == old(self).len + 1,
            final(self).cap as int == if old(self).len < old(self).cap {
                old(self).cap as int
            } else {
                grown_cap(old(self).cap)
            },
            final(self).contents(*final(m)) == old(self).contents(*old(m)).insert(
                index as int,
                value,
            ),
    {
        if self.len == self.cap {
            self.grow(m);
        }
        let ghost mid = *m;
        let ghost snap = *self;
        let ghost w0 = block_words(*m, self.sl());
        let mut i: u64 = self.len;
        while i > index
            invariant
                index <= i <= snap.len,
                *self == snap,
                snap.wf(mid),
                snap.len < snap.cap,
                block_words(*m, snap.sl())[0] as int % 256 == LIST_MARKER as int,
                block_words(*m, snap.sl())[slot_key(snap.cap as int)] == SENTINEL_WORD,
                forall|j: int|
                    0 <= j <= i as int ==> block_words(*m, snap.sl())[slot_key(j)] == w0[slot_key(
                        j,
                    )],
                forall|j: int|
                    i as int <= j < snap.len as int ==> block_words(*m, snap.sl())[slot_key(j + 1)]
                        == w0[slot_key(j)],
            decreases i,
        {
            i = i - 1;
            let v = mem_read_word(m, self.slice.as_ref().unwrap(), 1 + 8 * i);
            mem_write_word(m, self.slice.as_ref().unwrap(), 1 + 8 * (i + 1), v);
            proof {
                assert forall|j: int| 0 <= j <= i as int implies block_words(*m, snap.sl())[
                    slot_key(j)
                ] == w0[slot_key(j)] by {
                    lemma_slot_keys_disjoint(j, i as int + 1, snap.cap as int);
                }
                assert forall|j: int|
                    i as int <= j < snap.len as int implies block_words(*m, snap.sl())[slot_key(
                    j + 1,
                )] == w0[slot_key(j)] by {
                    if j > i as int {
                        lemma_slot_keys_disjoint(j + 1, i as int + 1, snap.cap as int);
                    }
                }
                lemma_slot_keys_disjoint(snap.cap as int, i as int + 1, snap.cap as int);
            }
        }
        let ghost before = block_words(*m, snap.sl());
        mem_write_word(m, self.slice.as_ref().unwrap(), 1 + 8 * index, value);
        self.len = self.len + 1;
        proof {
            assert forall|j: int|
                0 <= j <= snap.len as int && j != index as int implies block_words(*m, snap.sl())[
                slot_key(j)
            ] == before[slot_key(j)] by {
                lemma_slot_keys_disjoint(j, index as int, snap.cap as int);
            }
            lemma_slot_keys_disjoint(snap.cap as int, index as int, snap.cap as int);
            assert(self.contents(*m) =~= old(self).contents(*old(m)).insert(index as int, value));
        }
    }

    /// Removes and returns the element at `index`, shifting the elements of
    /// `(index, len)` one slot to the left, lowest first (the mirror of
    /// `insert`'s ordering).  The capacity never shrinks.
    pub fn remove(&mut self, index: u64, m: &mut BlockMemory) -> (r: u64)
        requires
            old(self).wf(*old(m)),
            index < old(self).len,
        ensures
            final(self).wf(*final(m)),
            final(self).len == old(self).len - 1,
            final(self).cap == old(self).cap,
            final(self).slice == old(self).slice,
            r == old(self).contents(*old(m))[index as int],
            final(self).contents(*final(m)) == old(self).contents(*old(m)).remove(index as int),
    {
        let ghost snap = *self;
        let ghost w0 = block_words(*m, self.sl());
        let r = mem_read_word(m, self.slice.as_ref().unwrap(), 1 + 8 * index);
        let mut i: u64 = index + 1;
        while i < self.len
            invariant
                index + 1 <= i <= snap.len,
                *self == snap,
                snap.wf(*old(m)),
                block_words(*m, snap.sl())[0] as int % 256 == LIST_MARKER as int,
                block_words(*m, snap.sl())[slot_key(snap.cap as int)] == SENTINEL_WORD,
                forall|j: int|
                    0 <= j < index as int ==> block_words(*m, snap.sl())[slot_key(j)] == w0[
                        slot_key(j)
                    ],
                forall|j: int|
                    index as int <= j < i as int - 1 ==> block_words(*m, snap.sl())[slot_key(j)]
                        == w0[slot_key(j + 1)],
                forall|j: int|
                    i as int - 1 <= j < snap.len as int ==> block_words(*m, snap.sl())[slot_key(j)]
                        == w0[slot_key(j)],
            decreases snap.len - i,
        {
            let v = mem_read_word(m, self.slice.as_ref().unwrap(), 1 + 8 * i);
            let ghost before = block_words(*m, snap.sl());
            mem_write_word(m, self.slice.as_ref().unwrap(), 1 + 8 * (i - 1), v);
            proof {
                assert forall|j: int|
                    0 <= j < snap.len as int && j != i as int - 1 implies block_words(
                    *m,
                    snap.sl(),
                )[slot_key(j)] == before[slot_key(j)] by {
                    lemma_slot_keys_disjoint(j, i as int - 1, snap.cap as int);
                }
                lemma_slot_keys_disjoint(snap.cap as int, i as int - 1, snap.cap as int);
            }
            i = i + 1;
        }
        self.len = self.len - 1;
        proof {
            assert(self.contents(*m) =~= old(self).contents(*old(m)).remove(index as int));
        }
        r
    }

    /// The elements of `[0, len)` in index order, materialised at call time:
    /// the restartable iteration the list offers.
    pub fn to_vec(&self, m: &BlockMemory) -> (r: Vec<u64>)
        requires
            self.wf(*m),
        ensures
            r@ == self.contents(*m),
    {
        let mut out: Vec<u64> = Vec::new();
        let mut i: u64 = 0;
        while i < self.len
            invariant
                i <= self.len,
                self.wf(*m),
                out@.len() == i as nat,
                forall|j: int| 0 <= j < i as int ==> out@[j] == self.contents(*m)[j],
            decreases self.len - i,
        {
            let v = self.get(i, m);
            out.push(v);
            i = i + 1;
        }
        proof {
            assert(out@ =~= self.contents(*m));
        }
        out
    }

    /// Starts a lazy iteration over `[0, len)`; restart by starting a new one.
    pub fn iter(&self) -> (it: ArrayListIter)
        ensures
            it.next_index == 0,
    {
        ArrayListIter { next_index: 0 }
    }

    /// Yields the element at the cursor and advances it, or `None` once the
    /// cursor has passed the last live element.
    pub fn iter_next(&self, it: &mut ArrayListIter, m: &BlockMemory) -> (r: Option<u64>)
        requires
            self.wf(*m),
        ensures
            old(it).next_index < self.len ==> {
                &&& final(it).next_index == old(it).next_index + 1
                &&& r == Some(self.contents(*m)[old(it).next_index as int])
            },
            old(it).next_index >= self.len ==> *final(it) == *old(it) && r is None,
    {
        if it.next_index < self.len {
            let v = self.get(it.next_index, m);
            it.next_index = it.next_index + 1;
            Some(v)
        } else {
            None
        }
    }
}

/// Cursor of one iteration over an array list: the index the next call yields.
pub struct ArrayListIter {
    pub next_index: u64,
}

/// Distinct in-range slot indexes address disjoint 8-byte ranges: the whole
/// reason shifting in the right order cannot corrupt neighbours.
proof fn lemma_slot_keys_disjoint(j: int, i: int, cap: int)
    requires
        0 <= j <= cap,
        0 <= i <= cap,
        j != i,
        layout_fits(cap),
    ensures
        slot_key(j) + 8 <= slot_key(i) || slot_key(j) >= slot_key(i) + 8,
{
}

} // verus!

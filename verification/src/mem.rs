//! The block-memory layer that backs the array list.
//!
//! Storage is not process heap memory: it is a byte range obtained from the
//! block allocator of `ic_stable_memory`, which manages a durable address
//! space (stable memory on-chain, an in-process emulation elsewhere).  The
//! layer is consumed, not reimplemented: a handful of trusted wrappers give
//! contracts to the allocator calls and to word-level reads and writes, and
//! everything above them is verified against those contracts.
//!
//! The ghost model: `block_words(m, s)` is the map from a byte offset inside
//! block `s` to the 8-byte little-endian word stored there, and
//! `block_size(s)` is the byte size of the block's data region.  A write at
//! offset `off` pins the word at `off` and preserves every word that does not
//! overlap the written bytes; of a word that starts before the written range
//! only its low byte (the word's value modulo 256, which in little-endian
//! order is exactly the byte at the word's own offset) is preserved, and
//! nothing else is claimed about partially overlapping offsets, which the
//! array list never reads as whole words.

use std::marker::PhantomData;
use std::rc::Rc;

use ic_stable_memory::primitive::s_slice::SSlice;
use vstd::prelude::*;

verus! {

/// Error for a request the block memory layer cannot satisfy.
///
/// With the allocator used here exhaustion traps instead of reporting, so the
/// one case a caller can observe is asking for a fresh memory when the
/// process's memory is already claimed (see `BlockMemory::init`).
#[derive(Clone, Copy, Debug, PartialEq, Eq, Structural)]
pub struct AllocError;

/// Declares `ic_stable_memory`'s block handle, `SSlice`, so that it can stand
/// in fields and signatures; it stays opaque, spoken of only through
/// `block_words` and `block_size`.
#[verifier::external_type_specification]
#[verifier::external_body]
#[verifier::reject_recursive_types(T)]
pub struct ExSSlice<T>(SSlice<T>);

/// Exclusive token for the stable-memory state.
///
/// Every mutation of stable memory goes through a wrapper that takes this
/// token `&mut`, so the token value stands for the whole memory state in
/// contracts.  It is deliberately neither `Clone` nor `Send`: the backing
/// allocator is a process singleton and its off-chain emulation is
/// thread-local, so a second token, or one that changed threads, would speak
/// of memory it does not own.  `init` hands out at most one token per
/// process, by refusing once the backing memory has been touched.
#[verifier::external_body]
pub struct BlockMemory {
    _single_thread: PhantomData<Rc<u8>>,
}

/// The 8-byte little-endian word that starts at byte offset `off` of the data
/// region of block `s`, under memory state `m`.
pub uninterp spec fn block_words(m: BlockMemory, s: SSlice<u64>) -> Map<u64, u64>;

/// The byte size of the data region of block `s`.
pub uninterp spec fn block_size(s: SSlice<u64>) -> u64;

impl BlockMemory {
    /// Relies on `ic_stable_memory::stable::size_pages` and
    /// `stable_memory_init`: the allocator is a process singleton whose
    /// re-initialization aborts, and untouched backing memory has zero pages
    /// while `stable_memory_init` grows it to at least one.  So when any page
    /// exists the memory is treated as already claimed and `None` comes back
    /// with nothing touched; otherwise the call grows the memory by one page,
    /// sets the allocator up, and hands out the one token of this process.
    #[verifier::external_body]
    pub(crate) fn init() -> (m: Option<BlockMemory>) {
        if ic_stable_memory::stable::size_pages() > 0 {
            return None;
        }
        ic_stable_memory::stable_memory_init(true, 0);
        Some(BlockMemory { _single_thread: PhantomData })
    }
}

/// Relies on `ic_stable_memory::allocate`: returns a fresh zero-filled block
/// whose data region holds at least `size` bytes.  When memory is exhausted
/// the allocator traps rather than reporting failure.
#[verifier::external_body]
pub(crate) fn mem_allocate(m: &mut BlockMemory, size: u64) -> (s: SSlice<u64>)
    requires
        size <= usize::MAX,
    ensures
        block_size(s) >= size,
        block_size(s) <= usize::MAX,
{
    ic_stable_memory::allocate::<u64>(size as usize)
}

/// Relies on `ic_stable_memory::reallocate`: moves the block's data into a
/// block of at least `new_size` bytes, preserving the old data region byte for
/// byte, and invalidates the old block.  The old handle is consumed, so no
/// caller can read through it afterwards.  Shrinking would trap on the copy,
/// hence the lower bound on `new_size`; exhaustion traps as in `mem_allocate`.
#[verifier::external_body]
pub(crate) fn mem_reallocate(m: &mut BlockMemory, s: SSlice<u64>, new_size: u64) -> (r: SSlice<u64>)
    requires
        block_size(s) <= new_size,
        new_size <= usize::MAX,
    ensures
        block_size(r) >= new_size,
        block_size(r) <= usize::MAX,
        forall|k: u64|
            k + 8 <= block_size(s) ==> block_words(*final(m), r)[k] == block_words(*old(m), s)[k],
{
    ic_stable_memory::reallocate(s, new_size as usize)
}

/// Relies on `SSlice::get_size_bytes`: returns the byte size of the block's
/// data region.
#[verifier::external_body]
pub(crate) fn mem_block_size(s: &SSlice<u64>) -> (r: u64)
    ensures
        r == block_size(*s),
{
    s.get_size_bytes() as u64
}

/// Relies on `SSlice::_read_word`: reads the 8-byte little-endian word at byte
/// offset `off` of the block's data region.  The bound keeps the access inside
/// the block, where the read is defined and does not trap.
#[verifier::external_body]
pub(crate) fn mem_read_word(m: &BlockMemory, s: &SSlice<u64>, off: u64) -> (r: u64)
    requires
        off + 8 <= block_size(*s),
    ensures
        r == block_words(*m, *s)[off],
{
    s._read_word(off as usize)
}

/// Relies on `SSlice::_write_word`: writes `v` as 8 little-endian bytes at
/// byte offset `off` of the block's data region.  Words wholly before or
/// after the written range keep their value; a word starting before `off`
/// keeps at least its low byte, the byte at its own offset, untouched by a
/// write that begins at `off`.
#[verifier::external_body]
pub(crate) fn mem_write_word(m: &mut BlockMemory, s: &SSlice<u64>, off: u64, v: u64)
    requires
        off + 8 <= block_size(*s),
    ensures
        block_words(*final(m), *s)[off] == v,
        forall|k: u64|
            k + 8 <= off || k >= off + 8 ==> block_words(*final(m), *s)[k] == block_words(
                *old(m),
                *s,
            )[k],
        forall|k: u64|
            k < off ==> block_words(*final(m), *s)[k] as int % 256 == block_words(*old(m), *s)[k]
                as int % 256,
{
    s._write_word(off as usize, v)
}

/// Relies on `SSlice::_write_bytes`: writes the single byte `b` at byte offset
/// `off` of the block's data region.  The word starting at `off` then has `b`
/// as its low byte; words wholly before or after that byte keep their value.
#[verifier::external_body]
pub(crate) fn mem_write_byte(m: &mut BlockMemory, s: &SSlice<u64>, off: u64, b: u8)
    requires
        off + 1 <= block_size(*s),
    ensures
        block_words(*final(m), *s)[off] as int % 256 == b as int,
        forall|k: u64|
            k + 8 <= off || k >= off + 1 ==> block_words(*final(m), *s)[k] == block_words(
                *old(m),
                *s,
            )[k],
{
    s._write_bytes(off as usize, &[b])
}

} // verus!

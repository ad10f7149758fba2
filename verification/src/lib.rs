//! A growable, index-addressable sequence of 64-bit words whose backing
//! storage is a block of externally allocated (stable) memory rather than the
//! process heap.
//!
//! The list owns one block, tracks its length and capacity, and turns every
//! index-based operation into offset-based word accesses against the block
//! memory layer; when the length reaches the capacity it re-requests a larger
//! block and adopts the handle the allocator returns.

pub mod array_list;
pub mod laws;
pub mod mem;

pub use crate::array_list::StableArrayListInner;
pub use crate::mem::AllocError;
pub use crate::mem::BlockMemory;

//! Memory management for the early life of a small kernel: a two-ended bump
//! allocator for the time before the general allocators exist, and the
//! decisions of the `mmap` system call, with the data types both rest on.

pub mod addr;
pub mod bump;
pub mod errno;

pub mod mman;
pub mod mmap;
pub mod hashmap;
pub mod syscall;

pub use bump::{AllocError, EarlyAllocator};
pub use errno::{syscall_return, Errno, SysError};
pub use hashmap::{FibonacciHash, HashMap};
pub use mman::{MappingFlags, MmapFlags, MmapProt};
pub use mmap::{MmapAction, MmapCall, MmapEvent, MmapRequest};
pub use syscall::{dispatch, Syscall};

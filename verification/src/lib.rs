//! A small C library: string and memory routines, the bookkeeping of a
//! header-based allocator, buffered output and `printf` formatting.
//!
//! Raw pointers are modelled by slices: a C string is a `[i8]` (`c_char` on
//! x86-64) that holds its terminating NUL, a memory region is a `[u8]`.
//! What needs the kernel (system calls, raw memory) is driven from outside
//! through the state machines of [`heap`] and [`io`].

pub mod cstring;
pub mod memory;
pub mod heap;
pub mod io;
pub mod printf;
pub mod start;

use vstd::prelude::*;

verus! {

/// Size of a virtual memory page in bytes.
pub const PAGE_SIZE: usize = 4096;

/// Number of distinct syscall identifiers whose invocations are counted.
pub const MAX_SYSCALL_NUM: usize = 500;

/// Scaling factor of stride scheduling: a task advances by `BIG_STRIDE / priority`.
pub const BIG_STRIDE: i64 = 1_000_000;

/// The smallest priority a task may hold.
pub const MIN_PRIORITY: i64 = 2;

} // verus!

//! Kernel-wide constants.
use vstd::prelude::*;

verus! {

/// Length of one scheduling time slice, in milliseconds.
pub const INTERVAL_MS: usize = 10;

/// Frequency of the machine timer (`time` CSR) on the QEMU virt board, in ticks per second.
pub const CLOCK_FREQ: usize = 12500000;

/// System call number of `write`.
pub const SYSCALL_WRITE: usize = 64;

/// System call number of `exit`.
pub const SYSCALL_EXIT: usize = 93;

/// System call number of `yield`.
pub const SYSCALL_YIELD: usize = 124;

/// System call number of the register-dump test call.
pub const SYSCALL_TEST: usize = 123;

/// System call number of `get_time`.
pub const SYSCALL_GET_TIME: usize = 125;

} // verus!

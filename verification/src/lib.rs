//! Verified core of a small round-robin batch kernel: the task table and its
//! scheduler, the application loader's address arithmetic, the timer
//! arithmetic and the system calls that drive them.

pub mod config;
pub mod syscall;
pub mod task;
pub mod timer;
pub mod user;

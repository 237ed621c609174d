//! System calls that act on the task manager and the clock.
pub mod process;
pub mod timer;

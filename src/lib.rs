//! The CPU scheduler of a small kernel, a stride scheduler over a ready queue,
//! and the process syscalls that decide on its tasks and on user arguments.

pub mod config;
pub mod task;
pub mod manager;
pub mod syscall;
pub mod fairness;

//! An earliest-deadline-first scheduler for a single-core microcontroller,
//! with its process table, its initial stack frames and its scheduling
//! decision stated and proved.
pub mod scheduler;
pub mod tasks;
pub mod timer;

//! Scheduling data structures.
pub mod event_source;
pub mod process_info;
pub mod ready_queue;
pub mod scheduler;
pub mod trap_wait_queue;

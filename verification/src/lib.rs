//! Portable task scheduling: ready queues ordered by a priority bitmap,
//! trap wait queues, event sources, a process table and stack pools.
mod collections;
pub mod current;
pub mod interface;
pub mod main_loop;
pub mod schedule;
pub mod stack;

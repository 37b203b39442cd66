//! Core of a small operating-system process simulator: a process table
//! scheduled round-robin on one CPU core, a grid of memory cells handed out
//! first-fit, and a pseudo-random PID generator.

pub mod app;
pub mod input;
pub mod kind;
pub mod memory;
pub mod memory_map;
pub mod pids;
pub mod process;
pub mod rng;
pub mod schedule;

//! Process management for a library operating system inside an isolated
//! execution domain: building a process image from a parsed executable, the
//! process table, pid allocation, the admission queue, the per-thread current
//! process, and the exit / wait protocol.

use vstd::prelude::*;

pub mod error;
pub mod image;
pub mod pid;
pub mod process;
pub mod queue;
pub mod table;

verus! {

/// Lifecycle state of a process.
#[derive(Clone, Copy, Debug, PartialEq, Eq, Structural)]
pub enum Status {
    RUNNING,
    INTERRUPTIBLE,
    ZOMBIE,
    STOPPED,
}

impl Default for Status {
    fn default() -> (r: Status)
        ensures
            r == Status::RUNNING,
    {
        Status::RUNNING
    }
}

} // verus!

use vstd::prelude::*;

verus! {

/// Why an operation of the process core failed.
#[derive(Clone, Copy, Debug, PartialEq, Eq, Structural)]
pub enum ProcessError {
    /// The image lacks a code or a data segment, the two overlap, or its
    /// addresses do not fit the address space.
    MalformedImage,
    /// The entry address does not fall within the code region.
    EntryOutOfBounds,
    /// A relocation names a missing symbol or a slot outside the image.
    RelocationError,
    /// The allocator could not apply the final protection flags.
    ProtectionError,
    /// No process is registered under the requested pid.
    NotFound,
    /// The admission queue is empty.
    NothingToRun,
    /// Every 32-bit pid has been handed out.
    PidExhausted,
    /// The host refused to dedicate an execution thread to a new process.
    HostThreadUnavailable,
}

} // verus!

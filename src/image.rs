use vstd::prelude::*;
use crate::error::ProcessError;
use crate::pid::PidAllocator;
use crate::Status;

verus! {

/// Segment flag: executable.
pub const PF_X: u32 = 1;
/// Segment flag: writable.
pub const PF_W: u32 = 2;
/// Segment flag: readable.
pub const PF_R: u32 = 4;

/// Region permission: read.
pub const PERM_R: u32 = 1;
/// Region permission: write.
pub const PERM_W: u32 = 2;
/// Region permission: execute.
pub const PERM_X: u32 = 4;

/// Size of the user stack of every process: 32 MiB.
pub const STACK_SIZE: usize = 0x200_0000;
/// Granularity at which the stack is placed.
pub const PAGE_SIZE: usize = 4096;
/// Gap between the top of the stack region and the initial stack pointer.
pub const STACK_TOP_MARGIN: usize = 16;
/// Size of a patched relocation slot.
pub const SLOT_SIZE: usize = 8;

/// Name of the system-call trampoline symbol whose relocation slots are
/// pointed at the host-side dispatcher.
pub const SYSCALL_SYMBOL: &'static str = "rusgx_syscall";

/// One program header of an executable image.
#[derive(Clone, Copy, Debug, PartialEq, Eq, Structural)]
pub struct ProgramHeader {
    /// Whether the segment is loaded into memory.
    pub is_load: bool,
    /// `PF_*` flags.
    pub flags: u32,
    /// Offset of the segment from the start of the loaded image.
    pub virtual_addr: usize,
    /// Size of the segment in memory.
    pub mem_size: usize,
}

/// One dynamic relocation entry: a slot at `offset` in the image that is bound
/// to the dynamic symbol at `symbol_index`.
#[derive(Clone, Copy, Debug, PartialEq, Eq, Structural)]
pub struct Relocation {
    pub offset: usize,
    pub symbol_index: usize,
}

/// What the builder reads of a parsed executable image.
pub struct ElfImage {
    pub program_headers: Vec<ProgramHeader>,
    /// Entry point, as an offset from the start of the loaded image.
    pub entry_offset: usize,
    pub relocations: Vec<Relocation>,
    /// Names of the dynamic symbols, by index.
    pub dynamic_symbols: Vec<String>,
}

/// A contiguous address range `[mem_begin, mem_end)` with `PERM_*` permissions.
#[derive(Clone, Copy, Debug, PartialEq, Eq, Structural)]
pub struct Region {
    pub mem_begin: usize,
    pub mem_end: usize,
    pub perms: u32,
}

impl Region {
    pub open spec fn contains_spec(&self, addr: int) -> bool {
        self.mem_begin <= addr < self.mem_end
    }

    pub fn contains(&self, addr: usize) -> (r: bool)
        ensures
            r == self.contains_spec(addr as int),
    {
        self.mem_begin <= addr && addr < self.mem_end
    }
}

/// The two regions share no address.
pub open spec fn disjoint(a: Region, b: Region) -> bool {
    a.mem_end <= b.mem_begin || b.mem_end <= a.mem_begin
}

/// Where execution of a process starts; laid out as the context switch expects.
#[derive(Clone, Copy, Debug, PartialEq, Eq, Structural)]
pub struct Task {
    pub syscall_stack_addr: usize,
    pub user_stack_addr: usize,
    pub user_entry_addr: usize,
    pub fs_base_addr: usize,
    pub saved_state: usize,
}

/// A process: its identity, lifecycle state and loaded image.
#[derive(Clone, Copy, Debug, PartialEq, Eq, Structural)]
pub struct Process {
    pub task: Task,
    pub status: Status,
    pub pid: u32,
    pub exit_code: i32,
    pub code_vma: Region,
    pub data_vma: Region,
    pub stack_vma: Region,
    pub program_base_addr: usize,
    pub program_entry_addr: usize,
}

/// Whether a header describes a loaded segment with flag `flag`.
pub open spec fn loads_with(h: ProgramHeader, flag: u32) -> bool {
    h.is_load && h.flags & flag != 0
}

/// The first header that is a loaded segment with flag `flag`.
pub open spec fn first_with(hs: Seq<ProgramHeader>, flag: u32) -> Option<ProgramHeader>
    decreases hs.len(),
{
    if hs.len() == 0 {
        None
    } else if loads_with(hs[0], flag) {
        Some(hs[0])
    } else {
        first_with(hs.drop_first(), flag)
    }
}

/// Permissions of the region that holds a segment with flags `flags`.
pub open spec fn perms_of(flags: u32) -> u32 {
    (if flags & PF_R != 0 { PERM_R } else { 0u32 }) | (if flags & PF_W != 0 { PERM_W } else { 0u32 })
        | (if flags & PF_X != 0 { PERM_X } else { 0u32 })
}

/// The region a segment occupies once the image is placed at `base`, if it fits.
pub open spec fn placed(h: ProgramHeader, base: int) -> Option<Region> {
    let b = base + h.virtual_addr;
    let e = b + h.mem_size;
    if e <= usize::MAX {
        Some(Region { mem_begin: b as usize, mem_end: e as usize, perms: perms_of(h.flags) })
    } else {
        None
    }
}

/// `n` rounded up to a multiple of the page size.
pub open spec fn page_align_up(n: int) -> int {
    if n % (PAGE_SIZE as int) == 0 {
        n
    } else {
        n + (PAGE_SIZE - n % (PAGE_SIZE as int))
    }
}

/// The stack region: `STACK_SIZE` bytes, read and write, on the first page
/// boundary at or above the end of the image, if it fits.
pub open spec fn stack_above(code: Region, data: Region) -> Option<Region> {
    let top = if code.mem_end >= data.mem_end { code.mem_end as int } else { data.mem_end as int };
    let b = page_align_up(top);
    if b + STACK_SIZE <= usize::MAX {
        Some(Region { mem_begin: b as usize, mem_end: (b + STACK_SIZE) as usize, perms: PERM_R | PERM_W })
    } else {
        None
    }
}

/// The process that building `image` at `base` yields, with no pid yet, or why
/// it cannot be built.
pub open spec fn build_spec(hs: Seq<ProgramHeader>, entry_offset: usize, base: usize) -> Result<Process, ProcessError> {
    match (first_with(hs, PF_X), first_with(hs, PF_W)) {
        (Some(ch), Some(dh)) => match (placed(ch, base as int), placed(dh, base as int)) {
            (Some(code), Some(data)) => {
                if !disjoint(code, data) {
                    Err(ProcessError::MalformedImage)
                } else {
                    match stack_above(code, data) {
                        Some(stack) => {
                            let entry = base + entry_offset;
                            if entry > usize::MAX {
                                Err(ProcessError::EntryOutOfBounds)
                            } else if !code.contains_spec(entry) {
                                Err(ProcessError::EntryOutOfBounds)
                            } else {
                                Ok(Process {
                                    task: Task {
                                        syscall_stack_addr: 0,
                                        user_stack_addr: (stack.mem_end - STACK_TOP_MARGIN) as usize,
                                        user_entry_addr: entry as usize,
                                        fs_base_addr: 0,
                                        saved_state: 0,
                                    },
                                    status: Status::RUNNING,
                                    pid: 0,
                                    exit_code: 0,
                                    code_vma: code,
                                    data_vma: data,
                                    stack_vma: stack,
                                    program_base_addr: base,
                                    program_entry_addr: entry as usize,
                                })
                            }
                        },
                        None => Err(ProcessError::MalformedImage),
                    }
                }
            },
            _ => Err(ProcessError::MalformedImage),
        },
        _ => Err(ProcessError::MalformedImage),
    }
}

/// Whether the `SLOT_SIZE`-byte slot at `addr` lies within `r`.
pub open spec fn slot_within(r: Region, addr: int) -> bool {
    r.mem_begin <= addr && addr + SLOT_SIZE <= r.mem_end
}

/// The absolute addresses of the relocation slots, in table order, that are
/// bound to `SYSCALL_SYMBOL`, or `RelocationError` where an entry names a
/// symbol that does not exist or a matching slot lies outside the code and
/// data regions of `p`.
pub open spec fn syscall_slots(rs: Seq<Relocation>, names: Seq<Seq<char>>, p: Process) -> Result<
    Seq<usize>,
    ProcessError,
>
    decreases rs.len(),
{
    if rs.len() == 0 {
        Ok(Seq::empty())
    } else {
        match syscall_slots(rs.drop_last(), names, p) {
            Err(e) => Err(e),
            Ok(s) => {
                let r = rs.last();
                let addr = p.program_base_addr + r.offset;
                if r.symbol_index >= names.len() {
                    Err(ProcessError::RelocationError)
                } else if names[r.symbol_index as int] != SYSCALL_SYMBOL@ {
                    Ok(s)
                } else if slot_within(p.code_vma, addr) || slot_within(p.data_vma, addr) {
                    Ok(s.push(addr as usize))
                } else {
                    Err(ProcessError::RelocationError)
                }
            },
        }
    }
}

proof fn lemma_slots_error_sticks(rs: Seq<Relocation>, names: Seq<Seq<char>>, p: Process, k: int, m: int)
    requires
        0 <= k <= m <= rs.len(),
        syscall_slots(rs.take(k), names, p) is Err,
    ensures
        syscall_slots(rs.take(m), names, p) == syscall_slots(rs.take(k), names, p),
    decreases m - k,
{
    if m > k {
        lemma_slots_error_sticks(rs, names, p, k, m - 1);
        assert(rs.take(m).drop_last() =~= rs.take(m - 1));
    }
}

proof fn lemma_slots_error_final(rs: Seq<Relocation>, names: Seq<Seq<char>>, p: Process, k: int)
    requires
        0 <= k <= rs.len(),
        syscall_slots(rs.take(k), names, p) is Err,
    ensures
        syscall_slots(rs, names, p) == syscall_slots(rs.take(k), names, p),
{
    lemma_slots_error_sticks(rs, names, p, k, rs.len() as int);
    assert(rs.take(rs.len() as int) =~= rs);
}

fn slot_in(r: &Region, addr: usize) -> (ok: bool)
    ensures
        ok == slot_within(*r, addr as int),
{
    r.mem_begin <= addr && addr <= r.mem_end && r.mem_end - addr >= SLOT_SIZE
}

/// The names of the dynamic symbols of `image`, by index.
pub open spec fn symbol_names(image: ElfImage) -> Seq<Seq<char>> {
    image.dynamic_symbols@.map_values(|n: String| n@)
}

/// The process that the builder yields from `image` placed at `base`, where
/// `protected` tells whether the allocator applied the final protection
/// flags and `next_pid` is the allocator's next pid, or why it fails.
pub open spec fn new_spec(image: ElfImage, base: usize, protected: bool, next_pid: nat) -> Result<Process, ProcessError> {
    match build_spec(image.program_headers@, image.entry_offset, base) {
        Err(e) => Err(e),
        Ok(p) => match syscall_slots(image.relocations@, symbol_names(image), p) {
            Err(e) => Err(e),
            Ok(_) => {
                if !protected {
                    Err(ProcessError::ProtectionError)
                } else if next_pid >= u32::MAX {
                    Err(ProcessError::PidExhausted)
                } else {
                    Ok(Process { pid: next_pid as u32, ..p })
                }
            },
        },
    }
}

fn find_segment(hs: &Vec<ProgramHeader>, flag: u32) -> (r: Option<ProgramHeader>)
    ensures
        r == first_with(hs@, flag),
{
    let mut i: usize = 0;
    assert(hs@.skip(0) =~= hs@);
    while i < hs.len()
        invariant
            0 <= i <= hs@.len(),
            first_with(hs@, flag) == first_with(hs@.skip(i as int), flag),
        decreases hs@.len() - i,
    {
        let h = hs[i];
        assert(hs@.skip(i as int)[0] == h);
        if h.is_load && h.flags & flag != 0 {
            return Some(h);
        }
        assert(hs@.skip(i as int).drop_first() =~= hs@.skip(i as int + 1));
        i = i + 1;
    }
    assert(hs@.skip(i as int).len() == 0);
    None
}

fn place_segment(h: ProgramHeader, base: usize) -> (r: Option<Region>)
    ensures
        r == placed(h, base as int),
{
    let b = base.checked_add(h.virtual_addr)?;
    let e = b.checked_add(h.mem_size)?;
    let perms: u32 = (if h.flags & PF_R != 0 { PERM_R } else { 0u32 }) | (if h.flags & PF_W != 0 {
        PERM_W
    } else {
        0u32
    }) | (if h.flags & PF_X != 0 { PERM_X } else { 0u32 });
    Some(Region { mem_begin: b, mem_end: e, perms })
}

fn place_stack(code: &Region, data: &Region) -> (r: Option<Region>)
    ensures
        r == stack_above(*code, *data),
{
    let top = if code.mem_end >= data.mem_end { code.mem_end } else { data.mem_end };
    let rem = top % PAGE_SIZE;
    let b = if rem == 0 { top } else { top.checked_add(PAGE_SIZE - rem)? };
    let e = b.checked_add(STACK_SIZE)?;
    Some(Region { mem_begin: b, mem_end: e, perms: PERM_R | PERM_W })
}

impl Process {
    /// Lays out `image` at `base`, the address the allocator chose for it:
    /// code and data regions at `base` plus their segments' offsets, the stack
    /// above them, and the entry address, which must fall within the code
    /// region. No pid is assigned (it is 0): that is the builder's last step.
    pub fn layout(image: &ElfImage, base: usize) -> (r: Result<Process, ProcessError>)
        ensures
            r == build_spec(image.program_headers@, image.entry_offset, base),
            r matches Ok(p) ==> p.code_vma.contains_spec(p.program_entry_addr as int),
            r matches Ok(p) ==> disjoint(p.code_vma, p.data_vma) && disjoint(p.code_vma, p.stack_vma)
                && disjoint(p.data_vma, p.stack_vma),
    {
        let ch = match find_segment(&image.program_headers, PF_X) {
            Some(h) => h,
            None => return Err(ProcessError::MalformedImage),
        };
        let dh = match find_segment(&image.program_headers, PF_W) {
            Some(h) => h,
            None => return Err(ProcessError::MalformedImage),
        };
        let code = match place_segment(ch, base) {
            Some(c) => c,
            None => return Err(ProcessError::MalformedImage),
        };
        let data = match place_segment(dh, base) {
            Some(d) => d,
            None => return Err(ProcessError::MalformedImage),
        };
        if !(code.mem_end <= data.mem_begin || data.mem_end <= code.mem_begin) {
            return Err(ProcessError::MalformedImage);
        }
        let stack = match place_stack(&code, &data) {
            Some(s) => s,
            None => return Err(ProcessError::MalformedImage),
        };
        let entry = match base.checked_add(image.entry_offset) {
            Some(e) => e,
            None => return Err(ProcessError::EntryOutOfBounds),
        };
        if !code.contains(entry) {
            return Err(ProcessError::EntryOutOfBounds);
        }
        let task = Task {
            syscall_stack_addr: 0,
            user_stack_addr: stack.mem_end - STACK_TOP_MARGIN,
            user_entry_addr: entry,
            fs_base_addr: 0,
            saved_state: 0,
        };
        Ok(Process {
            task,
            status: Status::RUNNING,
            pid: 0,
            exit_code: 0,
            code_vma: code,
            data_vma: data,
            stack_vma: stack,
            program_base_addr: base,
            program_entry_addr: entry,
        })
    }

    /// Builds a process from `image` placed at `base`: lays it out, checks its
    /// relocation table against the placed regions, and, once the allocator
    /// has applied the final protection flags (`protected`), assigns the next
    /// pid as the last step, so a failed build never consumes a pid.
    pub fn new(image: &ElfImage, base: usize, protected: bool, pids: &mut PidAllocator) -> (r: Result<Process, ProcessError>)
        requires
            old(pids).wf(),
        ensures
            final(pids).wf(),
            r == new_spec(*image, base, protected, old(pids).next_pid()),
            r is Ok ==> final(pids).next_pid() == old(pids).next_pid() + 1,
            r is Err ==> *final(pids) == *old(pids),
            r matches Ok(p) ==> p.pid as nat == old(pids).next_pid() && p.status == Status::RUNNING,
            r matches Ok(p) ==> p.code_vma.contains_spec(p.program_entry_addr as int),
            r matches Ok(p) ==> disjoint(p.code_vma, p.data_vma) && disjoint(p.code_vma, p.stack_vma)
                && disjoint(p.data_vma, p.stack_vma),
    {
        let placed = Process::layout(image, base)?;
        let _slots = placed.link_syscalls(image)?;
        if !protected {
            return Err(ProcessError::ProtectionError);
        }
        match pids.alloc_pid() {
            Some(pid) => Ok(Process { pid, ..placed }),
            None => Err(ProcessError::PidExhausted),
        }
    }

    /// The relocation slots of `image` that must be overwritten with the address
    /// of the host-side system-call dispatcher, once this process's regions are
    /// placed.
    pub fn link_syscalls(&self, image: &ElfImage) -> (r: Result<Vec<usize>, ProcessError>)
        ensures
            r matches Ok(v) ==> syscall_slots(image.relocations@, symbol_names(*image), *self) == Ok::<Seq<usize>, ProcessError>(v@),
            r matches Err(e) ==> syscall_slots(image.relocations@, symbol_names(*image), *self) == Err::<Seq<usize>, ProcessError>(e),
    {
        let ghost names = symbol_names(*image);
        let target: String = SYSCALL_SYMBOL.to_owned();
        let mut out: Vec<usize> = Vec::new();
        let mut i: usize = 0;
        while i < image.relocations.len()
            invariant
                0 <= i <= image.relocations@.len(),
                target@ == SYSCALL_SYMBOL@,
                names == symbol_names(*image),
                syscall_slots(image.relocations@.take(i as int), names, *self) == Ok::<Seq<usize>, ProcessError>(out@),
            decreases image.relocations@.len() - i,
        {
            let rel = image.relocations[i];
            assert(image.relocations@.take(i as int + 1).drop_last() =~= image.relocations@.take(i as int));
            if rel.symbol_index >= image.dynamic_symbols.len() {
                proof { lemma_slots_error_final(image.relocations@, names, *self, i + 1) }
                return Err(ProcessError::RelocationError);
            }
            if image.dynamic_symbols[rel.symbol_index] == target {
                let addr = match self.program_base_addr.checked_add(rel.offset) {
                    Some(a) => a,
                    None => {
                        proof { lemma_slots_error_final(image.relocations@, names, *self, i + 1) }
                        return Err(ProcessError::RelocationError);
                    },
                };
                if !(slot_in(&self.code_vma, addr) || slot_in(&self.data_vma, addr)) {
                    proof { lemma_slots_error_final(image.relocations@, names, *self, i + 1) }
                    return Err(ProcessError::RelocationError);
                }
                out.push(addr);
            }
            i = i + 1;
        }
        assert(image.relocations@.take(i as int) =~= image.relocations@);
        Ok(out)
    }
}

} // verus!

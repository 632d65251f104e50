use vstd::prelude::*;
use crate::error::ProcessError;
use crate::image::{disjoint, new_spec, ElfImage, Process, Task};
use crate::pid::PidAllocator;
use crate::queue::AdmissionQueue;
use crate::table::{exited, ProcessTable};
use crate::Status;

verus! {

/// The pid of the init process, which has no parent to reap it.
pub const INIT_PID: u32 = 1;

/// The process-wide registries: the process table, the admission queue and the
/// pid allocator.
pub struct ProcessManager {
    pub table: ProcessTable,
    pub queue: AdmissionQueue,
    pub pids: PidAllocator,
}

/// The process an execution thread is running, by pid, if any.
pub struct CurrentSlot {
    pub current: Option<u32>,
}

impl ProcessManager {
    /// Every registered pid has been issued and its record is filed under it;
    /// every queued pid is registered, and queued at most once.
    pub open spec fn wf(&self) -> bool {
        &&& self.pids.wf()
        &&& forall|p: u32| #[trigger] self.table@.contains_key(p) ==> self.pids.issued().contains(p)
            && self.table@[p].pid == p
        &&& forall|i: int| 0 <= i < self.queue@.len() ==> self.table@.contains_key(#[trigger] self.queue@[i])
        &&& self.queue@.no_duplicates()
    }

    pub fn new() -> (r: ProcessManager)
        ensures
            r.wf(),
            r.table@ == Map::<u32, Process>::empty(),
            r.queue@ == Seq::<u32>::empty(),
            r.pids.next_pid() == 1,
    {
        ProcessManager { table: ProcessTable::new(), queue: AdmissionQueue::new(), pids: PidAllocator::new() }
    }
}

impl CurrentSlot {
    pub fn new() -> (r: CurrentSlot)
        ensures
            r.current.is_none(),
    {
        CurrentSlot { current: None }
    }
}

/// The outcome of one look at a child for `wait4`: `NotFound` if no process
/// is registered under `pid`, its exit code once it is a zombie, and `None`
/// while it still runs.
pub open spec fn wait4_spec(t: Map<u32, Process>, pid: u32) -> Result<Option<i32>, ProcessError> {
    if !t.contains_key(pid) {
        Err(ProcessError::NotFound)
    } else if t[pid].status == Status::ZOMBIE {
        Ok(Some(t[pid].exit_code))
    } else {
        Ok(None)
    }
}


/// `q` without `pid`, wherever it stands.
pub open spec fn withdrawn(q: Seq<u32>, pid: u32) -> Seq<u32> {
    if q.contains(pid) {
        q.remove(q.index_of(pid))
    } else {
        q
    }
}

/// What `do_spawn` does to the registries: `m1` is `m0` with the built
/// process filed under its new pid and queued, or `m0` unchanged with the
/// builder's error.
pub open spec fn spawn_post(
    m0: ProcessManager,
    m1: ProcessManager,
    image: ElfImage,
    base: usize,
    protected: bool,
    r: Result<u32, ProcessError>,
) -> bool {
    match new_spec(image, base, protected, m0.pids.next_pid()) {
        Ok(p) => {
            &&& r == Ok::<u32, ProcessError>(p.pid)
            &&& !m0.table@.contains_key(p.pid)
            &&& !m0.queue@.contains(p.pid)
            &&& m1.table@ == m0.table@.insert(p.pid, p)
            &&& m1.queue@ == m0.queue@.push(p.pid)
            &&& m1.pids.next_pid() == m0.pids.next_pid() + 1
        },
        Err(e) => {
            &&& r == Err::<u32, ProcessError>(e)
            &&& m1.table@ == m0.table@
            &&& m1.queue@ == m0.queue@
            &&& m1.pids == m0.pids
        },
    }
}

/// What `run_task` does: the oldest queued pid leaves the queue, becomes the
/// current process, and its task record is returned.
pub open spec fn run_task_post(
    m0: ProcessManager,
    m1: ProcessManager,
    s0: CurrentSlot,
    s1: CurrentSlot,
    r: Result<Task, ProcessError>,
) -> bool {
    &&& m1.table@ == m0.table@
    &&& m1.pids == m0.pids
    &&& m0.queue@.len() == 0 ==> r == Err::<Task, ProcessError>(ProcessError::NothingToRun)
        && m1.queue@ == m0.queue@ && s1 == s0
    &&& m0.queue@.len() > 0 ==> {
        let pid = m0.queue@[0];
        &&& m1.queue@ == m0.queue@.drop_first()
        &&& r == Ok::<Task, ProcessError>(m0.table@[pid].task)
        &&& s1.current == Some(pid)
    }
}

proof fn lemma_remove_distinct(s: Seq<u32>, i: int)
    requires
        0 <= i < s.len(),
        s.no_duplicates(),
    ensures
        s.remove(i).no_duplicates(),
        forall|j: int| 0 <= j < s.remove(i).len() ==> #[trigger] s.remove(i)[j] != s[i]
            && s.contains(s.remove(i)[j]),
{
    let t = s.remove(i);
    assert forall|j: int| 0 <= j < t.len() implies t[j] == (if j < i { s[j] } else { s[j + 1] }) by {}
    assert forall|j: int| 0 <= j < t.len() implies #[trigger] t[j] != s[i] && s.contains(t[j]) by {
        if j < i {
            assert(s[j] == t[j]);
        } else {
            assert(s[j + 1] == t[j]);
        }
    }
}

/// Builds a process from `image` placed at `base` (see `Process::new`) and
/// admits it: files it in the table under its new pid and appends it to the
/// admission queue. Nothing is registered when the build fails.
pub fn do_spawn(m: &mut ProcessManager, image: &ElfImage, base: usize, protected: bool) -> (r: Result<u32, ProcessError>)
    requires
        old(m).wf(),
    ensures
        final(m).wf(),
        spawn_post(*old(m), *final(m), *image, base, protected, r),
        r matches Ok(pid) ==> {
            let p = final(m).table@[pid];
            &&& final(m).table@.contains_key(pid)
            &&& p.code_vma.contains_spec(p.program_entry_addr as int)
            &&& disjoint(p.code_vma, p.data_vma) && disjoint(p.code_vma, p.stack_vma)
                && disjoint(p.data_vma, p.stack_vma)
        },
{
    let process = Process::new(image, base, protected, &mut m.pids)?;
    let pid = process.pid;
    assert(!old(m).queue@.contains(pid));
    m.queue.enqueue_new_process(pid);
    m.table.put_into_pid_table(pid, process);
    assert forall|i: int| 0 <= i < m.queue@.len() implies m.table@.contains_key(#[trigger] m.queue@[i]) by {
        if i < old(m).queue@.len() {
            assert(old(m).table@.contains_key(old(m).queue@[i]));
        }
    }
    assert forall|i: int, j: int| 0 <= i < m.queue@.len() && 0 <= j < m.queue@.len() && i != j implies m.queue@[i] != m.queue@[j] by {
        if i < old(m).queue@.len() && j < old(m).queue@.len() {
            assert(old(m).queue@[i] != old(m).queue@[j]);
        } else if i < old(m).queue@.len() {
            assert(old(m).queue@.contains(old(m).queue@[i]));
        } else {
            assert(old(m).queue@.contains(old(m).queue@[j]));
        }
    }
    assert forall|q: u32| #[trigger] m.table@.contains_key(q) implies m.pids.issued().contains(q) && m.table@[q].pid == q by {
        if q != pid {
            assert(old(m).table@.contains_key(q));
            assert(old(m).pids.issued().contains(q));
        }
        assert((q as nat) < m.pids.next_pid());
    }
    Ok(pid)
}

/// Takes back the admission of `pid` when no execution thread could be had
/// for it: removes it from the table and from the admission queue, wherever
/// it stands there.
pub fn abort_spawn(m: &mut ProcessManager, pid: u32)
    requires
        old(m).wf(),
    ensures
        final(m).wf(),
        final(m).table@ == old(m).table@.remove(pid),
        final(m).queue@ == withdrawn(old(m).queue@, pid),
        final(m).pids == old(m).pids,
{
    unregister(m, pid);
}

fn unregister(m: &mut ProcessManager, pid: u32)
    requires
        old(m).wf(),
    ensures
        final(m).wf(),
        final(m).table@ == old(m).table@.remove(pid),
        final(m).queue@ == withdrawn(old(m).queue@, pid),
        final(m).pids == old(m).pids,
{
    m.table.del_from_pid_table(pid);
    let at = m.queue.withdraw(pid);
    m.pids.free_pid(pid);
    proof {
        let q = old(m).queue@;
        match at {
            Some(i) => {
                lemma_remove_distinct(q, i as int);
                assert(q.contains(pid));
                let k = q.index_of(pid);
                assert(q[k] == pid);
                assert(k == i as int);
                assert forall|j: int| 0 <= j < m.queue@.len() implies m.table@.contains_key(#[trigger] m.queue@[j]) by {
                    assert(q.remove(i as int)[j] != q[i as int]);
                    assert(q.contains(m.queue@[j]));
                    let l = choose|l: int| 0 <= l < q.len() && q[l] == m.queue@[j];
                    assert(old(m).table@.contains_key(q[l]));
                }
            },
            None => {
                assert forall|j: int| 0 <= j < m.queue@.len() implies m.table@.contains_key(#[trigger] m.queue@[j]) by {
                    assert(old(m).table@.contains_key(q[j]));
                    assert(q[j] != pid);
                }
            },
        }
    }
}

/// Publishes `pid` as the process this thread runs.
pub fn set_current(slot: &mut CurrentSlot, pid: u32)
    ensures
        final(slot).current == Some(pid),
{
    slot.current = Some(pid);
}

/// Clears this thread's current process.
pub fn reset_current(slot: &mut CurrentSlot)
    ensures
        final(slot).current.is_none(),
{
    slot.current = None;
}

/// The process this thread runs, if any.
pub fn get_current(slot: &CurrentSlot) -> (r: Option<u32>)
    ensures
        r == slot.current,
{
    slot.current
}

/// The pid of the process this thread runs.
pub fn do_getpid(slot: &CurrentSlot) -> (r: u32)
    requires
        slot.current.is_some(),
    ensures
        Some(r) == slot.current,
{
    match slot.current {
        Some(pid) => pid,
        None => 0,
    }
}

/// Records that the process this thread runs exited with `exit_code`: it
/// becomes a zombie and stays in the table until it is reaped.
pub fn do_exit(m: &mut ProcessManager, slot: &CurrentSlot, exit_code: i32)
    requires
        old(m).wf(),
        slot.current.is_some(),
    ensures
        final(m).wf(),
        final(m).table@ == exited(old(m).table@, slot.current.unwrap(), exit_code),
        final(m).queue@ == old(m).queue@,
        final(m).pids == old(m).pids,
{
    let pid = do_getpid(slot);
    m.table.record_exit(pid, exit_code);
}

/// One look at the child `child_pid` for `wait4`: `Err(NotFound)` if it is
/// not registered, `Ok(Some(code))` once it has exited with `code`, and
/// `Ok(None)` while it still runs, in which case the caller looks again.
/// The table is left as it is.
pub fn do_wait4(m: &ProcessManager, child_pid: u32) -> (r: Result<Option<i32>, ProcessError>)
    ensures
        r == wait4_spec(m.table@, child_pid),
{
    match m.table.look_up_pid_table(child_pid) {
        None => Err(ProcessError::NotFound),
        Some(child) => {
            if child.status == Status::ZOMBIE {
                Ok(Some(child.exit_code))
            } else {
                Ok(None)
            }
        },
    }
}

/// Picks the oldest admitted process, publishes it as this thread's current
/// process and returns its task record, for the context switch. Fails with
/// `NothingToRun` when the queue is empty.
pub fn run_task(m: &mut ProcessManager, slot: &mut CurrentSlot) -> (r: Result<Task, ProcessError>)
    requires
        old(m).wf(),
    ensures
        final(m).wf(),
        run_task_post(*old(m), *final(m), *old(slot), *final(slot), r),
{
    let pid = match m.queue.dequeue_new_process() {
        Some(p) => p,
        None => return Err(ProcessError::NothingToRun),
    };
    assert(forall|i: int| 0 <= i < m.queue@.len() ==> m.queue@[i] == old(m).queue@[i + 1]);
    assert(old(m).table@.contains_key(old(m).queue@[0]));
    match m.table.look_up_pid_table(pid) {
        Some(process) => {
            set_current(slot, pid);
            Ok(process.task)
        },
        None => Err(ProcessError::NotFound),
    }
}

/// Ends the run of this thread's current process once the context switch has
/// come back: the init process, which has no parent to reap it, is
/// unregistered; any other stays in the table for its reaper. The slot is
/// always cleared.
pub fn finish_task(m: &mut ProcessManager, slot: &mut CurrentSlot)
    requires
        old(m).wf(),
    ensures
        final(m).wf(),
        old(slot).current == Some(INIT_PID) ==> final(m).table@ == old(m).table@.remove(INIT_PID)
            && final(m).queue@ == withdrawn(old(m).queue@, INIT_PID),
        old(slot).current != Some(INIT_PID) ==> final(m).table@ == old(m).table@ && final(m).queue@ == old(m).queue@,
        final(m).pids == old(m).pids,
        final(slot).current.is_none(),
{
    if slot.current == Some(INIT_PID) {
        unregister(m, INIT_PID);
    }
    reset_current(slot);
}

/// A process spawned on an idle system and then picked up by an execution
/// thread sees, through `getpid`, exactly the pid that spawning returned,
/// which is the allocator's next pid, and its record carries that pid.
pub proof fn lemma_getpid_is_spawned_pid(
    m0: ProcessManager,
    m1: ProcessManager,
    m2: ProcessManager,
    image: ElfImage,
    base: usize,
    protected: bool,
    pid: u32,
    s0: CurrentSlot,
    s1: CurrentSlot,
    task: Task,
)
    requires
        m0.wf(),
        m0.queue@.len() == 0,
        spawn_post(m0, m1, image, base, protected, Ok(pid)),
        run_task_post(m1, m2, s0, s1, Ok(task)),
    ensures
        s1.current == Some(pid),
        pid as nat == m0.pids.next_pid(),
        m2.table@[pid].pid == pid,
{
    let built = new_spec(image, base, protected, m0.pids.next_pid());
    assert(built is Ok);
    assert(m1.queue@[0] == pid);
}

/// Once a process has exited with `code`, `wait4` on its pid returns exactly
/// `code` at the first look.
pub proof fn lemma_wait4_after_exit(m0: ProcessManager, m1: ProcessManager, pid: u32, code: i32)
    requires
        m0.table@.contains_key(pid),
        m1.table@ == exited(m0.table@, pid, code),
    ensures
        wait4_spec(m1.table@, pid) == Ok::<Option<i32>, ProcessError>(Some(code)),
{
}

/// `wait4` on a pid that was never admitted fails with `NotFound` at once.
pub proof fn lemma_wait4_unadmitted(m: ProcessManager, pid: u32)
    requires
        m.wf(),
        !m.pids.issued().contains(pid),
    ensures
        wait4_spec(m.table@, pid) == Err::<Option<i32>, ProcessError>(ProcessError::NotFound),
{
}

} // verus!

use vstd::prelude::*;

verus! {

/// Hands out process ids: a monotonically increasing counter that starts at 1.
///
/// Released ids are never reused.
pub struct PidAllocator {
    next: u32,
}

impl PidAllocator {
    /// The id that the next allocation returns.
    pub closed spec fn next_pid(&self) -> nat {
        self.next as nat
    }

    pub open spec fn wf(&self) -> bool {
        self.next_pid() >= 1
    }

    /// The ids handed out so far: every id in `[1, next_pid)`.
    pub open spec fn issued(&self) -> Set<u32> {
        Set::new(|p: u32| 1 <= p && (p as nat) < self.next_pid())
    }

    pub fn new() -> (r: PidAllocator)
        ensures
            r.wf(),
            r.next_pid() == 1,
            r.issued() == Set::<u32>::empty(),
    {
        let r = PidAllocator { next: 1 };
        assert(r.issued() =~= Set::<u32>::empty());
        r
    }

    /// Returns the next id, or `None` once every 32-bit id has been issued.
    pub fn alloc_pid(&mut self) -> (r: Option<u32>)
        requires
            old(self).wf(),
        ensures
            final(self).wf(),
            old(self).next_pid() < u32::MAX ==> {
                &&& r == Some(old(self).next_pid() as u32)
                &&& final(self).next_pid() == old(self).next_pid() + 1
                &&& !old(self).issued().contains(r.unwrap())
                &&& final(self).issued() == old(self).issued().insert(r.unwrap())
            },
            old(self).next_pid() >= u32::MAX ==> r.is_none() && *final(self) == *old(self),
            r matches Some(p) ==> p >= 1,
    {
        if self.next < u32::MAX {
            let pid = self.next;
            self.next = self.next + 1;
            assert(self.issued() =~= old(self).issued().insert(pid));
            Some(pid)
        } else {
            None
        }
    }

    /// Gives an id back. Ids are not reused, so this changes nothing.
    pub fn free_pid(&mut self, pid: u32)
        ensures
            *final(self) == *old(self),
    {
    }
}

/// One allocation step: `after` is `before` once it has handed out `pid`.
pub open spec fn alloc_step(before: PidAllocator, after: PidAllocator, pid: u32) -> bool {
    &&& before.next_pid() < u32::MAX
    &&& pid as nat == before.next_pid()
    &&& after.next_pid() == before.next_pid() + 1
}

/// Any run of allocations returns ids that are pairwise distinct and all at least 1.
pub proof fn lemma_allocated_pids_distinct(states: Seq<PidAllocator>, pids: Seq<u32>)
    requires
        states.len() == pids.len() + 1,
        states[0].wf(),
        forall|i: int| 0 <= i < pids.len() ==> alloc_step(#[trigger] states[i], states[i + 1], pids[i]),
    ensures
        forall|i: int| 0 <= i < pids.len() ==> #[trigger] pids[i] >= 1,
        forall|i: int, j: int| 0 <= i < pids.len() && 0 <= j < pids.len() && i != j ==> #[trigger] pids[i] != #[trigger] pids[j],
{
    lemma_pids_count_up(states, pids, pids.len() as int);
    assert forall|i: int| 0 <= i < pids.len() implies #[trigger] pids[i] >= 1 by {
        lemma_pids_count_up(states, pids, i + 1);
    }
    assert forall|i: int, j: int| 0 <= i < pids.len() && 0 <= j < pids.len() && i != j implies #[trigger] pids[i] != #[trigger] pids[j] by {
        lemma_pids_count_up(states, pids, i + 1);
        lemma_pids_count_up(states, pids, j + 1);
    }
}

proof fn lemma_pids_count_up(states: Seq<PidAllocator>, pids: Seq<u32>, n: int)
    requires
        states.len() == pids.len() + 1,
        states[0].wf(),
        forall|i: int| 0 <= i < pids.len() ==> alloc_step(#[trigger] states[i], states[i + 1], pids[i]),
        0 <= n <= pids.len(),
    ensures
        states[n].next_pid() == states[0].next_pid() + n,
        forall|i: int| 0 <= i < n ==> #[trigger] pids[i] as nat == states[0].next_pid() + i,
    decreases n,
{
    if n > 0 {
        lemma_pids_count_up(states, pids, n - 1);
        assert(alloc_step(states[n - 1], states[n], pids[n - 1]));
    }
}

} // verus!

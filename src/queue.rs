use vstd::prelude::*;
use std::collections::VecDeque;

verus! {

broadcast use vstd::std_specs::vecdeque::group_vec_dequeue_axioms;

/// First-in first-out queue of processes, by pid, that were admitted and not
/// yet picked up by an execution thread.
pub struct AdmissionQueue {
    items: VecDeque<u32>,
}

impl View for AdmissionQueue {
    type V = Seq<u32>;

    closed spec fn view(&self) -> Seq<u32> {
        self.items@
    }
}

impl AdmissionQueue {
    pub fn new() -> (r: AdmissionQueue)
        ensures
            r@ == Seq::<u32>::empty(),
    {
        AdmissionQueue { items: VecDeque::new() }
    }

    pub fn len(&self) -> (r: usize)
        ensures
            r == self@.len(),
    {
        self.items.len()
    }

    /// Appends `pid` at the back.
    pub fn enqueue_new_process(&mut self, pid: u32)
        ensures
            final(self)@ == old(self)@.push(pid),
    {
        self.items.push_back(pid);
    }

    /// Removes and returns the oldest entry; `None`, and no change, when empty.
    pub fn dequeue_new_process(&mut self) -> (r: Option<u32>)
        ensures
            old(self)@.len() == 0 ==> r.is_none() && final(self)@ == old(self)@,
            old(self)@.len() > 0 ==> r == Some(old(self)@[0]) && final(self)@ == old(self)@.drop_first(),
    {
        self.items.pop_front()
    }

    /// Takes `pid` out of the queue, wherever it stands, and returns the
    /// position it had; `None`, and no change, if it is not queued.
    pub fn withdraw(&mut self, pid: u32) -> (r: Option<usize>)
        ensures
            r matches Some(i) ==> i < old(self)@.len() && old(self)@[i as int] == pid
                && final(self)@ == old(self)@.remove(i as int)
                && forall|j: int| 0 <= j < i ==> old(self)@[j] != pid,
            r is None ==> !old(self)@.contains(pid) && final(self)@ == old(self)@,
    {
        let mut i: usize = 0;
        while i < self.items.len()
            invariant
                i <= self@.len(),
                self@ == old(self)@,
                forall|j: int| 0 <= j < i ==> self@[j] != pid,
            decreases self@.len() - i,
        {
            if self.items[i] == pid {
                let _ = self.items.remove(i);
                return Some(i);
            }
            i = i + 1;
        }
        None
    }
}

/// The queue after `pids` are enqueued in order.
pub open spec fn enqueue_all(q: Seq<u32>, pids: Seq<u32>) -> Seq<u32> {
    q + pids
}

/// Entries come out in the order they went in: after `pids` are enqueued on an
/// empty queue, `pids.len()` dequeues return `pids` in order and leave the
/// queue empty.
pub proof fn lemma_fifo_order(pids: Seq<u32>, states: Seq<Seq<u32>>, out: Seq<Option<u32>>)
    requires
        states.len() == pids.len() + 1,
        out.len() == pids.len(),
        states[0] == enqueue_all(Seq::<u32>::empty(), pids),
        forall|i: int| 0 <= i < pids.len() ==> {
            &&& (#[trigger] states[i]).len() > 0 ==> out[i] == Some(states[i][0]) && states[i + 1] == states[i].drop_first()
            &&& states[i].len() == 0 ==> out[i].is_none() && states[i + 1] == states[i]
        },
    ensures
        forall|i: int| 0 <= i < pids.len() ==> #[trigger] out[i] == Some(pids[i]),
        states[pids.len() as int].len() == 0,
{
    lemma_fifo_prefix(pids, states, out, pids.len() as int);
}

proof fn lemma_fifo_prefix(pids: Seq<u32>, states: Seq<Seq<u32>>, out: Seq<Option<u32>>, n: int)
    requires
        states.len() == pids.len() + 1,
        out.len() == pids.len(),
        states[0] == enqueue_all(Seq::<u32>::empty(), pids),
        forall|i: int| 0 <= i < pids.len() ==> {
            &&& (#[trigger] states[i]).len() > 0 ==> out[i] == Some(states[i][0]) && states[i + 1] == states[i].drop_first()
            &&& states[i].len() == 0 ==> out[i].is_none() && states[i + 1] == states[i]
        },
        0 <= n <= pids.len(),
    ensures
        states[n] == pids.subrange(n, pids.len() as int),
        forall|i: int| 0 <= i < n ==> #[trigger] out[i] == Some(pids[i]),
    decreases n,
{
    if n == 0 {
        assert(states[0] =~= pids.subrange(0, pids.len() as int));
    } else {
        lemma_fifo_prefix(pids, states, out, n - 1);
        let s = states[n - 1];
        assert(s.len() > 0);
        assert(states[n] =~= pids.subrange(n, pids.len() as int));
    }
}

} // verus!

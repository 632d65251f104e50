use vstd::prelude::*;
use std::collections::HashMap;
use crate::image::Process;
use crate::Status;

verus! {

broadcast use vstd::std_specs::hash::group_hash_axioms;

/// Mapping from pid to process record.
pub struct ProcessTable {
    map: HashMap<u32, Process>,
}

impl View for ProcessTable {
    type V = Map<u32, Process>;

    closed spec fn view(&self) -> Map<u32, Process> {
        self.map@
    }
}

/// `t` once the process `pid`, if present, has exited with `code`.
pub open spec fn exited(t: Map<u32, Process>, pid: u32, code: i32) -> Map<u32, Process> {
    if t.contains_key(pid) {
        t.insert(pid, Process { status: Status::ZOMBIE, exit_code: code, ..t[pid] })
    } else {
        t
    }
}

impl ProcessTable {
    pub fn new() -> (r: ProcessTable)
        ensures
            r@ == Map::<u32, Process>::empty(),
    {
        ProcessTable { map: HashMap::new() }
    }

    pub fn put_into_pid_table(&mut self, pid: u32, process: Process)
        ensures
            final(self)@ == old(self)@.insert(pid, process),
    {
        let _ = self.map.insert(pid, process);
    }

    pub fn del_from_pid_table(&mut self, pid: u32)
        ensures
            final(self)@ == old(self)@.remove(pid),
    {
        let _ = self.map.remove(&pid);
    }

    /// A copy of the record of `pid`, if there is one.
    pub fn look_up_pid_table(&self, pid: u32) -> (r: Option<Process>)
        ensures
            r == (if self@.contains_key(pid) { Some(self@[pid]) } else { None::<Process> }),
    {
        match self.map.get(&pid) {
            Some(p) => Some(*p),
            None => None,
        }
    }

    /// Marks `pid`, if present, as exited with `code`.
    pub fn record_exit(&mut self, pid: u32, code: i32)
        ensures
            final(self)@ == exited(old(self)@, pid, code),
    {
        match self.map.get(&pid) {
            Some(p) => {
                let updated = Process { status: Status::ZOMBIE, exit_code: code, ..*p };
                let _ = self.map.insert(pid, updated);
            },
            None => {},
        }
    }
}

} // verus!

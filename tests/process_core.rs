use libos_process::error::ProcessError;
use libos_process::image::{
    ElfImage, Process, ProgramHeader, Region, Relocation, PERM_R, PERM_W, PERM_X, PF_R, PF_W, PF_X,
    STACK_SIZE,
};
use libos_process::pid::PidAllocator;
use libos_process::process::{
    abort_spawn, do_exit, do_getpid, do_spawn, do_wait4, finish_task, get_current, reset_current,
    run_task, set_current, CurrentSlot, ProcessManager, INIT_PID,
};
use libos_process::queue::AdmissionQueue;
use libos_process::table::ProcessTable;
use libos_process::Status;

fn header(flags: u32, virtual_addr: usize, mem_size: usize) -> ProgramHeader {
    ProgramHeader { is_load: true, flags, virtual_addr, mem_size }
}

fn image(entry_offset: usize) -> ElfImage {
    ElfImage {
        program_headers: vec![header(PF_R | PF_X, 0, 0x1000), header(PF_R | PF_W, 0x1000, 0x1000)],
        entry_offset,
        relocations: vec![],
        dynamic_symbols: vec![],
    }
}

fn built(entry_offset: usize, base: usize) -> Process {
    Process::layout(&image(entry_offset), base).unwrap()
}

fn spawn(m: &mut ProcessManager, entry_offset: usize, base: usize) -> Result<u32, ProcessError> {
    do_spawn(m, &image(entry_offset), base, true)
}

fn disjoint(a: &Region, b: &Region) -> bool {
    a.mem_end <= b.mem_begin || b.mem_end <= a.mem_begin
}

#[test]
fn spawn_image_a_entry_inside_code() {
    let mut pids = PidAllocator::new();
    let p = Process::new(&image(0x10), 0x1000, true, &mut pids).unwrap();
    assert_eq!(p.code_vma.mem_begin, 0x1000);
    assert_eq!(p.code_vma.mem_end, 0x2000);
    assert_eq!(p.program_base_addr, 0x1000);
    assert_eq!(p.program_entry_addr, 0x1000 + 0x10);
    assert!(p.code_vma.contains(p.program_entry_addr));
    assert_eq!(p.pid, 1);
    let mut m = ProcessManager::new();
    assert_eq!(spawn(&mut m, 0x10, 0x1000), Ok(1));
    let q = m.table.look_up_pid_table(1).unwrap();
    assert!(q.code_vma.contains(q.program_entry_addr));
}

#[test]
fn spawn_image_b_entry_in_data_is_out_of_bounds() {
    let r = Process::layout(&image(0x1010), 0x1000);
    assert_eq!(r, Err(ProcessError::EntryOutOfBounds));
    let mut m = ProcessManager::new();
    assert_eq!(spawn(&mut m, 0x1010, 0x1000), Err(ProcessError::EntryOutOfBounds));
    assert_eq!(m.queue.len(), 0);
    assert_eq!(m.table.look_up_pid_table(1), None);
}

#[test]
fn entry_at_code_end_is_out_of_bounds() {
    assert_eq!(Process::layout(&image(0x1000), 0x1000), Err(ProcessError::EntryOutOfBounds));
    assert!(Process::layout(&image(0xfff), 0x1000).is_ok());
}

#[test]
fn entry_address_overflow_is_out_of_bounds() {
    let mut img = image(0);
    img.entry_offset = usize::MAX;
    assert_eq!(Process::layout(&img, 0x1000), Err(ProcessError::EntryOutOfBounds));
}

#[test]
fn two_sequential_spawns_get_pids_one_and_two() {
    let mut m = ProcessManager::new();
    assert_eq!(spawn(&mut m, 0x10, 0x1000), Ok(1));
    assert_eq!(spawn(&mut m, 0x10, 0x100000), Ok(2));
    assert_eq!(m.queue.len(), 2);
    assert_eq!(m.table.look_up_pid_table(1).unwrap().pid, 1);
    assert_eq!(m.table.look_up_pid_table(2).unwrap().pid, 2);
}

#[test]
fn spawn_run_exit_then_wait4_returns_code() {
    let mut m = ProcessManager::new();
    let pid = spawn(&mut m, 0x10, 0x1000).unwrap();
    let mut slot = CurrentSlot::new();
    let task = run_task(&mut m, &mut slot).unwrap();
    assert_eq!(task.user_entry_addr, 0x1010);
    assert_eq!(do_getpid(&slot), pid);
    do_exit(&mut m, &slot, 42);
    assert_eq!(do_wait4(&m, pid), Ok(Some(42)));
}

#[test]
fn layout_places_stack_above_image() {
    let p = built(0x10, 0x1000);
    assert_eq!(p.data_vma.mem_begin, 0x2000);
    assert_eq!(p.data_vma.mem_end, 0x3000);
    assert_eq!(p.stack_vma.mem_begin, 0x3000);
    assert_eq!(p.stack_vma.mem_end, 0x3000 + STACK_SIZE);
    assert_eq!(p.stack_vma.mem_end - p.stack_vma.mem_begin, 32 * 1024 * 1024);
    assert_eq!(p.stack_vma.perms, PERM_R | PERM_W);
    assert_eq!(p.code_vma.perms, PERM_R | PERM_X);
    assert_eq!(p.data_vma.perms, PERM_R | PERM_W);
    assert_eq!(p.task.user_stack_addr, 0x3000 + STACK_SIZE - 16);
    assert_eq!(p.task.user_entry_addr, 0x1010);
    assert_eq!(p.task.fs_base_addr, 0);
    assert_eq!(p.task.saved_state, 0);
    assert_eq!(p.status, Status::RUNNING);
    assert_eq!(p.pid, 0);
}

#[test]
fn stack_rounds_up_to_page() {
    let img = ElfImage {
        program_headers: vec![header(PF_R | PF_X, 0, 0x1000), header(PF_R | PF_W, 0x1000, 0x10)],
        entry_offset: 0,
        relocations: vec![],
        dynamic_symbols: vec![],
    };
    let p = Process::layout(&img, 0x1000).unwrap();
    assert_eq!(p.data_vma.mem_end, 0x2010);
    assert_eq!(p.stack_vma.mem_begin, 0x3000);
}

#[test]
fn regions_are_pairwise_disjoint() {
    for base in [0usize, 0x1000, 0x7000_0000] {
        let p = built(0x10, base);
        assert!(disjoint(&p.code_vma, &p.data_vma));
        assert!(disjoint(&p.code_vma, &p.stack_vma));
        assert!(disjoint(&p.data_vma, &p.stack_vma));
    }
}

#[test]
fn missing_code_segment_is_malformed() {
    let img = ElfImage {
        program_headers: vec![header(PF_R | PF_W, 0x1000, 0x1000)],
        entry_offset: 0,
        relocations: vec![],
        dynamic_symbols: vec![],
    };
    assert_eq!(Process::layout(&img, 0), Err(ProcessError::MalformedImage));
}

#[test]
fn missing_data_segment_is_malformed() {
    let img = ElfImage {
        program_headers: vec![header(PF_R | PF_X, 0, 0x1000)],
        entry_offset: 0,
        relocations: vec![],
        dynamic_symbols: vec![],
    };
    assert_eq!(Process::layout(&img, 0), Err(ProcessError::MalformedImage));
}

#[test]
fn overlapping_segments_are_malformed() {
    let img = ElfImage {
        program_headers: vec![header(PF_R | PF_X, 0, 0x1000), header(PF_R | PF_W, 0x800, 0x1000)],
        entry_offset: 0,
        relocations: vec![],
        dynamic_symbols: vec![],
    };
    assert_eq!(Process::layout(&img, 0), Err(ProcessError::MalformedImage));
}

#[test]
fn segment_past_address_space_is_malformed() {
    assert_eq!(Process::layout(&image(0x10), usize::MAX - 0x1000), Err(ProcessError::MalformedImage));
}

#[test]
fn unloaded_headers_are_skipped() {
    let img = ElfImage {
        program_headers: vec![
            ProgramHeader { is_load: false, flags: PF_R | PF_X, virtual_addr: 0x5000, mem_size: 0x10 },
            header(PF_R | PF_X, 0, 0x1000),
            header(PF_R | PF_W, 0x1000, 0x1000),
        ],
        entry_offset: 0x20,
        relocations: vec![],
        dynamic_symbols: vec![],
    };
    let p = Process::layout(&img, 0x4000).unwrap();
    assert_eq!(p.code_vma.mem_begin, 0x4000);
    assert_eq!(p.program_entry_addr, 0x4020);
}

fn linked_image(relocations: Vec<Relocation>) -> ElfImage {
    let mut img = image(0x10);
    img.relocations = relocations;
    img.dynamic_symbols = vec![String::new(), "printf".to_string(), "rusgx_syscall".to_string()];
    img
}

#[test]
fn link_syscalls_finds_trampoline_slots() {
    let img = linked_image(vec![
        Relocation { offset: 0x1008, symbol_index: 2 },
        Relocation { offset: 0x1010, symbol_index: 1 },
        Relocation { offset: 0x1800, symbol_index: 2 },
    ]);
    let p = Process::layout(&img, 0x1000).unwrap();
    assert_eq!(p.link_syscalls(&img), Ok(vec![0x2008, 0x2800]));
}

#[test]
fn link_syscalls_with_no_match_is_empty() {
    let img = linked_image(vec![Relocation { offset: 0x1010, symbol_index: 1 }]);
    let p = Process::layout(&img, 0x1000).unwrap();
    assert_eq!(p.link_syscalls(&img), Ok(vec![]));
}

#[test]
fn link_syscalls_missing_symbol_is_relocation_error() {
    let img = linked_image(vec![Relocation { offset: 0x1008, symbol_index: 5 }]);
    let p = Process::layout(&img, 0x1000).unwrap();
    assert_eq!(p.link_syscalls(&img), Err(ProcessError::RelocationError));
}

#[test]
fn link_syscalls_slot_outside_image_is_relocation_error() {
    let img = linked_image(vec![Relocation { offset: 0x1ffc, symbol_index: 2 }]);
    let p = Process::layout(&img, 0x1000).unwrap();
    assert_eq!(p.link_syscalls(&img), Err(ProcessError::RelocationError));
    let img = linked_image(vec![Relocation { offset: usize::MAX, symbol_index: 2 }]);
    assert_eq!(p.link_syscalls(&img), Err(ProcessError::RelocationError));
}

#[test]
fn pid_allocator_counts_up_from_one() {
    let mut a = PidAllocator::new();
    let got: Vec<u32> = (0..100).map(|_| a.alloc_pid().unwrap()).collect();
    for (i, p) in got.iter().enumerate() {
        assert_eq!(*p, i as u32 + 1);
        assert!(*p >= 1);
    }
    let mut sorted = got.clone();
    sorted.dedup();
    assert_eq!(sorted.len(), 100);
    a.free_pid(3);
    assert_eq!(a.alloc_pid(), Some(101));
}

#[test]
fn admission_queue_is_fifo() {
    let mut q = AdmissionQueue::new();
    for pid in [7u32, 3, 9, 1] {
        q.enqueue_new_process(pid);
    }
    assert_eq!(q.len(), 4);
    let mut out = vec![];
    for _ in 0..4 {
        out.push(q.dequeue_new_process().unwrap());
    }
    assert_eq!(out, vec![7, 3, 9, 1]);
    assert_eq!(q.dequeue_new_process(), None);
}

#[test]
fn admission_queue_withdraw_takes_pid_wherever_it_stands() {
    let mut q = AdmissionQueue::new();
    q.enqueue_new_process(1);
    q.enqueue_new_process(2);
    q.enqueue_new_process(3);
    assert_eq!(q.withdraw(4), None);
    assert_eq!(q.withdraw(2), Some(1));
    assert_eq!(q.len(), 2);
    assert_eq!(q.dequeue_new_process(), Some(1));
    assert_eq!(q.dequeue_new_process(), Some(3));
}

#[test]
fn process_table_insert_lookup_remove() {
    let mut t = ProcessTable::new();
    let p = built(0x10, 0x1000);
    assert_eq!(t.look_up_pid_table(4), None);
    t.put_into_pid_table(4, p);
    assert_eq!(t.look_up_pid_table(4), Some(p));
    t.record_exit(4, -3);
    let q = t.look_up_pid_table(4).unwrap();
    assert_eq!(q.status, Status::ZOMBIE);
    assert_eq!(q.exit_code, -3);
    t.record_exit(5, 1);
    assert_eq!(t.look_up_pid_table(5), None);
    t.del_from_pid_table(4);
    assert_eq!(t.look_up_pid_table(4), None);
}

#[test]
fn wait4_unknown_pid_is_not_found() {
    let mut m = ProcessManager::new();
    assert_eq!(do_wait4(&m, 1), Err(ProcessError::NotFound));
    spawn(&mut m, 0x10, 0x1000).unwrap();
    assert_eq!(do_wait4(&m, 2), Err(ProcessError::NotFound));
    assert_eq!(do_wait4(&m, 0), Err(ProcessError::NotFound));
}

#[test]
fn wait4_on_running_child_asks_to_look_again() {
    let mut m = ProcessManager::new();
    let pid = spawn(&mut m, 0x10, 0x1000).unwrap();
    assert_eq!(do_wait4(&m, pid), Ok(None));
    assert_eq!(do_wait4(&m, pid), Ok(None));
    assert!(m.table.look_up_pid_table(pid).is_some());
}

#[test]
fn wait4_stops_at_first_look_after_exit() {
    let mut m = ProcessManager::new();
    let pid = spawn(&mut m, 0x10, 0x1000).unwrap();
    let mut slot = CurrentSlot::new();
    run_task(&mut m, &mut slot).unwrap();
    let mut looks = 0;
    let code = loop {
        looks += 1;
        assert!(looks <= 3);
        if looks == 2 {
            do_exit(&mut m, &slot, 7);
        }
        match do_wait4(&m, pid) {
            Ok(Some(c)) => break c,
            Ok(None) => continue,
            Err(e) => panic!("{:?}", e),
        }
    };
    assert_eq!(code, 7);
    assert_eq!(looks, 2);
}

#[test]
fn run_task_on_empty_queue_is_nothing_to_run() {
    let mut m = ProcessManager::new();
    let mut slot = CurrentSlot::new();
    assert_eq!(run_task(&mut m, &mut slot).unwrap_err(), ProcessError::NothingToRun);
    assert_eq!(get_current(&slot), None);
}

#[test]
fn abort_spawn_of_earlier_pid_leaves_later_queued() {
    let mut m = ProcessManager::new();
    let first = spawn(&mut m, 0x10, 0x1000).unwrap();
    let second = spawn(&mut m, 0x10, 0x100000).unwrap();
    abort_spawn(&mut m, first);
    assert_eq!(m.table.look_up_pid_table(first), None);
    assert_eq!(m.queue.len(), 1);
    let mut slot = CurrentSlot::new();
    run_task(&mut m, &mut slot).unwrap();
    assert_eq!(do_getpid(&slot), second);
}

#[test]
fn builder_assigns_pid_last() {
    let mut pids = PidAllocator::new();
    assert_eq!(Process::new(&image(0x1010), 0x1000, true, &mut pids), Err(ProcessError::EntryOutOfBounds));
    assert_eq!(Process::new(&image(0x10), 0x1000, false, &mut pids), Err(ProcessError::ProtectionError));
    let bad = linked_image(vec![Relocation { offset: 0x1008, symbol_index: 9 }]);
    assert_eq!(Process::new(&bad, 0x1000, true, &mut pids), Err(ProcessError::RelocationError));
    let p = Process::new(&image(0x10), 0x1000, true, &mut pids).unwrap();
    assert_eq!(p.pid, 1);
    assert_eq!(p.status, Status::RUNNING);
    let q = Process::new(&image(0x10), 0x1000, true, &mut pids).unwrap();
    assert_eq!(q.pid, 2);
    assert_eq!(pids.alloc_pid(), Some(3));
}

#[test]
fn spawn_with_failed_protection_registers_nothing() {
    let mut m = ProcessManager::new();
    assert_eq!(do_spawn(&mut m, &image(0x10), 0x1000, false), Err(ProcessError::ProtectionError));
    assert_eq!(m.queue.len(), 0);
    assert_eq!(spawn(&mut m, 0x10, 0x1000), Ok(1));
}

#[test]
fn run_task_runs_in_admission_order() {
    let mut m = ProcessManager::new();
    spawn(&mut m, 0x10, 0x1000).unwrap();
    spawn(&mut m, 0x20, 0x100000).unwrap();
    let mut slot = CurrentSlot::new();
    let t1 = run_task(&mut m, &mut slot).unwrap();
    assert_eq!(do_getpid(&slot), 1);
    assert_eq!(t1.user_entry_addr, 0x1010);
    finish_task(&mut m, &mut slot);
    let t2 = run_task(&mut m, &mut slot).unwrap();
    assert_eq!(do_getpid(&slot), 2);
    assert_eq!(t2.user_entry_addr, 0x100020);
}

#[test]
fn finish_task_releases_init_only() {
    let mut m = ProcessManager::new();
    spawn(&mut m, 0x10, 0x1000).unwrap();
    spawn(&mut m, 0x10, 0x100000).unwrap();
    let mut slot = CurrentSlot::new();
    run_task(&mut m, &mut slot).unwrap();
    assert_eq!(get_current(&slot), Some(INIT_PID));
    finish_task(&mut m, &mut slot);
    assert_eq!(get_current(&slot), None);
    assert_eq!(m.table.look_up_pid_table(1), None);
    run_task(&mut m, &mut slot).unwrap();
    finish_task(&mut m, &mut slot);
    assert!(m.table.look_up_pid_table(2).is_some());
}

#[test]
fn current_slot_set_get_reset() {
    let mut slot = CurrentSlot::new();
    assert_eq!(get_current(&slot), None);
    set_current(&mut slot, 9);
    assert_eq!(get_current(&slot), Some(9));
    assert_eq!(do_getpid(&slot), 9);
    reset_current(&mut slot);
    assert_eq!(get_current(&slot), None);
}

#[test]
fn exit_marks_zombie_and_keeps_entry() {
    let mut m = ProcessManager::new();
    let pid = spawn(&mut m, 0x10, 0x1000).unwrap();
    let mut slot = CurrentSlot::new();
    run_task(&mut m, &mut slot).unwrap();
    do_exit(&mut m, &slot, -1);
    let p = m.table.look_up_pid_table(pid).unwrap();
    assert_eq!(p.status, Status::ZOMBIE);
    assert_eq!(p.exit_code, -1);
}

#[test]
fn abort_spawn_unregisters() {
    let mut m = ProcessManager::new();
    let pid = spawn(&mut m, 0x10, 0x1000).unwrap();
    abort_spawn(&mut m, pid);
    assert_eq!(m.table.look_up_pid_table(pid), None);
    assert_eq!(m.queue.len(), 0);
    assert_eq!(spawn(&mut m, 0x10, 0x1000), Ok(2));
}

#[test]
fn status_defaults_to_running() {
    assert_eq!(Status::default(), Status::RUNNING);
}

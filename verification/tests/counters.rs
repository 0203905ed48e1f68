use wll_os::diag::groups::{
    AnonymousCoalesce, AnonymousMove, AnonymousVma, BlockedOwner, CacheCounts, CpuTicks, FdCounts,
    IpcCounts, MmCounts, MmapFailureShape, MmapResult, MmapShape, PollCounts, ProcessProgress,
    Tally,
};
use wll_os::diag::locks::{LockClass, LockTable, MemorySetLockSite, SITE_SLOTS};
use wll_os::diag::notes::{note_phase, ActiveUser, FlagCommands};
use wll_os::diag::protocol::MmapProtocol;

#[test]
fn phases_that_are_not_known_are_left_out() {
    let mut phases = vec![Tally::new(), Tally::new()];
    note_phase(&mut phases, 1, 7);
    note_phase(&mut phases, 1, 3);
    note_phase(&mut phases, 2, 9);
    assert_eq!(phases[0], Tally::new());
    assert_eq!(phases[1], Tally { count: 2, total_us: 10, max_us: 7 });
}

#[test]
fn ticks_and_traps() {
    let mut ticks = CpuTicks::new();
    ticks.note_kernel_tick();
    ticks.note_idle_tick();
    ticks.note_idle_tick();
    ticks.note_migration();
    assert_eq!((ticks.kernel_ticks, ticks.idle_ticks, ticks.migrations), (1, 2, 1));
    let mut active = ActiveUser::new();
    active.note_user_trap_enter(3, 50);
    assert_eq!((active.trap_kind, active.trap_since_us, active.trap_entries), (3, 50, 1));
    active.note_user_trap_exit();
    assert_eq!((active.trap_kind, active.trap_entries), (0, 1));
}

#[test]
fn owners_that_wait() {
    let mut owner = BlockedOwner::new();
    owner.note_blocked_owner_loop_dispatch();
    owner.note_blocked_owner_wake();
    owner.note_blocked_owner_timed_loop(20, 4);
    owner.note_blocked_owner_timed_loop(10, 1);
    assert_eq!((owner.loop_dispatches, owner.wake_to_owner), (1, 1));
    assert_eq!((owner.timed_loops, owner.timed_total_us, owner.timed_max_us), (2, 30, 20));
    assert_eq!(owner.empty_iterations, 5);
}

#[test]
fn looks_into_caches() {
    let mut cache = CacheCounts::new();
    cache.note_path_component_lookup(4);
    cache.note_path_cache(true, true);
    cache.note_path_cache(false, false);
    cache.note_inode_metadata_cache(false);
    cache.note_cache(true, false, true);
    cache.note_block_cache(false);
    assert_eq!((cache.path_components, cache.path_hit, cache.path_miss), (4, 1, 1));
    assert_eq!((cache.negative_path_hit, cache.inode_metadata_miss), (1, 1));
    assert_eq!((cache.inode_hit, cache.metadata_miss, cache.block_hit, cache.block_miss), (1, 1, 1, 1));
}

#[test]
fn address_spaces() {
    let mut mm = MmCounts::new();
    mm.note_root_activation(true, false);
    mm.note_root_activation(false, true);
    mm.note_local_tlb_flush();
    mm.note_remote_shootdown(3);
    assert_eq!((mm.user_root, mm.kernel_root, mm.redundant_root), (1, 1, 1));
    assert_eq!((mm.page_table_writes, mm.local_flush), (1, 1));
    assert_eq!((mm.remote_shootdown, mm.remote_targets), (1, 3));
    let mut vma = AnonymousVma::new();
    vma.note_anonymous_vma_install(true, true, 5, 8);
    vma.note_anonymous_vma_install(false, false, 3, 2);
    assert_eq!((vma.installs, vma.left, vma.both, vma.neither), (2, 1, 1, 1));
    assert_eq!((vma.current, vma.max, vma.pages, vma.pages_max), (3, 5, 10, 8));
    let mut moves = AnonymousMove::new();
    moves.note_anonymous_move_shape(true, true, true, 6, 2);
    assert_eq!((moves.left_selected, moves.zero_metadata), (1, 1));
    moves.note_anonymous_move_shape(false, true, true, 6, 2);
    assert_eq!((moves.right_selected, moves.zero_metadata), (1, 1));
    let mut joined = AnonymousCoalesce::new();
    joined.note_anonymous_coalesce_detail(9, 1, 2, 3, 4, 5, 6, 7);
    assert_eq!((joined.calls, joined.areas_max, joined.merges), (1, 9, 4));
}

#[test]
fn calls_on_pipes_and_files() {
    let mut ipc = IpcCounts::new();
    ipc.note_pipe2(0o4000, 0o4000, 0o2000000);
    ipc.note_pipe_wait(true);
    ipc.note_pipe_wake(false, 2);
    assert_eq!((ipc.pipe2_calls, ipc.pipe2_nonblock, ipc.pipe2_cloexec), (1, 1, 0));
    assert_eq!((ipc.pipe_read_waits, ipc.writer_wake_calls, ipc.writer_woken), (1, 1, 2));
    let numbers = FlagCommands { getfd: 1, setfd: 2, getfl: 3, setfl: 4 };
    let mut fds = FdCounts::new();
    fds.note_fcntl(1, true, numbers);
    fds.note_fcntl(4, true, numbers);
    fds.note_fcntl(9, true, numbers);
    fds.note_pipe_aliases(5, 2, 1);
    fds.note_exec_pipes(4, 3, 2);
    assert_eq!((fds.getfd, fds.setfl, fds.pipe_setfl), (1, 1, 1));
    assert_eq!((fds.pipe_alias_observations, fds.exec_pipe_closed), (5, 2));
    let mut poll = PollCounts::new();
    poll.note_ppoll_call();
    poll.note_ppoll_sleep(true);
    poll.note_ppoll_sleep(false);
    assert_eq!((poll.ppoll_calls, poll.keyed_sleeps, poll.unkeyed_sleeps), (1, 1, 1));
}

#[test]
fn mappings_that_fail() {
    let mut result = MmapResult::new();
    result.note_mmap_request(1 << 20);
    assert!(result.note_mmap_select_enomem(100, 7));
    assert!(!result.note_mmap_select_enomem(50, 9));
    result.note_mmap_failed_gap(33);
    assert_eq!((result.len_le_1m, result.select_enomem), (1, 2));
    assert_eq!((result.failed_len_max, result.failed_vmas_max, result.failed_gap_max), (100, 9, 33));
    let mut shape = MmapFailureShape::new();
    shape.note_failed_length(usize::MAX);
    shape.note_munmap_cursor(0x1000, 0x2000, 0x3000);
    shape.note_munmap_cursor(0x1000, 0x4000, 0x3000);
    shape.note_munmap_cursor(0x3000, 0x4000, 0x3000);
    assert_eq!((shape.len_gt_256m, shape.munmap_below_le_64k), (1, 1));
    assert_eq!((shape.munmap_overlaps_cursor, shape.munmap_at_or_above_cursor), (1, 1));
    let mut placed = MmapShape::new();
    placed.note_mmap_placement(0x2000_0000);
    placed.note_mmap_placement(0x20_0000_0000);
    placed.note_mmap_placement(0x1000);
    assert_eq!((placed.low_arena, placed.high_arena), (1, 1));
    let mut progress = ProcessProgress::new();
    progress.note_child_wake(2);
    assert_eq!((progress.child_wake_calls, progress.child_woken), (1, 2));
}

#[test]
fn calls_that_did_not_get_memory() {
    let mut protocol = MmapProtocol::new(3);
    protocol.begin_mmap_protocol(0x1000);
    protocol.select_enomem();
    protocol.begin_mmap_protocol(0x1000);
    protocol.commit_failed();
    let s = protocol.snapshot();
    assert_eq!((s.attempts, s.select_enomem, s.commit_failures, s.successes), (2, 1, 1, 0));
}

#[test]
fn who_waits_for_whom() {
    let mut locks = LockTable::new();
    let holder = MemorySetLockSite::Munmap;
    let waiter = MemorySetLockSite::Brk;
    locks.lock_acquired(LockClass::MemorySet, Some(holder), 2, 0xabc0, true, Some(12));
    assert_eq!(locks.counts[LockClass::MemorySet.slot()].wait_total_us, 12);
    assert_eq!(locks.sites[holder.slot()].wait_max_us, 12);
    locks.note_memory_set_owner_waiter_sample(0xabc0, waiter);
    assert_eq!(locks.pairs[waiter.slot()][holder.slot()], 1);
    locks.lock_released(LockClass::MemorySet, Some(holder), Some(30), Some(2));
    assert_eq!(locks.sites[holder.slot()].hold_total_us, 30);
    locks.note_memory_set_owner_waiter_sample(0xabc0, waiter);
    assert_eq!(locks.pairs[waiter.slot()][SITE_SLOTS], 1);
    locks.note_lock_hold(LockClass::Vfs, 8);
    assert_eq!(locks.counts[LockClass::Vfs.slot()].hold_max_us, 8);
}

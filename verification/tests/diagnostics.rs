use wll_os::diag::archive::{ExitedMmapArchive, ARCHIVE_SLOTS};
use wll_os::diag::first::{ExecFailure, FirstRecord};
use wll_os::diag::groups::{
    ActorCounts, BlockedOwner, CacheCounts, CpuTicks, FdCounts, FrameOwners, IpcCounts, MmapResult,
    MmapShape, PagesTally, Tally, TaskCounts, UserRuns, VmaCount,
};
use wll_os::diag::line::{numbered_head, write_line};
use wll_os::diag::locks::{
    heap_size_bucket, hot_lock_slot, LockClass, LockTable, MemorySetLockSite, WorkTable,
    SAMPLE_PERIOD,
};
use wll_os::diag::names::{phase_table, work_table};
use wll_os::diag::notes::{
    cpu_slot, escape_of, mmap_length_bucket, ActiveUser, Escape, LengthClass, CPU_SLOTS,
};
use wll_os::diag::protocol::{MmapProtocol, MmapSummary};
use wll_os::diag::report::{Diagnostics, Surroundings, REPORT_INTERVAL_US};
use wll_os::diag::waits::{block_actor_slot, BlockReason, WaitOutcome, WaitStamps, Waits};
use wll_os::errno::SysErrNo;

fn around() -> Surroundings {
    Surroundings {
        cpu: 2,
        tasks: TaskCounts::new(),
        rq_current: 4,
        frames: FrameOwners::new(),
    }
}

fn summary(tgid: usize) -> MmapSummary {
    let mut s = MmapSummary::new(tgid);
    s.attempts = 1;
    s
}

#[test]
fn lines_of_a_report() {
    assert_eq!(write_line("mm", &vec![("a", 1), ("b", 20)]), "BUILDSTORM_DIAG mm a=1 b=20");
    assert_eq!(write_line("end", &Vec::new()), "BUILDSTORM_DIAG end");
    assert_eq!(numbered_head("cpu", 3), "cpu=3");
}

#[test]
fn a_report_comes_when_it_is_time() {
    let mut d = Diagnostics::new();
    assert!(d.maybe_report(5, &around()).is_none());
    assert_eq!(d.next_report_at, 5 + REPORT_INTERVAL_US);
    assert!(d.maybe_report(4 + REPORT_INTERVAL_US, &around()).is_none());
    d.cpus[1].note_context_switch();
    d.progress.note_process_exit();
    let lines = d.maybe_report(5 + REPORT_INTERVAL_US, &around()).unwrap();
    assert_eq!(d.sequence, 1);
    assert!(lines[0].starts_with("BUILDSTORM_DIAG snapshot=1 now_us=10000005 cpu=2 "));
    assert!(lines[0].ends_with(" rq_current=4"));
    assert!(lines[2].contains("cpu=1 "));
    assert!(lines.last().unwrap().starts_with("BUILDSTORM_DIAG process_progress exits=1 "));
    let ranks: Vec<&String> = lines.iter().filter(|l| l.contains(" lock_rank=")).collect();
    assert_eq!(ranks.len(), 10);
    assert!(ranks[0].starts_with("BUILDSTORM_DIAG lock_rank=1 name=vfs "));
    let end = d.report_exited_mmap_protocols();
    assert_eq!(
        end,
        vec![
            "BUILDSTORM_DIAG mmap_protocol_archive archived=0 reported=0 dropped=0 pending=0 capacity=128"
                .to_string(),
            "BUILDSTORM_DIAG snapshot_end=1".to_string(),
        ]
    );
}

#[test]
fn locks_are_ranked_by_waiting() {
    let mut d = Diagnostics::new();
    d.locks.note_lock_acquire(LockClass::WaitQueue, true, 70);
    d.locks.note_lock_acquire(LockClass::FdTable, true, 90);
    assert!(d.maybe_report(1, &around()).is_none());
    let lines = d.maybe_report(2 * REPORT_INTERVAL_US, &around()).unwrap();
    let ranks: Vec<&String> = lines.iter().filter(|l| l.contains(" lock_rank=")).collect();
    assert!(ranks[0].contains(" wait_total_us=90 "));
    assert!(ranks[1].contains(" wait_total_us=70 "));
}

#[test]
fn ended_programs_are_reported_once() {
    let mut d = Diagnostics::new();
    d.archive_mmap_protocol(MmapSummary::new(4));
    d.archive_mmap_protocol(summary(5));
    d.archive_mmap_protocol(summary(6));
    let lines = d.report_exited_mmap_protocols();
    assert_eq!(lines.len(), 4);
    assert!(lines[0].contains("tgid=5"));
    assert!(lines[1].contains("tgid=6"));
    assert_eq!(d.report_exited_mmap_protocols().len(), 2);
    assert_eq!(d.archive.reported, 2);
}

#[test]
fn the_archive_is_bounded() {
    let mut archive = ExitedMmapArchive::new();
    for i in 0..ARCHIVE_SLOTS + 3 {
        archive.push(summary(i));
    }
    assert_eq!((archive.archived, archive.dropped, archive.len), (ARCHIVE_SLOTS + 3, 3, ARCHIVE_SLOTS));
    let (number, first) = archive.pop().unwrap();
    assert_eq!((number, first.tgid), (1, 0));
    archive.push(summary(999));
    assert_eq!(archive.dropped, 3);
}

#[test]
fn only_the_first_event_is_kept() {
    let mut record: FirstRecord<usize> = FirstRecord::new();
    assert_eq!(record.take(), None);
    record.note(3);
    record.note(4);
    assert_eq!(record.take(), Some(3));
    record.note(5);
    assert_eq!(record.take(), None);
    let failure = ExecFailure::of_call(2, 9, 10, 11, 12);
    assert_eq!((failure.errno, failure.pid, failure.envp_ptr, failure.stage), (2, 9, 12, 0));
}

#[test]
fn reservations_are_trimmed() {
    let mut protocol = MmapProtocol::new(7);
    let sequence = protocol.begin_mmap_protocol(0x4000);
    assert_eq!(sequence, 1);
    protocol.note_mmap_protocol_success(sequence, 0x1000, 0x5000);
    protocol.note_munmap_protocol(0x1000, 0x2000);
    protocol.note_munmap_protocol(0x4000, 0x5000);
    protocol.note_munmap_protocol(0x9000, 0xa000);
    let s = protocol.snapshot();
    assert_eq!((s.attempts, s.successes, s.requested_bytes), (1, 1, 0x4000));
    assert_eq!((s.trim_first, s.trim_second, s.trim_prefix, s.trim_suffix), (1, 1, 1, 1));
    assert_eq!((s.munmap_unmatched, s.active), (1, 0));
    let sequence = protocol.begin_mmap_protocol(0x1000);
    protocol.note_mmap_protocol_success(sequence, 0x7000, 0x8000);
    assert_eq!(protocol.snapshot().active, 1);
    protocol.note_munmap_protocol(0x7000, 0x8000);
    let s = protocol.snapshot();
    assert_eq!((s.full_release, s.active), (1, 0));
    assert!(s.report_line("x", 1).unwrap().contains("tgid=7"));
    assert!(MmapSummary::new(1).report_line("x", 1).is_none());
}

#[test]
fn waiting_is_counted() {
    let mut waits = Waits::new();
    let mut task = WaitStamps::new();
    let actor = block_actor_slot(Some("/usr/bin/rustc"));
    waits.note_block_start(&mut task, BlockReason::Futex, actor, 100);
    waits.note_block_end(&mut task, WaitOutcome::Woken, 130);
    let slot = BlockReason::Futex.block_slot();
    assert_eq!((waits.blocks[slot].count, waits.blocks[slot].total_us), (1, 30));
    assert_eq!(waits.blocks[slot].woken, 1);
    waits.note_woken_task_dispatched(&mut task, 135);
    assert_eq!((waits.wakes[slot].count, waits.wakes[slot].total_us), (1, 5));
    assert_eq!(waits.actors[actor], ActorCounts { count: 1, total_us: 30 });
    assert_ne!(block_actor_slot(None), actor);
}

#[test]
fn locks_are_sampled() {
    let mut locks = LockTable::new();
    assert!(locks.begin_lock(LockClass::Heap, None, Some((100, true)), 0));
    for _ in 1..SAMPLE_PERIOD {
        assert!(!locks.begin_lock(LockClass::Heap, None, None, 0));
    }
    assert!(locks.begin_lock(LockClass::Heap, None, None, 0));
    assert_eq!(locks.lock_acquire_count(LockClass::Heap.slot()), SAMPLE_PERIOD + 1);
    assert!(locks.begin_lock(LockClass::Vfs, None, None, 3));
    assert!(locks.begin_lock(LockClass::Vfs, None, None, 3));
    assert_eq!(hot_lock_slot(LockClass::Vfs.slot()), None);
    let site = MemorySetLockSite::Brk;
    assert!(locks.begin_lock(LockClass::MemorySet, Some(site), None, 1));
    assert_eq!(locks.memory_set_site_acquire_count(site.slot()), 1);
    let mut work = WorkTable::new();
    assert!(work.begin_work(3, 0));
    assert!(!work.begin_work(3, 0));
    work.end_work(3, 12);
    assert_eq!(work.samples[3], Tally { count: 1, total_us: 12, max_us: 12 });
}

#[test]
fn classes_of_sizes() {
    assert!(heap_size_bucket(1) <= heap_size_bucket(64));
    assert!(heap_size_bucket(64) < heap_size_bucket(1 << 20));
    assert_eq!(heap_size_bucket(usize::MAX), 10);
    assert_eq!(mmap_length_bucket(65536), LengthClass::UpTo64K);
    assert_eq!(mmap_length_bucket(65537), LengthClass::UpTo1M);
    assert_eq!(mmap_length_bucket(usize::MAX), LengthClass::More);
}

#[test]
fn counts_of_processors() {
    let mut ticks = CpuTicks::new();
    ticks.note_user_tick();
    ticks.note_runqueue_len(5);
    ticks.note_runqueue_len(3);
    assert_eq!((ticks.user_ticks, ticks.runqueue_max), (1, 5));
    let mut runs = UserRuns::new();
    runs.note_user_run(10, Escape::Timer);
    runs.note_user_run(4, escape_of(0));
    assert_eq!((runs.count, runs.total_us, runs.max_us, runs.timer), (2, 14, 10, 1));
    let mut active = ActiveUser::new();
    active.note_user_run_enter(9, 100);
    assert_eq!((active.pid, active.since_us, active.entries), (9, 100, 1));
    active.note_user_run_exit(120);
    assert_eq!((active.pid, active.last_exit_us), (0, 120));
    let mut owner = BlockedOwner::new();
    owner.note_blocked_owner_enter();
    owner.note_blocked_owner_enter();
    owner.note_blocked_owner_exit();
    assert_eq!((owner.current, owner.max, owner.enters, owner.exits), (1, 2, 2, 1));
    assert!(cpu_slot(usize::MAX) < CPU_SLOTS);
}

#[test]
fn counts_of_caches_and_pipes() {
    let mut cache = CacheCounts::new();
    cache.note_dir_cache(true);
    cache.note_dir_cache(false);
    cache.note_virtio_request(512, 3, 4);
    assert_eq!((cache.dir_hit, cache.dir_miss, cache.virtio_bytes), (1, 1, 512));
    let mut ipc = IpcCounts::new();
    ipc.note_pipe_read(Ok(5));
    ipc.note_pipe_read(Ok(0));
    ipc.note_pipe_read(Err(SysErrNo::EAGAIN));
    ipc.note_pipe_write(Err(SysErrNo::EPIPE));
    assert_eq!((ipc.pipe_read_calls, ipc.pipe_read_bytes), (3, 5));
    assert_eq!((ipc.pipe_read_eof, ipc.pipe_read_eagain, ipc.pipe_write_epipe), (1, 1, 1));
    let mut fds = FdCounts::new();
    fds.note_dup(true);
    fds.note_sched_getaffinity(0b1011);
    assert_eq!((fds.dup_pipe_calls, fds.affinity_mask_bits_max), (1, 3));
    let mut vma = VmaCount::new();
    vma.note_vma_count(7);
    vma.note_vma_count(5);
    assert_eq!((vma.current, vma.max), (5, 7));
}

#[test]
fn counts_of_mappings() {
    let mut shape = MmapShape::new();
    shape.note_mmap_shape(true, false, true, false);
    assert_eq!((shape.anonymous, shape.hinted, shape.eager), (1, 1, 1));
    let mut result = MmapResult::new();
    result.note_mmap_select_ok();
    result.note_mmap_commit_reselect(&mut shape, true);
    assert_eq!((result.select_ok, result.reselect_ok, shape.commit_reselect), (1, 1, 1));
    let mut pages = PagesTally::new();
    pages.note(5, 3);
    pages.note(2, 1);
    assert_eq!((pages.count, pages.pages, pages.total_us, pages.max_us), (2, 4, 7, 5));
}

#[test]
fn names_in_the_report() {
    assert_eq!(work_table().len(), 21);
    assert_eq!(phase_table().len(), 59);
}

#[test]
fn first_records_of_the_diagnostics() {
    let mut d = Diagnostics::new();
    assert!(d.first_trap.take().is_none());
    assert!(d.first_page_fault.take().is_none());
    d.first_exec.note(ExecFailure::of_call(2, 9, 10, 11, 12));
    d.first_exec.note(ExecFailure::of_call(13, 8, 0, 0, 0));
    assert_eq!(d.first_exec.take().map(|f| (f.errno, f.pid)), Some((2, 9)));
    assert!(d.first_exec.take().is_none());
}

#[test]
fn a_report_shows_what_was_counted() {
    let mut d = Diagnostics::new();
    assert!(d.maybe_report(5, &around()).is_none());
    d.progress.note_process_exit();
    d.progress.note_process_exit();
    let lines = d.maybe_report(5 + REPORT_INTERVAL_US, &around()).unwrap();
    assert!(lines.last().unwrap().starts_with("BUILDSTORM_DIAG process_progress exits=2 "));
    assert!(d.maybe_report(6 + REPORT_INTERVAL_US, &around()).is_none());
    assert_eq!(d.sequence, 1);
}

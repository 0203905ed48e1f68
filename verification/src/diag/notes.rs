//! What is counted when.
use vstd::prelude::*;

use crate::config::user_va::{high_arena, high_mmap_arena, low_arena, low_mmap_arena};
use crate::diag::groups::{
    AnonymousCoalesce, AnonymousMove, AnonymousVma, BlockedOwner, CacheCounts, CpuTicks, FdCounts,
    IpcCounts, MmCounts, MmapFailureShape, MmapResult, MmapShape, PagesTally, PollCounts,
    ProcessProgress, Tally, UserRuns, VmaCount,
};
use crate::errno::SysErrNo;

verus! {

/// How many processors are told apart.
pub const CPU_SLOTS: usize = 12;

/// The place of a processor.
pub open spec fn slot_of(cpu: usize) -> usize {
    if cpu < CPU_SLOTS {
        cpu
    } else {
        (CPU_SLOTS - 1) as usize
    }
}

/// The place of a processor; all that are too many share the last.
pub fn cpu_slot(cpu: usize) -> (r: usize)
    ensures
        r == slot_of(cpu),
        r < CPU_SLOTS,
{
    if cpu < CPU_SLOTS {
        cpu
    } else {
        CPU_SLOTS - 1
    }
}

/// The greater of two numbers.
pub open spec fn greater(a: usize, b: usize) -> usize {
    if a < b {
        b
    } else {
        a
    }
}

/// The greater of two numbers.
pub fn greater_of(a: usize, b: usize) -> (r: usize)
    ensures
        r == greater(a, b),
{
    if a < b {
        b
    } else {
        a
    }
}

/// A number, or one more.
pub open spec fn up_if(n: usize, b: bool) -> usize {
    if b {
        n.wrapping_add(1)
    } else {
        n
    }
}

fn add_if(n: usize, b: bool) -> (r: usize)
    ensures
        r == up_if(n, b),
{
    if b {
        n.wrapping_add(1)
    } else {
        n
    }
}

/// What time passed since a moment.
pub open spec fn passed(now: usize, since: usize) -> usize {
    if now >= since {
        (now - since) as usize
    } else {
        0
    }
}

impl Tally {
    /// The tally with one thing more.
    pub open spec fn with(self, elapsed_us: usize) -> Tally {
        Tally {
            count: self.count.wrapping_add(1),
            total_us: self.total_us.wrapping_add(elapsed_us),
            max_us: greater(self.max_us, elapsed_us),
        }
    }

    /// Counts that something was done.
    pub fn note(&mut self, elapsed_us: usize)
        ensures
            *final(self) == old(self).with(elapsed_us),
    {
        self.count = self.count.wrapping_add(1);
        self.total_us = self.total_us.wrapping_add(elapsed_us);
        self.max_us = greater_of(self.max_us, elapsed_us);
    }
}

impl PagesTally {
    /// Counts that something was done for some pages.
    pub fn note(&mut self, elapsed_us: usize, pages: usize)
        ensures
            *final(self) == (PagesTally {
                count: old(self).count.wrapping_add(1),
                pages: old(self).pages.wrapping_add(pages),
                total_us: old(self).total_us.wrapping_add(elapsed_us),
                max_us: greater(old(self).max_us, elapsed_us),
            }),
    {
        self.count = self.count.wrapping_add(1);
        self.pages = self.pages.wrapping_add(pages);
        self.total_us = self.total_us.wrapping_add(elapsed_us);
        self.max_us = greater_of(self.max_us, elapsed_us);
    }
}

/// Counts a phase; numbers that stand for none are passed over.
pub fn note_phase(phases: &mut Vec<Tally>, phase: usize, elapsed_us: usize)
    ensures
        final(phases)@ == (if phase < old(phases)@.len() {
            old(phases)@.update(phase as int, old(phases)@[phase as int].with(elapsed_us))
        } else {
            old(phases)@
        }),
{
    if phase >= phases.len() {
        return;
    }
    let mut tally = phases[phase];
    tally.note(elapsed_us);
    phases.set(phase, tally);
}

/// Why a program stopped running.
#[derive(Clone, Copy, PartialEq, Eq, Structural, Debug)]
pub enum Escape {
    Syscall,
    Timer,
    Irq,
    Other,
}

impl CpuTicks {
    /// Counts a tick that met a program.
    pub fn note_user_tick(&mut self)
        ensures
            *final(self) == (CpuTicks {
                user_ticks: old(self).user_ticks.wrapping_add(1),
                ..*old(self)
            }),
    {
        self.user_ticks = self.user_ticks.wrapping_add(1);
    }

    /// Counts a tick that met the kernel.
    pub fn note_kernel_tick(&mut self)
        ensures
            *final(self) == (CpuTicks {
                kernel_ticks: old(self).kernel_ticks.wrapping_add(1),
                ..*old(self)
            }),
    {
        self.kernel_ticks = self.kernel_ticks.wrapping_add(1);
    }

    /// Counts a tick that met nothing to do.
    pub fn note_idle_tick(&mut self)
        ensures
            *final(self) == (CpuTicks {
                idle_ticks: old(self).idle_ticks.wrapping_add(1),
                ..*old(self)
            }),
    {
        self.idle_ticks = self.idle_ticks.wrapping_add(1);
    }

    /// Counts a change of tasks.
    pub fn note_context_switch(&mut self)
        ensures
            *final(self) == (CpuTicks {
                context_switches: old(self).context_switches.wrapping_add(1),
                ..*old(self)
            }),
    {
        self.context_switches = self.context_switches.wrapping_add(1);
    }

    /// Counts a task that came from another processor.
    pub fn note_migration(&mut self)
        ensures
            *final(self) == (CpuTicks {
                migrations: old(self).migrations.wrapping_add(1),
                ..*old(self)
            }),
    {
        self.migrations = self.migrations.wrapping_add(1);
    }

    /// Notes how many tasks are ready to run.
    pub fn note_runqueue_len(&mut self, len: usize)
        ensures
            *final(self) == (CpuTicks {
                runqueue_max: greater(old(self).runqueue_max, len),
                ..*old(self)
            }),
    {
        self.runqueue_max = greater_of(self.runqueue_max, len);
    }
}

impl UserRuns {
    /// Counts that a program ran, and why it stopped.
    pub fn note_user_run(&mut self, elapsed_us: usize, escape: Escape)
        ensures
            *final(self) == (UserRuns {
                count: old(self).count.wrapping_add(1),
                total_us: old(self).total_us.wrapping_add(elapsed_us),
                max_us: greater(old(self).max_us, elapsed_us),
                syscall: up_if(old(self).syscall, escape == Escape::Syscall),
                timer: up_if(old(self).timer, escape == Escape::Timer),
                irq: up_if(old(self).irq, escape == Escape::Irq),
                other: up_if(old(self).other, escape == Escape::Other),
            }),
    {
        self.count = self.count.wrapping_add(1);
        self.total_us = self.total_us.wrapping_add(elapsed_us);
        self.max_us = greater_of(self.max_us, elapsed_us);
        match escape {
            Escape::Syscall => {
                self.syscall = self.syscall.wrapping_add(1);
            },
            Escape::Timer => {
                self.timer = self.timer.wrapping_add(1);
            },
            Escape::Irq => {
                self.irq = self.irq.wrapping_add(1);
            },
            Escape::Other => {
                self.other = self.other.wrapping_add(1);
            },
        }
    }
}

/// The reason by its number.
pub fn escape_of(kind: usize) -> (r: Escape)
    ensures
        r == (if kind == 0 {
            Escape::Syscall
        } else if kind == 1 {
            Escape::Timer
        } else if kind == 2 {
            Escape::Irq
        } else {
            Escape::Other
        }),
{
    if kind == 0 {
        Escape::Syscall
    } else if kind == 1 {
        Escape::Timer
    } else if kind == 2 {
        Escape::Irq
    } else {
        Escape::Other
    }
}

/// The program that runs on a processor, and the trap that it is in.
#[derive(Clone, Copy, PartialEq, Eq, Structural, Debug)]
pub struct ActiveUser {
    pub pid: usize,
    pub since_us: usize,
    pub last_exit_us: usize,
    pub entries: usize,
    pub trap_kind: usize,
    pub trap_since_us: usize,
    pub trap_entries: usize,
}

impl ActiveUser {
    /// No program has run.
    pub open spec fn nobody() -> ActiveUser {
        ActiveUser {
            pid: 0,
            since_us: 0,
            last_exit_us: 0,
            entries: 0,
            trap_kind: 0,
            trap_since_us: 0,
            trap_entries: 0,
        }
    }

    /// No program has run.
    pub fn new() -> (r: Self)
        ensures
            r == ActiveUser::nobody(),
    {
        ActiveUser {
            pid: 0,
            since_us: 0,
            last_exit_us: 0,
            entries: 0,
            trap_kind: 0,
            trap_since_us: 0,
            trap_entries: 0,
        }
    }

    /// Notes that a program begins to run.
    pub fn note_user_run_enter(&mut self, pid: usize, now: usize)
        ensures
            *final(self) == (ActiveUser {
                pid,
                since_us: now,
                entries: old(self).entries.wrapping_add(1),
                ..*old(self)
            }),
    {
        self.since_us = now;
        self.entries = self.entries.wrapping_add(1);
        self.pid = pid;
    }

    /// Notes that the program has stopped running.
    pub fn note_user_run_exit(&mut self, now: usize)
        ensures
            *final(self) == (ActiveUser { pid: 0, last_exit_us: now, ..*old(self) }),
    {
        self.pid = 0;
        self.last_exit_us = now;
    }

    /// Notes that the program is in a trap.
    pub fn note_user_trap_enter(&mut self, kind: usize, now: usize)
        ensures
            *final(self) == (ActiveUser {
                trap_kind: kind,
                trap_since_us: now,
                trap_entries: old(self).trap_entries.wrapping_add(1),
                ..*old(self)
            }),
    {
        self.trap_since_us = now;
        self.trap_entries = self.trap_entries.wrapping_add(1);
        self.trap_kind = kind;
    }

    /// Notes that the program has left its trap.
    pub fn note_user_trap_exit(&mut self)
        ensures
            *final(self) == (ActiveUser { trap_kind: 0, ..*old(self) }),
    {
        self.trap_kind = 0;
    }
}

impl BlockedOwner {
    /// Counts that the processor begins to wait for a task that it owns.
    pub fn note_blocked_owner_enter(&mut self)
        ensures
            *final(self) == (BlockedOwner {
                current: old(self).current.wrapping_add(1),
                max: greater(old(self).max, old(self).current.wrapping_add(1)),
                enters: old(self).enters.wrapping_add(1),
                ..*old(self)
            }),
    {
        self.current = self.current.wrapping_add(1);
        self.max = greater_of(self.max, self.current);
        self.enters = self.enters.wrapping_add(1);
    }

    /// Counts that the processor has stopped waiting for one.
    pub fn note_blocked_owner_exit(&mut self)
        ensures
            *final(self) == (BlockedOwner {
                current: if old(self).current == 0 {
                    0
                } else {
                    (old(self).current - 1) as usize
                },
                exits: old(self).exits.wrapping_add(1),
                ..*old(self)
            }),
    {
        if self.current > 0 {
            self.current = self.current - 1;
        }
        self.exits = self.exits.wrapping_add(1);
    }

    /// Counts that another task was run meanwhile.
    pub fn note_blocked_owner_loop_dispatch(&mut self)
        ensures
            *final(self) == (BlockedOwner {
                loop_dispatches: old(self).loop_dispatches.wrapping_add(1),
                ..*old(self)
            }),
    {
        self.loop_dispatches = self.loop_dispatches.wrapping_add(1);
    }

    /// Counts that a task was handed back to the processor that owns it.
    pub fn note_blocked_owner_wake(&mut self)
        ensures
            *final(self) == (BlockedOwner {
                wake_to_owner: old(self).wake_to_owner.wrapping_add(1),
                ..*old(self)
            }),
    {
        self.wake_to_owner = self.wake_to_owner.wrapping_add(1);
    }

    /// Counts a wait with a time limit.
    pub fn note_blocked_owner_timed_loop(&mut self, elapsed_us: usize, empty_iterations: usize)
        ensures
            *final(self) == (BlockedOwner {
                timed_loops: old(self).timed_loops.wrapping_add(1),
                timed_total_us: old(self).timed_total_us.wrapping_add(elapsed_us),
                timed_max_us: greater(old(self).timed_max_us, elapsed_us),
                empty_iterations: old(self).empty_iterations.wrapping_add(empty_iterations),
                ..*old(self)
            }),
    {
        self.timed_loops = self.timed_loops.wrapping_add(1);
        self.timed_total_us = self.timed_total_us.wrapping_add(elapsed_us);
        self.timed_max_us = greater_of(self.timed_max_us, elapsed_us);
        self.empty_iterations = self.empty_iterations.wrapping_add(empty_iterations);
    }
}

impl CacheCounts {
    /// Counts the names of a path that were looked up.
    pub fn note_path_component_lookup(&mut self, components: usize)
        ensures
            *final(self) == (CacheCounts {
                path_components: old(self).path_components.wrapping_add(components),
                ..*old(self)
            }),
    {
        self.path_components = self.path_components.wrapping_add(components);
    }

    /// Counts whether a path was remembered, and whether as missing.
    pub fn note_path_cache(&mut self, hit: bool, negative_hit: bool)
        ensures
            *final(self) == (CacheCounts {
                path_hit: up_if(old(self).path_hit, hit),
                path_miss: up_if(old(self).path_miss, !hit),
                negative_path_hit: up_if(old(self).negative_path_hit, negative_hit),
                ..*old(self)
            }),
    {
        self.path_hit = add_if(self.path_hit, hit);
        self.path_miss = add_if(self.path_miss, !hit);
        self.negative_path_hit = add_if(self.negative_path_hit, negative_hit);
    }

    /// Counts whether a directory was remembered.
    pub fn note_dir_cache(&mut self, hit: bool)
        ensures
            *final(self) == (CacheCounts {
                dir_hit: up_if(old(self).dir_hit, hit),
                dir_miss: up_if(old(self).dir_miss, !hit),
                ..*old(self)
            }),
    {
        self.dir_hit = add_if(self.dir_hit, hit);
        self.dir_miss = add_if(self.dir_miss, !hit);
    }

    /// Counts whether an inode was remembered.
    pub fn note_inode_metadata_cache(&mut self, hit: bool)
        ensures
            *final(self) == (CacheCounts {
                inode_metadata_hit: up_if(old(self).inode_metadata_hit, hit),
                inode_metadata_miss: up_if(old(self).inode_metadata_miss, !hit),
                ..*old(self)
            }),
    {
        self.inode_metadata_hit = add_if(self.inode_metadata_hit, hit);
        self.inode_metadata_miss = add_if(self.inode_metadata_miss, !hit);
    }

    /// Counts whether an inode, what is told of it and a block were remembered.
    pub fn note_cache(&mut self, inode_hit: bool, metadata_hit: bool, block_hit: bool)
        ensures
            *final(self) == (CacheCounts {
                inode_hit: up_if(old(self).inode_hit, inode_hit),
                inode_miss: up_if(old(self).inode_miss, !inode_hit),
                metadata_hit: up_if(old(self).metadata_hit, metadata_hit),
                metadata_miss: up_if(old(self).metadata_miss, !metadata_hit),
                block_hit: up_if(old(self).block_hit, block_hit),
                block_miss: up_if(old(self).block_miss, !block_hit),
                ..*old(self)
            }),
    {
        self.inode_hit = add_if(self.inode_hit, inode_hit);
        self.inode_miss = add_if(self.inode_miss, !inode_hit);
        self.metadata_hit = add_if(self.metadata_hit, metadata_hit);
        self.metadata_miss = add_if(self.metadata_miss, !metadata_hit);
        self.block_hit = add_if(self.block_hit, block_hit);
        self.block_miss = add_if(self.block_miss, !block_hit);
    }

    /// Counts whether a block was remembered.
    pub fn note_block_cache(&mut self, hit: bool)
        ensures
            *final(self) == (CacheCounts {
                block_hit: up_if(old(self).block_hit, hit),
                block_miss: up_if(old(self).block_miss, !hit),
                ..*old(self)
            }),
    {
        self.block_hit = add_if(self.block_hit, hit);
        self.block_miss = add_if(self.block_miss, !hit);
    }

    /// Counts what was asked of the disk.
    pub fn note_virtio_request(&mut self, bytes: usize, queue_us: usize, complete_us: usize)
        ensures
            *final(self) == (CacheCounts {
                virtio_requests: old(self).virtio_requests.wrapping_add(1),
                virtio_bytes: old(self).virtio_bytes.wrapping_add(bytes),
                virtio_queue_us: old(self).virtio_queue_us.wrapping_add(queue_us),
                virtio_complete_us: old(self).virtio_complete_us.wrapping_add(complete_us),
                ..*old(self)
            }),
    {
        self.virtio_requests = self.virtio_requests.wrapping_add(1);
        self.virtio_bytes = self.virtio_bytes.wrapping_add(bytes);
        self.virtio_queue_us = self.virtio_queue_us.wrapping_add(queue_us);
        self.virtio_complete_us = self.virtio_complete_us.wrapping_add(complete_us);
    }
}

impl VmaCount {
    /// Notes how many areas of memory a program has.
    pub fn note_vma_count(&mut self, count: usize)
        ensures
            *final(self) == (VmaCount { current: count, max: greater(old(self).max, count) }),
    {
        self.current = count;
        self.max = greater_of(self.max, count);
    }
}

impl MmCounts {
    /// Counts that an address space was switched to, and whether it was there
    /// already.
    pub fn note_root_activation(&mut self, user: bool, redundant: bool)
        ensures
            *final(self) == (MmCounts {
                user_root: up_if(old(self).user_root, user),
                kernel_root: up_if(old(self).kernel_root, !user),
                redundant_root: up_if(old(self).redundant_root, redundant),
                page_table_writes: up_if(old(self).page_table_writes, !redundant),
                ..*old(self)
            }),
    {
        self.user_root = add_if(self.user_root, user);
        self.kernel_root = add_if(self.kernel_root, !user);
        self.redundant_root = add_if(self.redundant_root, redundant);
        self.page_table_writes = add_if(self.page_table_writes, !redundant);
    }

    /// Counts that translations were forgotten here.
    pub fn note_local_tlb_flush(&mut self)
        ensures
            *final(self) == (MmCounts {
                local_flush: old(self).local_flush.wrapping_add(1),
                ..*old(self)
            }),
    {
        self.local_flush = self.local_flush.wrapping_add(1);
    }

    /// Counts that other processors had to forget translations.
    pub fn note_remote_shootdown(&mut self, targets: usize)
        ensures
            *final(self) == (MmCounts {
                remote_shootdown: old(self).remote_shootdown.wrapping_add(1),
                remote_targets: old(self).remote_targets.wrapping_add(targets),
                ..*old(self)
            }),
    {
        self.remote_shootdown = self.remote_shootdown.wrapping_add(1);
        self.remote_targets = self.remote_targets.wrapping_add(targets);
    }
}

impl AnonymousVma {
    /// Counts that an area was filled in, and which neighbours it could be
    /// joined with.
    pub fn note_anonymous_vma_install(
        &mut self,
        left_mergeable: bool,
        right_mergeable: bool,
        vma_count: usize,
        pages: usize,
    )
        ensures
            *final(self) == (AnonymousVma {
                installs: old(self).installs.wrapping_add(1),
                left: up_if(old(self).left, left_mergeable),
                right: up_if(old(self).right, right_mergeable),
                both: up_if(old(self).both, left_mergeable && right_mergeable),
                neither: up_if(old(self).neither, !left_mergeable && !right_mergeable),
                current: vma_count,
                max: greater(old(self).max, vma_count),
                pages: old(self).pages.wrapping_add(pages),
                pages_max: greater(old(self).pages_max, pages),
            }),
    {
        self.installs = self.installs.wrapping_add(1);
        self.left = add_if(self.left, left_mergeable);
        self.right = add_if(self.right, right_mergeable);
        self.both = add_if(self.both, left_mergeable && right_mergeable);
        self.neither = add_if(self.neither, !left_mergeable && !right_mergeable);
        self.current = vma_count;
        self.max = greater_of(self.max, vma_count);
        self.pages = self.pages.wrapping_add(pages);
        self.pages_max = greater_of(self.pages_max, pages);
    }
}

impl AnonymousMove {
    /// What joining an area with its left neighbour counts.
    pub open spec fn with_left(
        self,
        no_frame_realloc: bool,
        shrink_empty_vma: bool,
        existing_frames: usize,
        remove_suffix: usize,
    ) -> AnonymousMove {
        AnonymousMove {
            left_selected: self.left_selected.wrapping_add(1),
            left_no_realloc: up_if(self.left_no_realloc, no_frame_realloc),
            left_frame_relocate: if no_frame_realloc {
                self.left_frame_relocate
            } else {
                self.left_frame_relocate.wrapping_add(existing_frames)
            },
            left_shrink: up_if(self.left_shrink, shrink_empty_vma),
            left_remove: up_if(self.left_remove, !shrink_empty_vma),
            left_remove_suffix: if shrink_empty_vma {
                self.left_remove_suffix
            } else {
                self.left_remove_suffix.wrapping_add(remove_suffix)
            },
            left_remove_suffix_max: if shrink_empty_vma {
                self.left_remove_suffix_max
            } else {
                greater(self.left_remove_suffix_max, remove_suffix)
            },
            ..self
        }
    }

    /// What joining an area with its right neighbour counts.
    pub open spec fn with_right(
        self,
        no_frame_realloc: bool,
        shrink_empty_vma: bool,
        existing_frames: usize,
        remove_suffix: usize,
    ) -> AnonymousMove {
        AnonymousMove {
            right_selected: self.right_selected.wrapping_add(1),
            right_no_realloc: up_if(self.right_no_realloc, no_frame_realloc),
            right_frame_move: self.right_frame_move.wrapping_add(existing_frames),
            right_shrink: up_if(self.right_shrink, shrink_empty_vma),
            right_remove: up_if(self.right_remove, !shrink_empty_vma),
            right_remove_suffix: if shrink_empty_vma {
                self.right_remove_suffix
            } else {
                self.right_remove_suffix.wrapping_add(remove_suffix)
            },
            right_remove_suffix_max: if shrink_empty_vma {
                self.right_remove_suffix_max
            } else {
                greater(self.right_remove_suffix_max, remove_suffix)
            },
            ..self
        }
    }

    /// Counts that an area was joined with a neighbour, and what that cost.
    pub fn note_anonymous_move_shape(
        &mut self,
        left_selected: bool,
        no_frame_realloc: bool,
        shrink_empty_vma: bool,
        existing_frames: usize,
        remove_suffix: usize,
    )
        ensures
            ({
                let side = if left_selected {
                    old(self).with_left(
                        no_frame_realloc,
                        shrink_empty_vma,
                        existing_frames,
                        remove_suffix,
                    )
                } else {
                    old(self).with_right(
                        no_frame_realloc,
                        shrink_empty_vma,
                        existing_frames,
                        remove_suffix,
                    )
                };
                *final(self) == (AnonymousMove {
                    zero_metadata: up_if(
                        old(self).zero_metadata,
                        no_frame_realloc && shrink_empty_vma && (left_selected || existing_frames
                            == 0),
                    ),
                    ..side
                })
            }),
    {
        if left_selected {
            self.left_selected = self.left_selected.wrapping_add(1);
            if no_frame_realloc {
                self.left_no_realloc = self.left_no_realloc.wrapping_add(1);
            } else {
                self.left_frame_relocate = self.left_frame_relocate.wrapping_add(existing_frames);
            }
            if shrink_empty_vma {
                self.left_shrink = self.left_shrink.wrapping_add(1);
            } else {
                self.left_remove = self.left_remove.wrapping_add(1);
                self.left_remove_suffix = self.left_remove_suffix.wrapping_add(remove_suffix);
                self.left_remove_suffix_max = greater_of(
                    self.left_remove_suffix_max,
                    remove_suffix,
                );
            }
        } else {
            self.right_selected = self.right_selected.wrapping_add(1);
            if no_frame_realloc {
                self.right_no_realloc = self.right_no_realloc.wrapping_add(1);
            }
            self.right_frame_move = self.right_frame_move.wrapping_add(existing_frames);
            if shrink_empty_vma {
                self.right_shrink = self.right_shrink.wrapping_add(1);
            } else {
                self.right_remove = self.right_remove.wrapping_add(1);
                self.right_remove_suffix = self.right_remove_suffix.wrapping_add(remove_suffix);
                self.right_remove_suffix_max = greater_of(
                    self.right_remove_suffix_max,
                    remove_suffix,
                );
            }
        }
        if no_frame_realloc && shrink_empty_vma && (left_selected || existing_frames == 0) {
            self.zero_metadata = self.zero_metadata.wrapping_add(1);
        }
    }
}

impl AnonymousCoalesce {
    /// Counts that all areas were gone through, and what that cost.
    pub fn note_anonymous_coalesce_detail(
        &mut self,
        areas: usize,
        sort_us: usize,
        scan_us: usize,
        total_us: usize,
        merges: usize,
        merged_frames: usize,
        frame_reallocs: usize,
        frame_relocate: usize,
    )
        ensures
            *final(self) == (AnonymousCoalesce {
                calls: old(self).calls.wrapping_add(1),
                areas: old(self).areas.wrapping_add(areas),
                areas_max: greater(old(self).areas_max, areas),
                sort_us: old(self).sort_us.wrapping_add(sort_us),
                scan_us: old(self).scan_us.wrapping_add(scan_us),
                total_us: old(self).total_us.wrapping_add(total_us),
                merges: old(self).merges.wrapping_add(merges),
                merged_frames: old(self).merged_frames.wrapping_add(merged_frames),
                frame_reallocs: old(self).frame_reallocs.wrapping_add(frame_reallocs),
                frame_relocate: old(self).frame_relocate.wrapping_add(frame_relocate),
            }),
    {
        self.calls = self.calls.wrapping_add(1);
        self.areas = self.areas.wrapping_add(areas);
        self.areas_max = greater_of(self.areas_max, areas);
        self.sort_us = self.sort_us.wrapping_add(sort_us);
        self.scan_us = self.scan_us.wrapping_add(scan_us);
        self.total_us = self.total_us.wrapping_add(total_us);
        self.merges = self.merges.wrapping_add(merges);
        self.merged_frames = self.merged_frames.wrapping_add(merged_frames);
        self.frame_reallocs = self.frame_reallocs.wrapping_add(frame_reallocs);
        self.frame_relocate = self.frame_relocate.wrapping_add(frame_relocate);
    }
}

impl PollCounts {
    /// Counts that a task asks about several files.
    pub fn note_ppoll_call(&mut self)
        ensures
            *final(self) == (PollCounts {
                ppoll_calls: old(self).ppoll_calls.wrapping_add(1),
                ..*old(self)
            }),
    {
        self.ppoll_calls = self.ppoll_calls.wrapping_add(1);
    }

    /// Counts that it waits, for some of them or for any.
    pub fn note_ppoll_sleep(&mut self, keyed: bool)
        ensures
            *final(self) == (PollCounts {
                keyed_sleeps: up_if(old(self).keyed_sleeps, keyed),
                unkeyed_sleeps: up_if(old(self).unkeyed_sleeps, !keyed),
                ..*old(self)
            }),
    {
        self.keyed_sleeps = add_if(self.keyed_sleeps, keyed);
        self.unkeyed_sleeps = add_if(self.unkeyed_sleeps, !keyed);
    }
}

impl IpcCounts {
    /// Counts that a pipe was created.
    pub fn note_pipe2(&mut self, flags: usize, nonblock_flag: usize, cloexec_flag: usize)
        ensures
            *final(self) == (IpcCounts {
                pipe2_calls: old(self).pipe2_calls.wrapping_add(1),
                pipe2_nonblock: up_if(old(self).pipe2_nonblock, flags & nonblock_flag != 0),
                pipe2_cloexec: up_if(old(self).pipe2_cloexec, flags & cloexec_flag != 0),
                ..*old(self)
            }),
    {
        self.pipe2_calls = self.pipe2_calls.wrapping_add(1);
        self.pipe2_nonblock = add_if(self.pipe2_nonblock, flags & nonblock_flag != 0);
        self.pipe2_cloexec = add_if(self.pipe2_cloexec, flags & cloexec_flag != 0);
    }

    /// Counts that a pipe was read.
    pub fn note_pipe_read(&mut self, result: Result<usize, SysErrNo>)
        ensures
            *final(self) == (IpcCounts {
                pipe_read_calls: old(self).pipe_read_calls.wrapping_add(1),
                pipe_read_eof: up_if(old(self).pipe_read_eof, result == Ok::<usize, SysErrNo>(0)),
                pipe_read_bytes: match result {
                    Ok(bytes) => old(self).pipe_read_bytes.wrapping_add(bytes),
                    Err(_) => old(self).pipe_read_bytes,
                },
                pipe_read_eagain: up_if(
                    old(self).pipe_read_eagain,
                    result == Err::<usize, SysErrNo>(SysErrNo::EAGAIN),
                ),
                ..*old(self)
            }),
    {
        self.pipe_read_calls = self.pipe_read_calls.wrapping_add(1);
        match result {
            Ok(bytes) => {
                if bytes == 0 {
                    self.pipe_read_eof = self.pipe_read_eof.wrapping_add(1);
                }
                self.pipe_read_bytes = self.pipe_read_bytes.wrapping_add(bytes);
            },
            Err(e) => {
                if e == SysErrNo::EAGAIN {
                    self.pipe_read_eagain = self.pipe_read_eagain.wrapping_add(1);
                }
            },
        }
    }

    /// Counts that a pipe was written.
    pub fn note_pipe_write(&mut self, result: Result<usize, SysErrNo>)
        ensures
            *final(self) == (IpcCounts {
                pipe_write_calls: old(self).pipe_write_calls.wrapping_add(1),
                pipe_write_bytes: match result {
                    Ok(bytes) => old(self).pipe_write_bytes.wrapping_add(bytes),
                    Err(_) => old(self).pipe_write_bytes,
                },
                pipe_write_eagain: up_if(
                    old(self).pipe_write_eagain,
                    result == Err::<usize, SysErrNo>(SysErrNo::EAGAIN),
                ),
                pipe_write_epipe: up_if(
                    old(self).pipe_write_epipe,
                    result == Err::<usize, SysErrNo>(SysErrNo::EPIPE),
                ),
                ..*old(self)
            }),
    {
        self.pipe_write_calls = self.pipe_write_calls.wrapping_add(1);
        match result {
            Ok(bytes) => {
                self.pipe_write_bytes = self.pipe_write_bytes.wrapping_add(bytes);
            },
            Err(e) => {
                if e == SysErrNo::EAGAIN {
                    self.pipe_write_eagain = self.pipe_write_eagain.wrapping_add(1);
                } else if e == SysErrNo::EPIPE {
                    self.pipe_write_epipe = self.pipe_write_epipe.wrapping_add(1);
                }
            },
        }
    }

    /// Counts that a task waits for a pipe.
    pub fn note_pipe_wait(&mut self, read: bool)
        ensures
            *final(self) == (IpcCounts {
                pipe_read_waits: up_if(old(self).pipe_read_waits, read),
                pipe_write_waits: up_if(old(self).pipe_write_waits, !read),
                ..*old(self)
            }),
    {
        self.pipe_read_waits = add_if(self.pipe_read_waits, read);
        self.pipe_write_waits = add_if(self.pipe_write_waits, !read);
    }

    /// Counts that tasks were woken that waited for a pipe.
    pub fn note_pipe_wake(&mut self, readers: bool, woken: usize)
        ensures
            *final(self) == (if readers {
                IpcCounts {
                    reader_wake_calls: old(self).reader_wake_calls.wrapping_add(1),
                    reader_woken: old(self).reader_woken.wrapping_add(woken),
                    ..*old(self)
                }
            } else {
                IpcCounts {
                    writer_wake_calls: old(self).writer_wake_calls.wrapping_add(1),
                    writer_woken: old(self).writer_woken.wrapping_add(woken),
                    ..*old(self)
                }
            }),
    {
        if readers {
            self.reader_wake_calls = self.reader_wake_calls.wrapping_add(1);
            self.reader_woken = self.reader_woken.wrapping_add(woken);
        } else {
            self.writer_wake_calls = self.writer_wake_calls.wrapping_add(1);
            self.writer_woken = self.writer_woken.wrapping_add(woken);
        }
    }
}

/// The numbers of the commands that ask about flags and set them.
#[derive(Clone, Copy, PartialEq, Eq, Structural, Debug)]
pub struct FlagCommands {
    pub getfd: usize,
    pub setfd: usize,
    pub getfl: usize,
    pub setfl: usize,
}

/// How many bits of a number are set.
pub open spec fn ones(n: nat) -> nat
    decreases n,
{
    if n == 0 {
        0
    } else {
        ones(n / 2) + n % 2
    }
}

fn count_ones(n: usize) -> (r: usize)
    ensures
        r == ones(n as nat),
        r <= n,
{
    let mut left: usize = n;
    let mut count: usize = 0;
    while left > 0
        invariant
            count + ones(left as nat) == ones(n as nat),
            count + left <= n,
        decreases left,
    {
        count = count + left % 2;
        left = left / 2;
    }
    count
}

impl FdCounts {
    /// Counts that an open file was copied.
    pub fn note_dup(&mut self, pipe: bool)
        ensures
            *final(self) == (FdCounts {
                dup_calls: old(self).dup_calls.wrapping_add(1),
                dup_pipe_calls: up_if(old(self).dup_pipe_calls, pipe),
                ..*old(self)
            }),
    {
        self.dup_calls = self.dup_calls.wrapping_add(1);
        self.dup_pipe_calls = add_if(self.dup_pipe_calls, pipe);
    }

    /// Counts that flags were asked about or set.
    pub fn note_fcntl(&mut self, cmd: usize, pipe: bool, numbers: FlagCommands)
        ensures
            *final(self) == (if cmd == numbers.getfd {
                FdCounts { getfd: old(self).getfd.wrapping_add(1), ..*old(self) }
            } else if cmd == numbers.setfd {
                FdCounts { setfd: old(self).setfd.wrapping_add(1), ..*old(self) }
            } else if cmd == numbers.getfl {
                FdCounts {
                    getfl: old(self).getfl.wrapping_add(1),
                    pipe_getfl: up_if(old(self).pipe_getfl, pipe),
                    ..*old(self)
                }
            } else if cmd == numbers.setfl {
                FdCounts {
                    setfl: old(self).setfl.wrapping_add(1),
                    pipe_setfl: up_if(old(self).pipe_setfl, pipe),
                    ..*old(self)
                }
            } else {
                *old(self)
            }),
    {
        if cmd == numbers.getfd {
            self.getfd = self.getfd.wrapping_add(1);
        } else if cmd == numbers.setfd {
            self.setfd = self.setfd.wrapping_add(1);
        } else if cmd == numbers.getfl {
            self.getfl = self.getfl.wrapping_add(1);
            self.pipe_getfl = add_if(self.pipe_getfl, pipe);
        } else if cmd == numbers.setfl {
            self.setfl = self.setfl.wrapping_add(1);
            self.pipe_setfl = add_if(self.pipe_setfl, pipe);
        }
    }

    /// Counts copies of an end of a pipe, and those that disagree.
    pub fn note_pipe_aliases(&mut self, aliases: usize, mismatches: usize, outside: usize)
        ensures
            *final(self) == (FdCounts {
                pipe_alias_observations: old(self).pipe_alias_observations.wrapping_add(aliases),
                pipe_alias_mismatches: old(self).pipe_alias_mismatches.wrapping_add(mismatches),
                pipe_external_aliases_at_setfl: old(self).pipe_external_aliases_at_setfl.wrapping_add(outside),
                ..*old(self)
            }),
    {
        self.pipe_alias_observations = self.pipe_alias_observations.wrapping_add(aliases);
        self.pipe_alias_mismatches = self.pipe_alias_mismatches.wrapping_add(mismatches);
        self.pipe_external_aliases_at_setfl = self.pipe_external_aliases_at_setfl.wrapping_add(
            outside,
        );
    }

    /// Counts the ends of pipes that another program is started with.
    pub fn note_exec_pipes(&mut self, endpoints: usize, cloexec: usize, closed: usize)
        ensures
            *final(self) == (FdCounts {
                exec_calls: old(self).exec_calls.wrapping_add(1),
                exec_pipe_endpoints: old(self).exec_pipe_endpoints.wrapping_add(endpoints),
                exec_pipe_cloexec: old(self).exec_pipe_cloexec.wrapping_add(cloexec),
                exec_pipe_closed: old(self).exec_pipe_closed.wrapping_add(closed),
                ..*old(self)
            }),
    {
        self.exec_calls = self.exec_calls.wrapping_add(1);
        self.exec_pipe_endpoints = self.exec_pipe_endpoints.wrapping_add(endpoints);
        self.exec_pipe_cloexec = self.exec_pipe_cloexec.wrapping_add(cloexec);
        self.exec_pipe_closed = self.exec_pipe_closed.wrapping_add(closed);
    }

    /// Counts that a program asks which processors it may use.
    pub fn note_sched_getaffinity(&mut self, mask: usize)
        ensures
            *final(self) == (FdCounts {
                sched_getaffinity_calls: old(self).sched_getaffinity_calls.wrapping_add(1),
                affinity_mask_bits_total: old(self).affinity_mask_bits_total.wrapping_add(
                    ones(mask as nat) as usize,
                ),
                affinity_mask_bits_max: greater(
                    old(self).affinity_mask_bits_max,
                    ones(mask as nat) as usize,
                ),
                ..*old(self)
            }),
    {
        let bits: usize = count_ones(mask);
        self.sched_getaffinity_calls = self.sched_getaffinity_calls.wrapping_add(1);
        self.affinity_mask_bits_total = self.affinity_mask_bits_total.wrapping_add(bits);
        self.affinity_mask_bits_max = greater_of(self.affinity_mask_bits_max, bits);
    }
}

impl MmapShape {
    /// Counts what kind of mapping is asked for.
    pub fn note_mmap_shape(&mut self, anonymous: bool, fixed: bool, hinted: bool, lazy: bool)
        ensures
            *final(self) == (MmapShape {
                anonymous: up_if(old(self).anonymous, anonymous),
                file: up_if(old(self).file, !anonymous),
                fixed: up_if(old(self).fixed, fixed),
                hinted: up_if(old(self).hinted, hinted),
                lazy: up_if(old(self).lazy, lazy),
                eager: up_if(old(self).eager, !lazy),
                ..*old(self)
            }),
    {
        self.anonymous = add_if(self.anonymous, anonymous);
        self.file = add_if(self.file, !anonymous);
        self.fixed = add_if(self.fixed, fixed);
        self.hinted = add_if(self.hinted, hinted);
        self.lazy = add_if(self.lazy, lazy);
        self.eager = add_if(self.eager, !lazy);
    }

    /// Counts where a mapping was put.
    pub fn note_mmap_placement(&mut self, start: u64)
        ensures
            *final(self) == (MmapShape {
                high_arena: up_if(old(self).high_arena, high_arena().has(start as int)),
                low_arena: up_if(old(self).low_arena, low_arena().has(start as int)),
                ..*old(self)
            }),
    {
        proof {
            crate::config::user_va::arenas_are_apart(start as int, 0, 0);
        }
        if high_mmap_arena().contains_addr(start) {
            self.high_arena = self.high_arena.wrapping_add(1);
        } else if low_mmap_arena().contains_addr(start) {
            self.low_arena = self.low_arena.wrapping_add(1);
        }
    }
}

/// The class of a length: up to 64 KiB, 1 MiB, 16 MiB, 256 MiB, or more.
#[derive(Clone, Copy, PartialEq, Eq, Structural, Debug)]
pub enum LengthClass {
    UpTo64K,
    UpTo1M,
    UpTo16M,
    UpTo256M,
    More,
}

/// The class of a length.
pub open spec fn class_of(length: usize) -> LengthClass {
    if length <= 0x1_0000 {
        LengthClass::UpTo64K
    } else if length <= 0x10_0000 {
        LengthClass::UpTo1M
    } else if length <= 0x100_0000 {
        LengthClass::UpTo16M
    } else if length <= 0x1000_0000 {
        LengthClass::UpTo256M
    } else {
        LengthClass::More
    }
}

/// The class of a length.
pub fn mmap_length_bucket(length: usize) -> (r: LengthClass)
    ensures
        r == class_of(length),
{
    if length <= 0x1_0000 {
        LengthClass::UpTo64K
    } else if length <= 0x10_0000 {
        LengthClass::UpTo1M
    } else if length <= 0x100_0000 {
        LengthClass::UpTo16M
    } else if length <= 0x1000_0000 {
        LengthClass::UpTo256M
    } else {
        LengthClass::More
    }
}

impl MmapResult {
    /// Counts the length of a mapping that is asked for.
    pub fn note_mmap_request(&mut self, length: usize)
        ensures
            *final(self) == (MmapResult {
                len_le_64k: up_if(old(self).len_le_64k, class_of(length) == LengthClass::UpTo64K),
                len_le_1m: up_if(old(self).len_le_1m, class_of(length) == LengthClass::UpTo1M),
                len_le_16m: up_if(old(self).len_le_16m, class_of(length) == LengthClass::UpTo16M),
                len_le_256m: up_if(old(self).len_le_256m, class_of(length) == LengthClass::UpTo256M),
                len_gt_256m: up_if(old(self).len_gt_256m, class_of(length) == LengthClass::More),
                ..*old(self)
            }),
    {
        let class = mmap_length_bucket(length);
        self.len_le_64k = add_if(self.len_le_64k, class == LengthClass::UpTo64K);
        self.len_le_1m = add_if(self.len_le_1m, class == LengthClass::UpTo1M);
        self.len_le_16m = add_if(self.len_le_16m, class == LengthClass::UpTo16M);
        self.len_le_256m = add_if(self.len_le_256m, class == LengthClass::UpTo256M);
        self.len_gt_256m = add_if(self.len_gt_256m, class == LengthClass::More);
    }

    /// Counts that addresses were found.
    pub fn note_mmap_select_ok(&mut self)
        ensures
            *final(self) == (MmapResult {
                select_ok: old(self).select_ok.wrapping_add(1),
                ..*old(self)
            }),
    {
        self.select_ok = self.select_ok.wrapping_add(1);
    }

    /// Counts that none were found. The gaps are to be looked at the first time
    /// and then every 4096th time.
    pub fn note_mmap_select_enomem(&mut self, length: usize, vmas: usize) -> (look: bool)
        ensures
            *final(self) == (MmapResult {
                select_enomem: old(self).select_enomem.wrapping_add(1),
                failed_len_max: greater(old(self).failed_len_max, length),
                failed_vmas_max: greater(old(self).failed_vmas_max, vmas),
                ..*old(self)
            }),
            look == (old(self).select_enomem % 4096 == 0),
    {
        let prior: usize = self.select_enomem;
        self.select_enomem = prior.wrapping_add(1);
        self.failed_len_max = greater_of(self.failed_len_max, length);
        self.failed_vmas_max = greater_of(self.failed_vmas_max, vmas);
        prior % 4096 == 0
    }

    /// Notes the greatest gap that there was.
    pub fn note_mmap_failed_gap(&mut self, max_gap: usize)
        ensures
            *final(self) == (MmapResult {
                failed_gap_max: greater(old(self).failed_gap_max, max_gap),
                ..*old(self)
            }),
    {
        self.failed_gap_max = greater_of(self.failed_gap_max, max_gap);
    }

    /// Counts that addresses had to be found anew.
    pub fn note_mmap_commit_reselect(&mut self, shape: &mut MmapShape, ok: bool)
        ensures
            *final(shape) == (MmapShape {
                commit_reselect: old(shape).commit_reselect.wrapping_add(1),
                ..*old(shape)
            }),
            *final(self) == (MmapResult {
                reselect_ok: up_if(old(self).reselect_ok, ok),
                reselect_enomem: up_if(old(self).reselect_enomem, !ok),
                ..*old(self)
            }),
    {
        shape.commit_reselect = shape.commit_reselect.wrapping_add(1);
        self.reselect_ok = add_if(self.reselect_ok, ok);
        self.reselect_enomem = add_if(self.reselect_enomem, !ok);
    }
}

impl MmapFailureShape {
    /// Counts the length of a mapping for which no addresses were found.
    pub fn note_failed_length(&mut self, length: usize)
        ensures
            *final(self) == (MmapFailureShape {
                len_le_64k: up_if(old(self).len_le_64k, class_of(length) == LengthClass::UpTo64K),
                len_le_1m: up_if(old(self).len_le_1m, class_of(length) == LengthClass::UpTo1M),
                len_le_16m: up_if(old(self).len_le_16m, class_of(length) == LengthClass::UpTo16M),
                len_le_256m: up_if(old(self).len_le_256m, class_of(length) == LengthClass::UpTo256M),
                len_gt_256m: up_if(old(self).len_gt_256m, class_of(length) == LengthClass::More),
                ..*old(self)
            }),
    {
        let class = mmap_length_bucket(length);
        self.len_le_64k = add_if(self.len_le_64k, class == LengthClass::UpTo64K);
        self.len_le_1m = add_if(self.len_le_1m, class == LengthClass::UpTo1M);
        self.len_le_16m = add_if(self.len_le_16m, class == LengthClass::UpTo16M);
        self.len_le_256m = add_if(self.len_le_256m, class == LengthClass::UpTo256M);
        self.len_gt_256m = add_if(self.len_gt_256m, class == LengthClass::More);
    }

    /// Counts where addresses were given up: below the place where new mappings
    /// are put, across it, or above.
    pub fn note_munmap_cursor(&mut self, start: usize, end: usize, cursor: usize)
        ensures
            ({
                let below = end <= cursor;
                let class = class_of(passed(end, start));
                *final(self) == (MmapFailureShape {
                    munmap_below_le_64k: up_if(
                        old(self).munmap_below_le_64k,
                        below && class == LengthClass::UpTo64K,
                    ),
                    munmap_below_le_1m: up_if(
                        old(self).munmap_below_le_1m,
                        below && class == LengthClass::UpTo1M,
                    ),
                    munmap_below_le_16m: up_if(
                        old(self).munmap_below_le_16m,
                        below && class == LengthClass::UpTo16M,
                    ),
                    munmap_below_le_256m: up_if(
                        old(self).munmap_below_le_256m,
                        below && class == LengthClass::UpTo256M,
                    ),
                    munmap_below_gt_256m: up_if(
                        old(self).munmap_below_gt_256m,
                        below && class == LengthClass::More,
                    ),
                    munmap_overlaps_cursor: up_if(
                        old(self).munmap_overlaps_cursor,
                        !below && start < cursor,
                    ),
                    munmap_at_or_above_cursor: up_if(
                        old(self).munmap_at_or_above_cursor,
                        !below && start >= cursor,
                    ),
                    ..*old(self)
                })
            }),
    {
        let below = end <= cursor;
        let class = mmap_length_bucket(end.saturating_sub(start));
        self.munmap_below_le_64k = add_if(
            self.munmap_below_le_64k,
            below && class == LengthClass::UpTo64K,
        );
        self.munmap_below_le_1m = add_if(
            self.munmap_below_le_1m,
            below && class == LengthClass::UpTo1M,
        );
        self.munmap_below_le_16m = add_if(
            self.munmap_below_le_16m,
            below && class == LengthClass::UpTo16M,
        );
        self.munmap_below_le_256m = add_if(
            self.munmap_below_le_256m,
            below && class == LengthClass::UpTo256M,
        );
        self.munmap_below_gt_256m = add_if(
            self.munmap_below_gt_256m,
            below && class == LengthClass::More,
        );
        self.munmap_overlaps_cursor = add_if(self.munmap_overlaps_cursor, !below && start < cursor);
        self.munmap_at_or_above_cursor = add_if(
            self.munmap_at_or_above_cursor,
            !below && start >= cursor,
        );
    }
}

impl ProcessProgress {
    /// Counts that a program has ended.
    pub fn note_process_exit(&mut self)
        ensures
            *final(self) == (ProcessProgress {
                exits: old(self).exits.wrapping_add(1),
                ..*old(self)
            }),
    {
        self.exits = self.exits.wrapping_add(1);
    }

    /// Counts who was woken by that.
    pub fn note_child_wake(&mut self, woken: usize)
        ensures
            *final(self) == (ProcessProgress {
                child_wake_calls: old(self).child_wake_calls.wrapping_add(1),
                child_woken: old(self).child_woken.wrapping_add(woken),
                ..*old(self)
            }),
    {
        self.child_wake_calls = self.child_wake_calls.wrapping_add(1);
        self.child_woken = self.child_woken.wrapping_add(woken);
    }
}

} // verus!

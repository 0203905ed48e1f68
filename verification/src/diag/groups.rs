//! Counters, in the groups in which they are reported.
use vstd::prelude::*;

use crate::diag::line::field_views;

verus! {

/// What is counted of a processor.
#[derive(Clone, Copy, PartialEq, Eq, Structural, Debug)]
pub struct CpuTicks {
    pub user_ticks: usize,
    pub kernel_ticks: usize,
    pub idle_ticks: usize,
    pub context_switches: usize,
    pub migrations: usize,
    pub runqueue_max: usize,
}

impl CpuTicks {
    /// Nothing has been counted.
    pub open spec fn nothing() -> CpuTicks {
        CpuTicks {
            user_ticks: 0,
            kernel_ticks: 0,
            idle_ticks: 0,
            context_switches: 0,
            migrations: 0,
            runqueue_max: 0,
        }
    }

    /// Nothing has been counted.
    pub fn new() -> (r: Self)
        ensures
            r == CpuTicks::nothing(),
    {
        CpuTicks {
            user_ticks: 0,
            kernel_ticks: 0,
            idle_ticks: 0,
            context_switches: 0,
            migrations: 0,
            runqueue_max: 0,
        }
    }

    /// The counters with their names.
    pub open spec fn named(self) -> Seq<(Seq<char>, usize)> {
        seq![
            ("user_ticks"@, self.user_ticks),
            ("kernel_ticks"@, self.kernel_ticks),
            ("idle_ticks"@, self.idle_ticks),
            ("context_switches"@, self.context_switches),
            ("migrations"@, self.migrations),
            ("runqueue_max"@, self.runqueue_max),
        ]
    }

    /// Adds the counters with their names to others.
    pub fn add_to(&self, v: &mut Vec<(&'static str, usize)>)
        ensures
            field_views(final(v)@) == field_views(old(v)@) + self.named(),
    {
        v.push(("user_ticks", self.user_ticks));
        v.push(("kernel_ticks", self.kernel_ticks));
        v.push(("idle_ticks", self.idle_ticks));
        v.push(("context_switches", self.context_switches));
        v.push(("migrations", self.migrations));
        v.push(("runqueue_max", self.runqueue_max));
        assert(field_views(v@) =~= field_views(old(v)@) + self.named());
    }
}

/// How often and how long programs ran on a processor, and why they stopped.
#[derive(Clone, Copy, PartialEq, Eq, Structural, Debug)]
pub struct UserRuns {
    pub count: usize,
    pub total_us: usize,
    pub max_us: usize,
    pub syscall: usize,
    pub timer: usize,
    pub irq: usize,
    pub other: usize,
}

impl UserRuns {
    /// Nothing has been counted.
    pub open spec fn nothing() -> UserRuns {
        UserRuns {
            count: 0,
            total_us: 0,
            max_us: 0,
            syscall: 0,
            timer: 0,
            irq: 0,
            other: 0,
        }
    }

    /// Nothing has been counted.
    pub fn new() -> (r: Self)
        ensures
            r == UserRuns::nothing(),
    {
        UserRuns {
            count: 0,
            total_us: 0,
            max_us: 0,
            syscall: 0,
            timer: 0,
            irq: 0,
            other: 0,
        }
    }

    /// The counters with their names.
    pub open spec fn named(self) -> Seq<(Seq<char>, usize)> {
        seq![
            ("count"@, self.count),
            ("total_us"@, self.total_us),
            ("max_us"@, self.max_us),
            ("syscall"@, self.syscall),
            ("timer"@, self.timer),
            ("irq"@, self.irq),
            ("other"@, self.other),
        ]
    }

    /// Adds the counters with their names to others.
    pub fn add_to(&self, v: &mut Vec<(&'static str, usize)>)
        ensures
            field_views(final(v)@) == field_views(old(v)@) + self.named(),
    {
        v.push(("count", self.count));
        v.push(("total_us", self.total_us));
        v.push(("max_us", self.max_us));
        v.push(("syscall", self.syscall));
        v.push(("timer", self.timer));
        v.push(("irq", self.irq));
        v.push(("other", self.other));
        assert(field_views(v@) =~= field_views(old(v)@) + self.named());
    }
}

/// What is counted of a processor that waits for tasks it owns.
#[derive(Clone, Copy, PartialEq, Eq, Structural, Debug)]
pub struct BlockedOwner {
    pub current: usize,
    pub max: usize,
    pub enters: usize,
    pub exits: usize,
    pub loop_dispatches: usize,
    pub timed_loops: usize,
    pub timed_total_us: usize,
    pub timed_max_us: usize,
    pub empty_iterations: usize,
    pub wake_to_owner: usize,
}

impl BlockedOwner {
    /// Nothing has been counted.
    pub open spec fn nothing() -> BlockedOwner {
        BlockedOwner {
            current: 0,
            max: 0,
            enters: 0,
            exits: 0,
            loop_dispatches: 0,
            timed_loops: 0,
            timed_total_us: 0,
            timed_max_us: 0,
            empty_iterations: 0,
            wake_to_owner: 0,
        }
    }

    /// Nothing has been counted.
    pub fn new() -> (r: Self)
        ensures
            r == BlockedOwner::nothing(),
    {
        BlockedOwner {
            current: 0,
            max: 0,
            enters: 0,
            exits: 0,
            loop_dispatches: 0,
            timed_loops: 0,
            timed_total_us: 0,
            timed_max_us: 0,
            empty_iterations: 0,
            wake_to_owner: 0,
        }
    }

    /// The counters with their names.
    pub open spec fn named(self) -> Seq<(Seq<char>, usize)> {
        seq![
            ("current"@, self.current),
            ("max"@, self.max),
            ("enters"@, self.enters),
            ("exits"@, self.exits),
            ("loop_dispatches"@, self.loop_dispatches),
            ("timed_loops"@, self.timed_loops),
            ("timed_total_us"@, self.timed_total_us),
            ("timed_max_us"@, self.timed_max_us),
            ("empty_iterations"@, self.empty_iterations),
            ("wake_to_owner"@, self.wake_to_owner),
        ]
    }

    /// Adds the counters with their names to others.
    pub fn add_to(&self, v: &mut Vec<(&'static str, usize)>)
        ensures
            field_views(final(v)@) == field_views(old(v)@) + self.named(),
    {
        v.push(("current", self.current));
        v.push(("max", self.max));
        v.push(("enters", self.enters));
        v.push(("exits", self.exits));
        v.push(("loop_dispatches", self.loop_dispatches));
        v.push(("timed_loops", self.timed_loops));
        v.push(("timed_total_us", self.timed_total_us));
        v.push(("timed_max_us", self.timed_max_us));
        v.push(("empty_iterations", self.empty_iterations));
        v.push(("wake_to_owner", self.wake_to_owner));
        assert(field_views(v@) =~= field_views(old(v)@) + self.named());
    }
}

/// Switches of address spaces and what they cost.
#[derive(Clone, Copy, PartialEq, Eq, Structural, Debug)]
pub struct MmCounts {
    pub user_root: usize,
    pub kernel_root: usize,
    pub redundant_root: usize,
    pub page_table_writes: usize,
    pub local_flush: usize,
    pub remote_shootdown: usize,
    pub remote_targets: usize,
}

impl MmCounts {
    /// Nothing has been counted.
    pub open spec fn nothing() -> MmCounts {
        MmCounts {
            user_root: 0,
            kernel_root: 0,
            redundant_root: 0,
            page_table_writes: 0,
            local_flush: 0,
            remote_shootdown: 0,
            remote_targets: 0,
        }
    }

    /// Nothing has been counted.
    pub fn new() -> (r: Self)
        ensures
            r == MmCounts::nothing(),
    {
        MmCounts {
            user_root: 0,
            kernel_root: 0,
            redundant_root: 0,
            page_table_writes: 0,
            local_flush: 0,
            remote_shootdown: 0,
            remote_targets: 0,
        }
    }

    /// The counters with their names.
    pub open spec fn named(self) -> Seq<(Seq<char>, usize)> {
        seq![
            ("user_root"@, self.user_root),
            ("kernel_root"@, self.kernel_root),
            ("redundant_root"@, self.redundant_root),
            ("page_table_writes"@, self.page_table_writes),
            ("local_flush"@, self.local_flush),
            ("remote_shootdown"@, self.remote_shootdown),
            ("remote_targets"@, self.remote_targets),
        ]
    }

    /// Adds the counters with their names to others.
    pub fn add_to(&self, v: &mut Vec<(&'static str, usize)>)
        ensures
            field_views(final(v)@) == field_views(old(v)@) + self.named(),
    {
        v.push(("user_root", self.user_root));
        v.push(("kernel_root", self.kernel_root));
        v.push(("redundant_root", self.redundant_root));
        v.push(("page_table_writes", self.page_table_writes));
        v.push(("local_flush", self.local_flush));
        v.push(("remote_shootdown", self.remote_shootdown));
        v.push(("remote_targets", self.remote_targets));
        assert(field_views(v@) =~= field_views(old(v)@) + self.named());
    }
}

/// Areas of memory that were filled in.
#[derive(Clone, Copy, PartialEq, Eq, Structural, Debug)]
pub struct AnonymousVma {
    pub installs: usize,
    pub left: usize,
    pub right: usize,
    pub both: usize,
    pub neither: usize,
    pub current: usize,
    pub max: usize,
    pub pages: usize,
    pub pages_max: usize,
}

impl AnonymousVma {
    /// Nothing has been counted.
    pub open spec fn nothing() -> AnonymousVma {
        AnonymousVma {
            installs: 0,
            left: 0,
            right: 0,
            both: 0,
            neither: 0,
            current: 0,
            max: 0,
            pages: 0,
            pages_max: 0,
        }
    }

    /// Nothing has been counted.
    pub fn new() -> (r: Self)
        ensures
            r == AnonymousVma::nothing(),
    {
        AnonymousVma {
            installs: 0,
            left: 0,
            right: 0,
            both: 0,
            neither: 0,
            current: 0,
            max: 0,
            pages: 0,
            pages_max: 0,
        }
    }

    /// The counters with their names.
    pub open spec fn named(self) -> Seq<(Seq<char>, usize)> {
        seq![
            ("installs"@, self.installs),
            ("left"@, self.left),
            ("right"@, self.right),
            ("both"@, self.both),
            ("neither"@, self.neither),
            ("current"@, self.current),
            ("max"@, self.max),
            ("pages"@, self.pages),
            ("pages_max"@, self.pages_max),
        ]
    }

    /// Adds the counters with their names to others.
    pub fn add_to(&self, v: &mut Vec<(&'static str, usize)>)
        ensures
            field_views(final(v)@) == field_views(old(v)@) + self.named(),
    {
        v.push(("installs", self.installs));
        v.push(("left", self.left));
        v.push(("right", self.right));
        v.push(("both", self.both));
        v.push(("neither", self.neither));
        v.push(("current", self.current));
        v.push(("max", self.max));
        v.push(("pages", self.pages));
        v.push(("pages_max", self.pages_max));
        assert(field_views(v@) =~= field_views(old(v)@) + self.named());
    }
}

/// How areas of memory were joined with a neighbour.
#[derive(Clone, Copy, PartialEq, Eq, Structural, Debug)]
pub struct AnonymousMove {
    pub left_selected: usize,
    pub left_no_realloc: usize,
    pub left_shrink: usize,
    pub left_remove: usize,
    pub left_frame_relocate: usize,
    pub left_remove_suffix: usize,
    pub left_remove_suffix_max: usize,
    pub right_selected: usize,
    pub right_no_realloc: usize,
    pub right_shrink: usize,
    pub right_remove: usize,
    pub right_frame_move: usize,
    pub right_remove_suffix: usize,
    pub right_remove_suffix_max: usize,
    pub zero_metadata: usize,
}

impl AnonymousMove {
    /// Nothing has been counted.
    pub open spec fn nothing() -> AnonymousMove {
        AnonymousMove {
            left_selected: 0,
            left_no_realloc: 0,
            left_shrink: 0,
            left_remove: 0,
            left_frame_relocate: 0,
            left_remove_suffix: 0,
            left_remove_suffix_max: 0,
            right_selected: 0,
            right_no_realloc: 0,
            right_shrink: 0,
            right_remove: 0,
            right_frame_move: 0,
            right_remove_suffix: 0,
            right_remove_suffix_max: 0,
            zero_metadata: 0,
        }
    }

    /// Nothing has been counted.
    pub fn new() -> (r: Self)
        ensures
            r == AnonymousMove::nothing(),
    {
        AnonymousMove {
            left_selected: 0,
            left_no_realloc: 0,
            left_shrink: 0,
            left_remove: 0,
            left_frame_relocate: 0,
            left_remove_suffix: 0,
            left_remove_suffix_max: 0,
            right_selected: 0,
            right_no_realloc: 0,
            right_shrink: 0,
            right_remove: 0,
            right_frame_move: 0,
            right_remove_suffix: 0,
            right_remove_suffix_max: 0,
            zero_metadata: 0,
        }
    }

    /// The counters with their names.
    pub open spec fn named(self) -> Seq<(Seq<char>, usize)> {
        seq![
            ("left_selected"@, self.left_selected),
            ("left_no_realloc"@, self.left_no_realloc),
            ("left_shrink"@, self.left_shrink),
            ("left_remove"@, self.left_remove),
            ("left_frame_relocate"@, self.left_frame_relocate),
            ("left_remove_suffix"@, self.left_remove_suffix),
            ("left_remove_suffix_max"@, self.left_remove_suffix_max),
            ("right_selected"@, self.right_selected),
            ("right_no_realloc"@, self.right_no_realloc),
            ("right_shrink"@, self.right_shrink),
            ("right_remove"@, self.right_remove),
            ("right_frame_move"@, self.right_frame_move),
            ("right_remove_suffix"@, self.right_remove_suffix),
            ("right_remove_suffix_max"@, self.right_remove_suffix_max),
            ("zero_metadata"@, self.zero_metadata),
        ]
    }

    /// Adds the counters with their names to others.
    pub fn add_to(&self, v: &mut Vec<(&'static str, usize)>)
        ensures
            field_views(final(v)@) == field_views(old(v)@) + self.named(),
    {
        v.push(("left_selected", self.left_selected));
        v.push(("left_no_realloc", self.left_no_realloc));
        v.push(("left_shrink", self.left_shrink));
        v.push(("left_remove", self.left_remove));
        v.push(("left_frame_relocate", self.left_frame_relocate));
        v.push(("left_remove_suffix", self.left_remove_suffix));
        v.push(("left_remove_suffix_max", self.left_remove_suffix_max));
        v.push(("right_selected", self.right_selected));
        v.push(("right_no_realloc", self.right_no_realloc));
        v.push(("right_shrink", self.right_shrink));
        v.push(("right_remove", self.right_remove));
        v.push(("right_frame_move", self.right_frame_move));
        v.push(("right_remove_suffix", self.right_remove_suffix));
        v.push(("right_remove_suffix_max", self.right_remove_suffix_max));
        v.push(("zero_metadata", self.zero_metadata));
        assert(field_views(v@) =~= field_views(old(v)@) + self.named());
    }
}

/// How areas of memory were joined all at once.
#[derive(Clone, Copy, PartialEq, Eq, Structural, Debug)]
pub struct AnonymousCoalesce {
    pub calls: usize,
    pub areas: usize,
    pub areas_max: usize,
    pub sort_us: usize,
    pub scan_us: usize,
    pub total_us: usize,
    pub merges: usize,
    pub merged_frames: usize,
    pub frame_reallocs: usize,
    pub frame_relocate: usize,
}

impl AnonymousCoalesce {
    /// Nothing has been counted.
    pub open spec fn nothing() -> AnonymousCoalesce {
        AnonymousCoalesce {
            calls: 0,
            areas: 0,
            areas_max: 0,
            sort_us: 0,
            scan_us: 0,
            total_us: 0,
            merges: 0,
            merged_frames: 0,
            frame_reallocs: 0,
            frame_relocate: 0,
        }
    }

    /// Nothing has been counted.
    pub fn new() -> (r: Self)
        ensures
            r == AnonymousCoalesce::nothing(),
    {
        AnonymousCoalesce {
            calls: 0,
            areas: 0,
            areas_max: 0,
            sort_us: 0,
            scan_us: 0,
            total_us: 0,
            merges: 0,
            merged_frames: 0,
            frame_reallocs: 0,
            frame_relocate: 0,
        }
    }

    /// The counters with their names.
    pub open spec fn named(self) -> Seq<(Seq<char>, usize)> {
        seq![
            ("calls"@, self.calls),
            ("areas"@, self.areas),
            ("areas_max"@, self.areas_max),
            ("sort_us"@, self.sort_us),
            ("scan_us"@, self.scan_us),
            ("total_us"@, self.total_us),
            ("merges"@, self.merges),
            ("merged_frames"@, self.merged_frames),
            ("frame_reallocs"@, self.frame_reallocs),
            ("frame_relocate"@, self.frame_relocate),
        ]
    }

    /// Adds the counters with their names to others.
    pub fn add_to(&self, v: &mut Vec<(&'static str, usize)>)
        ensures
            field_views(final(v)@) == field_views(old(v)@) + self.named(),
    {
        v.push(("calls", self.calls));
        v.push(("areas", self.areas));
        v.push(("areas_max", self.areas_max));
        v.push(("sort_us", self.sort_us));
        v.push(("scan_us", self.scan_us));
        v.push(("total_us", self.total_us));
        v.push(("merges", self.merges));
        v.push(("merged_frames", self.merged_frames));
        v.push(("frame_reallocs", self.frame_reallocs));
        v.push(("frame_relocate", self.frame_relocate));
        assert(field_views(v@) =~= field_views(old(v)@) + self.named());
    }
}

/// How many areas of memory a program has.
#[derive(Clone, Copy, PartialEq, Eq, Structural, Debug)]
pub struct VmaCount {
    pub current: usize,
    pub max: usize,
}

impl VmaCount {
    /// Nothing has been counted.
    pub open spec fn nothing() -> VmaCount {
        VmaCount {
            current: 0,
            max: 0,
        }
    }

    /// Nothing has been counted.
    pub fn new() -> (r: Self)
        ensures
            r == VmaCount::nothing(),
    {
        VmaCount {
            current: 0,
            max: 0,
        }
    }

    /// The counters with their names.
    pub open spec fn named(self) -> Seq<(Seq<char>, usize)> {
        seq![
            ("current"@, self.current),
            ("max"@, self.max),
        ]
    }

    /// Adds the counters with their names to others.
    pub fn add_to(&self, v: &mut Vec<(&'static str, usize)>)
        ensures
            field_views(final(v)@) == field_views(old(v)@) + self.named(),
    {
        v.push(("current", self.current));
        v.push(("max", self.max));
        assert(field_views(v@) =~= field_views(old(v)@) + self.named());
    }
}

/// What was found in the caches, and what was asked of the disk.
#[derive(Clone, Copy, PartialEq, Eq, Structural, Debug)]
pub struct CacheCounts {
    pub path_components: usize,
    pub path_hit: usize,
    pub path_miss: usize,
    pub negative_path_hit: usize,
    pub dir_hit: usize,
    pub dir_miss: usize,
    pub inode_metadata_hit: usize,
    pub inode_metadata_miss: usize,
    pub inode_hit: usize,
    pub inode_miss: usize,
    pub metadata_hit: usize,
    pub metadata_miss: usize,
    pub block_hit: usize,
    pub block_miss: usize,
    pub virtio_requests: usize,
    pub virtio_bytes: usize,
    pub virtio_queue_us: usize,
    pub virtio_complete_us: usize,
}

impl CacheCounts {
    /// Nothing has been counted.
    pub open spec fn nothing() -> CacheCounts {
        CacheCounts {
            path_components: 0,
            path_hit: 0,
            path_miss: 0,
            negative_path_hit: 0,
            dir_hit: 0,
            dir_miss: 0,
            inode_metadata_hit: 0,
            inode_metadata_miss: 0,
            inode_hit: 0,
            inode_miss: 0,
            metadata_hit: 0,
            metadata_miss: 0,
            block_hit: 0,
            block_miss: 0,
            virtio_requests: 0,
            virtio_bytes: 0,
            virtio_queue_us: 0,
            virtio_complete_us: 0,
        }
    }

    /// Nothing has been counted.
    pub fn new() -> (r: Self)
        ensures
            r == CacheCounts::nothing(),
    {
        CacheCounts {
            path_components: 0,
            path_hit: 0,
            path_miss: 0,
            negative_path_hit: 0,
            dir_hit: 0,
            dir_miss: 0,
            inode_metadata_hit: 0,
            inode_metadata_miss: 0,
            inode_hit: 0,
            inode_miss: 0,
            metadata_hit: 0,
            metadata_miss: 0,
            block_hit: 0,
            block_miss: 0,
            virtio_requests: 0,
            virtio_bytes: 0,
            virtio_queue_us: 0,
            virtio_complete_us: 0,
        }
    }

    /// The counters with their names.
    pub open spec fn named(self) -> Seq<(Seq<char>, usize)> {
        seq![
            ("path_components"@, self.path_components),
            ("path_hit"@, self.path_hit),
            ("path_miss"@, self.path_miss),
            ("negative_path_hit"@, self.negative_path_hit),
            ("dir_hit"@, self.dir_hit),
            ("dir_miss"@, self.dir_miss),
            ("inode_metadata_hit"@, self.inode_metadata_hit),
            ("inode_metadata_miss"@, self.inode_metadata_miss),
            ("inode_hit"@, self.inode_hit),
            ("inode_miss"@, self.inode_miss),
            ("metadata_hit"@, self.metadata_hit),
            ("metadata_miss"@, self.metadata_miss),
            ("block_hit"@, self.block_hit),
            ("block_miss"@, self.block_miss),
            ("virtio_requests"@, self.virtio_requests),
            ("virtio_bytes"@, self.virtio_bytes),
            ("virtio_queue_us"@, self.virtio_queue_us),
            ("virtio_complete_us"@, self.virtio_complete_us),
        ]
    }

    /// Adds the counters with their names to others.
    pub fn add_to(&self, v: &mut Vec<(&'static str, usize)>)
        ensures
            field_views(final(v)@) == field_views(old(v)@) + self.named(),
    {
        v.push(("path_components", self.path_components));
        v.push(("path_hit", self.path_hit));
        v.push(("path_miss", self.path_miss));
        v.push(("negative_path_hit", self.negative_path_hit));
        v.push(("dir_hit", self.dir_hit));
        v.push(("dir_miss", self.dir_miss));
        v.push(("inode_metadata_hit", self.inode_metadata_hit));
        v.push(("inode_metadata_miss", self.inode_metadata_miss));
        v.push(("inode_hit", self.inode_hit));
        v.push(("inode_miss", self.inode_miss));
        v.push(("metadata_hit", self.metadata_hit));
        v.push(("metadata_miss", self.metadata_miss));
        v.push(("block_hit", self.block_hit));
        v.push(("block_miss", self.block_miss));
        v.push(("virtio_requests", self.virtio_requests));
        v.push(("virtio_bytes", self.virtio_bytes));
        v.push(("virtio_queue_us", self.virtio_queue_us));
        v.push(("virtio_complete_us", self.virtio_complete_us));
        assert(field_views(v@) =~= field_views(old(v)@) + self.named());
    }
}

/// How tasks waited for several files.
#[derive(Clone, Copy, PartialEq, Eq, Structural, Debug)]
pub struct PollCounts {
    pub ppoll_calls: usize,
    pub keyed_sleeps: usize,
    pub unkeyed_sleeps: usize,
}

impl PollCounts {
    /// Nothing has been counted.
    pub open spec fn nothing() -> PollCounts {
        PollCounts {
            ppoll_calls: 0,
            keyed_sleeps: 0,
            unkeyed_sleeps: 0,
        }
    }

    /// Nothing has been counted.
    pub fn new() -> (r: Self)
        ensures
            r == PollCounts::nothing(),
    {
        PollCounts {
            ppoll_calls: 0,
            keyed_sleeps: 0,
            unkeyed_sleeps: 0,
        }
    }

    /// The counters with their names.
    pub open spec fn named(self) -> Seq<(Seq<char>, usize)> {
        seq![
            ("ppoll_calls"@, self.ppoll_calls),
            ("keyed_sleeps"@, self.keyed_sleeps),
            ("unkeyed_sleeps"@, self.unkeyed_sleeps),
        ]
    }

    /// Adds the counters with their names to others.
    pub fn add_to(&self, v: &mut Vec<(&'static str, usize)>)
        ensures
            field_views(final(v)@) == field_views(old(v)@) + self.named(),
    {
        v.push(("ppoll_calls", self.ppoll_calls));
        v.push(("keyed_sleeps", self.keyed_sleeps));
        v.push(("unkeyed_sleeps", self.unkeyed_sleeps));
        assert(field_views(v@) =~= field_views(old(v)@) + self.named());
    }
}

/// What was done with pipes.
#[derive(Clone, Copy, PartialEq, Eq, Structural, Debug)]
pub struct IpcCounts {
    pub pipe2_calls: usize,
    pub pipe2_nonblock: usize,
    pub pipe2_cloexec: usize,
    pub pipe_read_calls: usize,
    pub pipe_read_bytes: usize,
    pub pipe_read_eagain: usize,
    pub pipe_read_eof: usize,
    pub pipe_write_calls: usize,
    pub pipe_write_bytes: usize,
    pub pipe_write_eagain: usize,
    pub pipe_write_epipe: usize,
    pub pipe_read_waits: usize,
    pub pipe_write_waits: usize,
    pub reader_wake_calls: usize,
    pub reader_woken: usize,
    pub writer_wake_calls: usize,
    pub writer_woken: usize,
}

impl IpcCounts {
    /// Nothing has been counted.
    pub open spec fn nothing() -> IpcCounts {
        IpcCounts {
            pipe2_calls: 0,
            pipe2_nonblock: 0,
            pipe2_cloexec: 0,
            pipe_read_calls: 0,
            pipe_read_bytes: 0,
            pipe_read_eagain: 0,
            pipe_read_eof: 0,
            pipe_write_calls: 0,
            pipe_write_bytes: 0,
            pipe_write_eagain: 0,
            pipe_write_epipe: 0,
            pipe_read_waits: 0,
            pipe_write_waits: 0,
            reader_wake_calls: 0,
            reader_woken: 0,
            writer_wake_calls: 0,
            writer_woken: 0,
        }
    }

    /// Nothing has been counted.
    pub fn new() -> (r: Self)
        ensures
            r == IpcCounts::nothing(),
    {
        IpcCounts {
            pipe2_calls: 0,
            pipe2_nonblock: 0,
            pipe2_cloexec: 0,
            pipe_read_calls: 0,
            pipe_read_bytes: 0,
            pipe_read_eagain: 0,
            pipe_read_eof: 0,
            pipe_write_calls: 0,
            pipe_write_bytes: 0,
            pipe_write_eagain: 0,
            pipe_write_epipe: 0,
            pipe_read_waits: 0,
            pipe_write_waits: 0,
            reader_wake_calls: 0,
            reader_woken: 0,
            writer_wake_calls: 0,
            writer_woken: 0,
        }
    }

    /// The counters with their names.
    pub open spec fn named(self) -> Seq<(Seq<char>, usize)> {
        seq![
            ("pipe2_calls"@, self.pipe2_calls),
            ("pipe2_nonblock"@, self.pipe2_nonblock),
            ("pipe2_cloexec"@, self.pipe2_cloexec),
            ("pipe_read_calls"@, self.pipe_read_calls),
            ("pipe_read_bytes"@, self.pipe_read_bytes),
            ("pipe_read_eagain"@, self.pipe_read_eagain),
            ("pipe_read_eof"@, self.pipe_read_eof),
            ("pipe_write_calls"@, self.pipe_write_calls),
            ("pipe_write_bytes"@, self.pipe_write_bytes),
            ("pipe_write_eagain"@, self.pipe_write_eagain),
            ("pipe_write_epipe"@, self.pipe_write_epipe),
            ("pipe_read_waits"@, self.pipe_read_waits),
            ("pipe_write_waits"@, self.pipe_write_waits),
            ("reader_wake_calls"@, self.reader_wake_calls),
            ("reader_woken"@, self.reader_woken),
            ("writer_wake_calls"@, self.writer_wake_calls),
            ("writer_woken"@, self.writer_woken),
        ]
    }

    /// Adds the counters with their names to others.
    pub fn add_to(&self, v: &mut Vec<(&'static str, usize)>)
        ensures
            field_views(final(v)@) == field_views(old(v)@) + self.named(),
    {
        v.push(("pipe2_calls", self.pipe2_calls));
        v.push(("pipe2_nonblock", self.pipe2_nonblock));
        v.push(("pipe2_cloexec", self.pipe2_cloexec));
        v.push(("pipe_read_calls", self.pipe_read_calls));
        v.push(("pipe_read_bytes", self.pipe_read_bytes));
        v.push(("pipe_read_eagain", self.pipe_read_eagain));
        v.push(("pipe_read_eof", self.pipe_read_eof));
        v.push(("pipe_write_calls", self.pipe_write_calls));
        v.push(("pipe_write_bytes", self.pipe_write_bytes));
        v.push(("pipe_write_eagain", self.pipe_write_eagain));
        v.push(("pipe_write_epipe", self.pipe_write_epipe));
        v.push(("pipe_read_waits", self.pipe_read_waits));
        v.push(("pipe_write_waits", self.pipe_write_waits));
        v.push(("reader_wake_calls", self.reader_wake_calls));
        v.push(("reader_woken", self.reader_woken));
        v.push(("writer_wake_calls", self.writer_wake_calls));
        v.push(("writer_woken", self.writer_woken));
        assert(field_views(v@) =~= field_views(old(v)@) + self.named());
    }
}

/// What was done with open files.
#[derive(Clone, Copy, PartialEq, Eq, Structural, Debug)]
pub struct FdCounts {
    pub dup_calls: usize,
    pub dup_pipe_calls: usize,
    pub getfd: usize,
    pub setfd: usize,
    pub getfl: usize,
    pub setfl: usize,
    pub pipe_getfl: usize,
    pub pipe_setfl: usize,
    pub pipe_alias_observations: usize,
    pub pipe_alias_mismatches: usize,
    pub pipe_external_aliases_at_setfl: usize,
    pub exec_calls: usize,
    pub exec_pipe_endpoints: usize,
    pub exec_pipe_cloexec: usize,
    pub exec_pipe_closed: usize,
    pub sched_getaffinity_calls: usize,
    pub affinity_mask_bits_total: usize,
    pub affinity_mask_bits_max: usize,
}

impl FdCounts {
    /// Nothing has been counted.
    pub open spec fn nothing() -> FdCounts {
        FdCounts {
            dup_calls: 0,
            dup_pipe_calls: 0,
            getfd: 0,
            setfd: 0,
            getfl: 0,
            setfl: 0,
            pipe_getfl: 0,
            pipe_setfl: 0,
            pipe_alias_observations: 0,
            pipe_alias_mismatches: 0,
            pipe_external_aliases_at_setfl: 0,
            exec_calls: 0,
            exec_pipe_endpoints: 0,
            exec_pipe_cloexec: 0,
            exec_pipe_closed: 0,
            sched_getaffinity_calls: 0,
            affinity_mask_bits_total: 0,
            affinity_mask_bits_max: 0,
        }
    }

    /// Nothing has been counted.
    pub fn new() -> (r: Self)
        ensures
            r == FdCounts::nothing(),
    {
        FdCounts {
            dup_calls: 0,
            dup_pipe_calls: 0,
            getfd: 0,
            setfd: 0,
            getfl: 0,
            setfl: 0,
            pipe_getfl: 0,
            pipe_setfl: 0,
            pipe_alias_observations: 0,
            pipe_alias_mismatches: 0,
            pipe_external_aliases_at_setfl: 0,
            exec_calls: 0,
            exec_pipe_endpoints: 0,
            exec_pipe_cloexec: 0,
            exec_pipe_closed: 0,
            sched_getaffinity_calls: 0,
            affinity_mask_bits_total: 0,
            affinity_mask_bits_max: 0,
        }
    }

    /// The counters with their names.
    pub open spec fn named(self) -> Seq<(Seq<char>, usize)> {
        seq![
            ("dup_calls"@, self.dup_calls),
            ("dup_pipe_calls"@, self.dup_pipe_calls),
            ("getfd"@, self.getfd),
            ("setfd"@, self.setfd),
            ("getfl"@, self.getfl),
            ("setfl"@, self.setfl),
            ("pipe_getfl"@, self.pipe_getfl),
            ("pipe_setfl"@, self.pipe_setfl),
            ("pipe_alias_observations"@, self.pipe_alias_observations),
            ("pipe_alias_mismatches"@, self.pipe_alias_mismatches),
            ("pipe_external_aliases_at_setfl"@, self.pipe_external_aliases_at_setfl),
            ("exec_calls"@, self.exec_calls),
            ("exec_pipe_endpoints"@, self.exec_pipe_endpoints),
            ("exec_pipe_cloexec"@, self.exec_pipe_cloexec),
            ("exec_pipe_closed"@, self.exec_pipe_closed),
            ("sched_getaffinity_calls"@, self.sched_getaffinity_calls),
            ("affinity_mask_bits_total"@, self.affinity_mask_bits_total),
            ("affinity_mask_bits_max"@, self.affinity_mask_bits_max),
        ]
    }

    /// Adds the counters with their names to others.
    pub fn add_to(&self, v: &mut Vec<(&'static str, usize)>)
        ensures
            field_views(final(v)@) == field_views(old(v)@) + self.named(),
    {
        v.push(("dup_calls", self.dup_calls));
        v.push(("dup_pipe_calls", self.dup_pipe_calls));
        v.push(("getfd", self.getfd));
        v.push(("setfd", self.setfd));
        v.push(("getfl", self.getfl));
        v.push(("setfl", self.setfl));
        v.push(("pipe_getfl", self.pipe_getfl));
        v.push(("pipe_setfl", self.pipe_setfl));
        v.push(("pipe_alias_observations", self.pipe_alias_observations));
        v.push(("pipe_alias_mismatches", self.pipe_alias_mismatches));
        v.push(("pipe_external_aliases_at_setfl", self.pipe_external_aliases_at_setfl));
        v.push(("exec_calls", self.exec_calls));
        v.push(("exec_pipe_endpoints", self.exec_pipe_endpoints));
        v.push(("exec_pipe_cloexec", self.exec_pipe_cloexec));
        v.push(("exec_pipe_closed", self.exec_pipe_closed));
        v.push(("sched_getaffinity_calls", self.sched_getaffinity_calls));
        v.push(("affinity_mask_bits_total", self.affinity_mask_bits_total));
        v.push(("affinity_mask_bits_max", self.affinity_mask_bits_max));
        assert(field_views(v@) =~= field_views(old(v)@) + self.named());
    }
}

/// What kinds of mappings were asked for.
#[derive(Clone, Copy, PartialEq, Eq, Structural, Debug)]
pub struct MmapShape {
    pub anonymous: usize,
    pub file: usize,
    pub fixed: usize,
    pub hinted: usize,
    pub lazy: usize,
    pub eager: usize,
    pub commit_reselect: usize,
    pub high_arena: usize,
    pub low_arena: usize,
}

impl MmapShape {
    /// Nothing has been counted.
    pub open spec fn nothing() -> MmapShape {
        MmapShape {
            anonymous: 0,
            file: 0,
            fixed: 0,
            hinted: 0,
            lazy: 0,
            eager: 0,
            commit_reselect: 0,
            high_arena: 0,
            low_arena: 0,
        }
    }

    /// Nothing has been counted.
    pub fn new() -> (r: Self)
        ensures
            r == MmapShape::nothing(),
    {
        MmapShape {
            anonymous: 0,
            file: 0,
            fixed: 0,
            hinted: 0,
            lazy: 0,
            eager: 0,
            commit_reselect: 0,
            high_arena: 0,
            low_arena: 0,
        }
    }

    /// The counters with their names.
    pub open spec fn named(self) -> Seq<(Seq<char>, usize)> {
        seq![
            ("anonymous"@, self.anonymous),
            ("file"@, self.file),
            ("fixed"@, self.fixed),
            ("hinted"@, self.hinted),
            ("lazy"@, self.lazy),
            ("eager"@, self.eager),
            ("commit_reselect"@, self.commit_reselect),
            ("high_arena"@, self.high_arena),
            ("low_arena"@, self.low_arena),
        ]
    }

    /// Adds the counters with their names to others.
    pub fn add_to(&self, v: &mut Vec<(&'static str, usize)>)
        ensures
            field_views(final(v)@) == field_views(old(v)@) + self.named(),
    {
        v.push(("anonymous", self.anonymous));
        v.push(("file", self.file));
        v.push(("fixed", self.fixed));
        v.push(("hinted", self.hinted));
        v.push(("lazy", self.lazy));
        v.push(("eager", self.eager));
        v.push(("commit_reselect", self.commit_reselect));
        v.push(("high_arena", self.high_arena));
        v.push(("low_arena", self.low_arena));
        assert(field_views(v@) =~= field_views(old(v)@) + self.named());
    }
}

/// What became of mappings that were asked for.
#[derive(Clone, Copy, PartialEq, Eq, Structural, Debug)]
pub struct MmapResult {
    pub select_ok: usize,
    pub select_enomem: usize,
    pub reselect_ok: usize,
    pub reselect_enomem: usize,
    pub len_le_64k: usize,
    pub len_le_1m: usize,
    pub len_le_16m: usize,
    pub len_le_256m: usize,
    pub len_gt_256m: usize,
    pub failed_len_max: usize,
    pub failed_gap_max: usize,
    pub failed_vmas_max: usize,
}

impl MmapResult {
    /// Nothing has been counted.
    pub open spec fn nothing() -> MmapResult {
        MmapResult {
            select_ok: 0,
            select_enomem: 0,
            reselect_ok: 0,
            reselect_enomem: 0,
            len_le_64k: 0,
            len_le_1m: 0,
            len_le_16m: 0,
            len_le_256m: 0,
            len_gt_256m: 0,
            failed_len_max: 0,
            failed_gap_max: 0,
            failed_vmas_max: 0,
        }
    }

    /// Nothing has been counted.
    pub fn new() -> (r: Self)
        ensures
            r == MmapResult::nothing(),
    {
        MmapResult {
            select_ok: 0,
            select_enomem: 0,
            reselect_ok: 0,
            reselect_enomem: 0,
            len_le_64k: 0,
            len_le_1m: 0,
            len_le_16m: 0,
            len_le_256m: 0,
            len_gt_256m: 0,
            failed_len_max: 0,
            failed_gap_max: 0,
            failed_vmas_max: 0,
        }
    }

    /// The counters with their names.
    pub open spec fn named(self) -> Seq<(Seq<char>, usize)> {
        seq![
            ("select_ok"@, self.select_ok),
            ("select_enomem"@, self.select_enomem),
            ("reselect_ok"@, self.reselect_ok),
            ("reselect_enomem"@, self.reselect_enomem),
            ("len_le_64k"@, self.len_le_64k),
            ("len_le_1m"@, self.len_le_1m),
            ("len_le_16m"@, self.len_le_16m),
            ("len_le_256m"@, self.len_le_256m),
            ("len_gt_256m"@, self.len_gt_256m),
            ("failed_len_max"@, self.failed_len_max),
            ("failed_gap_max"@, self.failed_gap_max),
            ("failed_vmas_max"@, self.failed_vmas_max),
        ]
    }

    /// Adds the counters with their names to others.
    pub fn add_to(&self, v: &mut Vec<(&'static str, usize)>)
        ensures
            field_views(final(v)@) == field_views(old(v)@) + self.named(),
    {
        v.push(("select_ok", self.select_ok));
        v.push(("select_enomem", self.select_enomem));
        v.push(("reselect_ok", self.reselect_ok));
        v.push(("reselect_enomem", self.reselect_enomem));
        v.push(("len_le_64k", self.len_le_64k));
        v.push(("len_le_1m", self.len_le_1m));
        v.push(("len_le_16m", self.len_le_16m));
        v.push(("len_le_256m", self.len_le_256m));
        v.push(("len_gt_256m", self.len_gt_256m));
        v.push(("failed_len_max", self.failed_len_max));
        v.push(("failed_gap_max", self.failed_gap_max));
        v.push(("failed_vmas_max", self.failed_vmas_max));
        assert(field_views(v@) =~= field_views(old(v)@) + self.named());
    }
}

/// The lengths of mappings that failed, and where mappings were given up.
#[derive(Clone, Copy, PartialEq, Eq, Structural, Debug)]
pub struct MmapFailureShape {
    pub len_le_64k: usize,
    pub len_le_1m: usize,
    pub len_le_16m: usize,
    pub len_le_256m: usize,
    pub len_gt_256m: usize,
    pub munmap_below_le_64k: usize,
    pub munmap_below_le_1m: usize,
    pub munmap_below_le_16m: usize,
    pub munmap_below_le_256m: usize,
    pub munmap_below_gt_256m: usize,
    pub munmap_overlaps_cursor: usize,
    pub munmap_at_or_above_cursor: usize,
}

impl MmapFailureShape {
    /// Nothing has been counted.
    pub open spec fn nothing() -> MmapFailureShape {
        MmapFailureShape {
            len_le_64k: 0,
            len_le_1m: 0,
            len_le_16m: 0,
            len_le_256m: 0,
            len_gt_256m: 0,
            munmap_below_le_64k: 0,
            munmap_below_le_1m: 0,
            munmap_below_le_16m: 0,
            munmap_below_le_256m: 0,
            munmap_below_gt_256m: 0,
            munmap_overlaps_cursor: 0,
            munmap_at_or_above_cursor: 0,
        }
    }

    /// Nothing has been counted.
    pub fn new() -> (r: Self)
        ensures
            r == MmapFailureShape::nothing(),
    {
        MmapFailureShape {
            len_le_64k: 0,
            len_le_1m: 0,
            len_le_16m: 0,
            len_le_256m: 0,
            len_gt_256m: 0,
            munmap_below_le_64k: 0,
            munmap_below_le_1m: 0,
            munmap_below_le_16m: 0,
            munmap_below_le_256m: 0,
            munmap_below_gt_256m: 0,
            munmap_overlaps_cursor: 0,
            munmap_at_or_above_cursor: 0,
        }
    }

    /// The counters with their names.
    pub open spec fn named(self) -> Seq<(Seq<char>, usize)> {
        seq![
            ("len_le_64k"@, self.len_le_64k),
            ("len_le_1m"@, self.len_le_1m),
            ("len_le_16m"@, self.len_le_16m),
            ("len_le_256m"@, self.len_le_256m),
            ("len_gt_256m"@, self.len_gt_256m),
            ("munmap_below_le_64k"@, self.munmap_below_le_64k),
            ("munmap_below_le_1m"@, self.munmap_below_le_1m),
            ("munmap_below_le_16m"@, self.munmap_below_le_16m),
            ("munmap_below_le_256m"@, self.munmap_below_le_256m),
            ("munmap_below_gt_256m"@, self.munmap_below_gt_256m),
            ("munmap_overlaps_cursor"@, self.munmap_overlaps_cursor),
            ("munmap_at_or_above_cursor"@, self.munmap_at_or_above_cursor),
        ]
    }

    /// Adds the counters with their names to others.
    pub fn add_to(&self, v: &mut Vec<(&'static str, usize)>)
        ensures
            field_views(final(v)@) == field_views(old(v)@) + self.named(),
    {
        v.push(("len_le_64k", self.len_le_64k));
        v.push(("len_le_1m", self.len_le_1m));
        v.push(("len_le_16m", self.len_le_16m));
        v.push(("len_le_256m", self.len_le_256m));
        v.push(("len_gt_256m", self.len_gt_256m));
        v.push(("munmap_below_le_64k", self.munmap_below_le_64k));
        v.push(("munmap_below_le_1m", self.munmap_below_le_1m));
        v.push(("munmap_below_le_16m", self.munmap_below_le_16m));
        v.push(("munmap_below_le_256m", self.munmap_below_le_256m));
        v.push(("munmap_below_gt_256m", self.munmap_below_gt_256m));
        v.push(("munmap_overlaps_cursor", self.munmap_overlaps_cursor));
        v.push(("munmap_at_or_above_cursor", self.munmap_at_or_above_cursor));
        assert(field_views(v@) =~= field_views(old(v)@) + self.named());
    }
}

/// Programs that ended, and who was woken by that.
#[derive(Clone, Copy, PartialEq, Eq, Structural, Debug)]
pub struct ProcessProgress {
    pub exits: usize,
    pub child_wake_calls: usize,
    pub child_woken: usize,
}

impl ProcessProgress {
    /// Nothing has been counted.
    pub open spec fn nothing() -> ProcessProgress {
        ProcessProgress {
            exits: 0,
            child_wake_calls: 0,
            child_woken: 0,
        }
    }

    /// Nothing has been counted.
    pub fn new() -> (r: Self)
        ensures
            r == ProcessProgress::nothing(),
    {
        ProcessProgress {
            exits: 0,
            child_wake_calls: 0,
            child_woken: 0,
        }
    }

    /// The counters with their names.
    pub open spec fn named(self) -> Seq<(Seq<char>, usize)> {
        seq![
            ("exits"@, self.exits),
            ("child_wake_calls"@, self.child_wake_calls),
            ("child_woken"@, self.child_woken),
        ]
    }

    /// Adds the counters with their names to others.
    pub fn add_to(&self, v: &mut Vec<(&'static str, usize)>)
        ensures
            field_views(final(v)@) == field_views(old(v)@) + self.named(),
    {
        v.push(("exits", self.exits));
        v.push(("child_wake_calls", self.child_wake_calls));
        v.push(("child_woken", self.child_woken));
        assert(field_views(v@) =~= field_views(old(v)@) + self.named());
    }
}

/// How often and how long tasks waited for something, and how that ended.
#[derive(Clone, Copy, PartialEq, Eq, Structural, Debug)]
pub struct BlockCounts {
    pub count: usize,
    pub total_us: usize,
    pub max_us: usize,
    pub woken: usize,
    pub timed_out: usize,
    pub interrupted: usize,
}

impl BlockCounts {
    /// Nothing has been counted.
    pub open spec fn nothing() -> BlockCounts {
        BlockCounts {
            count: 0,
            total_us: 0,
            max_us: 0,
            woken: 0,
            timed_out: 0,
            interrupted: 0,
        }
    }

    /// Nothing has been counted.
    pub fn new() -> (r: Self)
        ensures
            r == BlockCounts::nothing(),
    {
        BlockCounts {
            count: 0,
            total_us: 0,
            max_us: 0,
            woken: 0,
            timed_out: 0,
            interrupted: 0,
        }
    }

    /// The counters with their names.
    pub open spec fn named(self) -> Seq<(Seq<char>, usize)> {
        seq![
            ("count"@, self.count),
            ("total_us"@, self.total_us),
            ("max_us"@, self.max_us),
            ("woken"@, self.woken),
            ("timed_out"@, self.timed_out),
            ("interrupted"@, self.interrupted),
        ]
    }

    /// Adds the counters with their names to others.
    pub fn add_to(&self, v: &mut Vec<(&'static str, usize)>)
        ensures
            field_views(final(v)@) == field_views(old(v)@) + self.named(),
    {
        v.push(("count", self.count));
        v.push(("total_us", self.total_us));
        v.push(("max_us", self.max_us));
        v.push(("woken", self.woken));
        v.push(("timed_out", self.timed_out));
        v.push(("interrupted", self.interrupted));
        assert(field_views(v@) =~= field_views(old(v)@) + self.named());
    }
}

/// How often and how long tasks of a kind waited.
#[derive(Clone, Copy, PartialEq, Eq, Structural, Debug)]
pub struct ActorCounts {
    pub count: usize,
    pub total_us: usize,
}

impl ActorCounts {
    /// Nothing has been counted.
    pub open spec fn nothing() -> ActorCounts {
        ActorCounts {
            count: 0,
            total_us: 0,
        }
    }

    /// Nothing has been counted.
    pub fn new() -> (r: Self)
        ensures
            r == ActorCounts::nothing(),
    {
        ActorCounts {
            count: 0,
            total_us: 0,
        }
    }

    /// The counters with their names.
    pub open spec fn named(self) -> Seq<(Seq<char>, usize)> {
        seq![
            ("count"@, self.count),
            ("total_us"@, self.total_us),
        ]
    }

    /// Adds the counters with their names to others.
    pub fn add_to(&self, v: &mut Vec<(&'static str, usize)>)
        ensures
            field_views(final(v)@) == field_views(old(v)@) + self.named(),
    {
        v.push(("count", self.count));
        v.push(("total_us", self.total_us));
        assert(field_views(v@) =~= field_views(old(v)@) + self.named());
    }
}

/// How often something was done, and how long it took.
#[derive(Clone, Copy, PartialEq, Eq, Structural, Debug)]
pub struct Tally {
    pub count: usize,
    pub total_us: usize,
    pub max_us: usize,
}

impl Tally {
    /// Nothing has been counted.
    pub open spec fn nothing() -> Tally {
        Tally {
            count: 0,
            total_us: 0,
            max_us: 0,
        }
    }

    /// Nothing has been counted.
    pub fn new() -> (r: Self)
        ensures
            r == Tally::nothing(),
    {
        Tally {
            count: 0,
            total_us: 0,
            max_us: 0,
        }
    }

    /// The counters with their names.
    pub open spec fn named(self) -> Seq<(Seq<char>, usize)> {
        seq![
            ("count"@, self.count),
            ("total_us"@, self.total_us),
            ("max_us"@, self.max_us),
        ]
    }

    /// Adds the counters with their names to others.
    pub fn add_to(&self, v: &mut Vec<(&'static str, usize)>)
        ensures
            field_views(final(v)@) == field_views(old(v)@) + self.named(),
    {
        v.push(("count", self.count));
        v.push(("total_us", self.total_us));
        v.push(("max_us", self.max_us));
        assert(field_views(v@) =~= field_views(old(v)@) + self.named());
    }
}

/// How often something was done, for how many pages, and how long it took.
#[derive(Clone, Copy, PartialEq, Eq, Structural, Debug)]
pub struct PagesTally {
    pub count: usize,
    pub pages: usize,
    pub total_us: usize,
    pub max_us: usize,
}

impl PagesTally {
    /// Nothing has been counted.
    pub open spec fn nothing() -> PagesTally {
        PagesTally {
            count: 0,
            pages: 0,
            total_us: 0,
            max_us: 0,
        }
    }

    /// Nothing has been counted.
    pub fn new() -> (r: Self)
        ensures
            r == PagesTally::nothing(),
    {
        PagesTally {
            count: 0,
            pages: 0,
            total_us: 0,
            max_us: 0,
        }
    }

    /// The counters with their names.
    pub open spec fn named(self) -> Seq<(Seq<char>, usize)> {
        seq![
            ("count"@, self.count),
            ("pages"@, self.pages),
            ("total_us"@, self.total_us),
            ("max_us"@, self.max_us),
        ]
    }

    /// Adds the counters with their names to others.
    pub fn add_to(&self, v: &mut Vec<(&'static str, usize)>)
        ensures
            field_views(final(v)@) == field_views(old(v)@) + self.named(),
    {
        v.push(("count", self.count));
        v.push(("pages", self.pages));
        v.push(("total_us", self.total_us));
        v.push(("max_us", self.max_us));
        assert(field_views(v@) =~= field_views(old(v)@) + self.named());
    }
}

/// How many tasks and programs there are.
#[derive(Clone, Copy, PartialEq, Eq, Structural, Debug)]
pub struct TaskCounts {
    pub user_tasks_live: usize,
    pub user_tasks_runnable: usize,
    pub user_tasks_blocked: usize,
    pub rustc_tasks_live: usize,
    pub rustc_tasks_runnable: usize,
    pub user_processes_live: usize,
    pub user_processes_runnable: usize,
    pub user_processes_blocked: usize,
    pub rustc_processes_live: usize,
    pub rustc_processes_runnable: usize,
}

impl TaskCounts {
    /// Nothing has been counted.
    pub open spec fn nothing() -> TaskCounts {
        TaskCounts {
            user_tasks_live: 0,
            user_tasks_runnable: 0,
            user_tasks_blocked: 0,
            rustc_tasks_live: 0,
            rustc_tasks_runnable: 0,
            user_processes_live: 0,
            user_processes_runnable: 0,
            user_processes_blocked: 0,
            rustc_processes_live: 0,
            rustc_processes_runnable: 0,
        }
    }

    /// Nothing has been counted.
    pub fn new() -> (r: Self)
        ensures
            r == TaskCounts::nothing(),
    {
        TaskCounts {
            user_tasks_live: 0,
            user_tasks_runnable: 0,
            user_tasks_blocked: 0,
            rustc_tasks_live: 0,
            rustc_tasks_runnable: 0,
            user_processes_live: 0,
            user_processes_runnable: 0,
            user_processes_blocked: 0,
            rustc_processes_live: 0,
            rustc_processes_runnable: 0,
        }
    }

    /// The counters with their names.
    pub open spec fn named(self) -> Seq<(Seq<char>, usize)> {
        seq![
            ("user_tasks_live"@, self.user_tasks_live),
            ("user_tasks_runnable"@, self.user_tasks_runnable),
            ("user_tasks_blocked"@, self.user_tasks_blocked),
            ("rustc_tasks_live"@, self.rustc_tasks_live),
            ("rustc_tasks_runnable"@, self.rustc_tasks_runnable),
            ("user_processes_live"@, self.user_processes_live),
            ("user_processes_runnable"@, self.user_processes_runnable),
            ("user_processes_blocked"@, self.user_processes_blocked),
            ("rustc_processes_live"@, self.rustc_processes_live),
            ("rustc_processes_runnable"@, self.rustc_processes_runnable),
        ]
    }

    /// Adds the counters with their names to others.
    pub fn add_to(&self, v: &mut Vec<(&'static str, usize)>)
        ensures
            field_views(final(v)@) == field_views(old(v)@) + self.named(),
    {
        v.push(("user_tasks_live", self.user_tasks_live));
        v.push(("user_tasks_runnable", self.user_tasks_runnable));
        v.push(("user_tasks_blocked", self.user_tasks_blocked));
        v.push(("rustc_tasks_live", self.rustc_tasks_live));
        v.push(("rustc_tasks_runnable", self.rustc_tasks_runnable));
        v.push(("user_processes_live", self.user_processes_live));
        v.push(("user_processes_runnable", self.user_processes_runnable));
        v.push(("user_processes_blocked", self.user_processes_blocked));
        v.push(("rustc_processes_live", self.rustc_processes_live));
        v.push(("rustc_processes_runnable", self.rustc_processes_runnable));
        assert(field_views(v@) =~= field_views(old(v)@) + self.named());
    }
}

/// What pages of memory are used for.
#[derive(Clone, Copy, PartialEq, Eq, Structural, Debug)]
pub struct FrameOwners {
    pub singly_owned: usize,
    pub page_table: usize,
    pub contiguous: usize,
    pub transitions: usize,
}

impl FrameOwners {
    /// Nothing has been counted.
    pub open spec fn nothing() -> FrameOwners {
        FrameOwners {
            singly_owned: 0,
            page_table: 0,
            contiguous: 0,
            transitions: 0,
        }
    }

    /// Nothing has been counted.
    pub fn new() -> (r: Self)
        ensures
            r == FrameOwners::nothing(),
    {
        FrameOwners {
            singly_owned: 0,
            page_table: 0,
            contiguous: 0,
            transitions: 0,
        }
    }

    /// The counters with their names.
    pub open spec fn named(self) -> Seq<(Seq<char>, usize)> {
        seq![
            ("tracked"@, self.singly_owned),
            ("page_table"@, self.page_table),
            ("contiguous"@, self.contiguous),
            ("transitions"@, self.transitions),
        ]
    }

    /// Adds the counters with their names to others.
    pub fn add_to(&self, v: &mut Vec<(&'static str, usize)>)
        ensures
            field_views(final(v)@) == field_views(old(v)@) + self.named(),
    {
        v.push(("tracked", self.singly_owned));
        v.push(("page_table", self.page_table));
        v.push(("contiguous", self.contiguous));
        v.push(("transitions", self.transitions));
        assert(field_views(v@) =~= field_views(old(v)@) + self.named());
    }
}

} // verus!

//! The report of what was counted.
use vstd::prelude::*;

use crate::diag::archive::{one_more, ExitedMmapArchive, ARCHIVE_SLOTS};
use crate::diag::first::{ExecFailure, FirstRecord, PageFaultFailure, TerminalUserTrap};
use crate::diag::groups::{
    ActorCounts, AnonymousCoalesce, AnonymousMove, AnonymousVma, BlockCounts, BlockedOwner,
    CacheCounts, CpuTicks, FdCounts, FrameOwners, IpcCounts, MmCounts, MmapFailureShape,
    MmapResult, MmapShape, PagesTally, PollCounts, ProcessProgress, Tally, TaskCounts, UserRuns,
    VmaCount,
};
use crate::diag::line::{field_views, line_text, numbered, numbered_head, write_line};
use crate::diag::locks::{
    hot_lock_slot, hot_place, is_blank, row_sum, sum_of, LockCounts, LockTable, WorkTable,
    HEAP_BUCKETS, HOT_LOCK_SLOTS, LOCK_SLOTS, OWNER_SLOTS, SAMPLE_SHIFT, SITE_SLOTS, WORK_SLOTS,
};
use crate::diag::names::{
    actor_names, actor_table, block_names, block_table, lock_names, lock_table, phase_names,
    phase_table, resolution_names, resolution_table, site_names, site_table, source_names,
    source_table, work_names, work_table,
};
use crate::diag::notes::{passed, ActiveUser, CPU_SLOTS};
use crate::diag::protocol::MmapSummary;
use crate::diag::waits::{Waits, BLOCK_ACTOR_SLOTS, BLOCK_SLOTS};
use crate::text::{concat, texts};

verus! {

/// The time between two reports.
pub const REPORT_INTERVAL_US: usize = 10_000_000;

/// How many phases are timed.
pub const PHASE_SLOTS: usize = 59;

/// Where page faults come from: so many places.
pub const SOURCE_SLOTS: usize = 5;

/// How page faults are served: so many ways.
pub const RESOLUTION_SLOTS: usize = 7;

/// How many locks are reported.
pub const RANKED_LOCKS: usize = 10;

/// All that is counted.
pub struct Diagnostics {
    pub cpus: Vec<CpuTicks>,
    pub runs: Vec<UserRuns>,
    pub active: Vec<ActiveUser>,
    pub owners: Vec<BlockedOwner>,
    pub global_wakes: usize,
    pub mm: MmCounts,
    pub anonymous_vma: AnonymousVma,
    pub anonymous_move: AnonymousMove,
    pub coalesce: AnonymousCoalesce,
    pub vma: VmaCount,
    pub cache: CacheCounts,
    pub work: WorkTable,
    pub phases: Vec<Tally>,
    pub sources: Vec<Tally>,
    pub resolutions: Vec<PagesTally>,
    pub waits: Waits,
    pub poll: PollCounts,
    pub ipc: IpcCounts,
    pub fds: FdCounts,
    pub locks: LockTable,
    pub mmap_shape: MmapShape,
    pub mmap_result: MmapResult,
    pub mmap_failures: MmapFailureShape,
    pub progress: ProcessProgress,
    pub archive: ExitedMmapArchive,
    pub first_trap: FirstRecord<TerminalUserTrap>,
    pub first_page_fault: FirstRecord<PageFaultFailure>,
    pub first_exec: FirstRecord<ExecFailure>,
    pub next_report_at: usize,
    pub sequence: usize,
}

/// What the report is told by others: who writes it, how many tasks there are,
/// how many are ready to run, and what pages are used for.
#[derive(Clone, Copy, PartialEq, Eq, Structural, Debug)]
pub struct Surroundings {
    pub cpu: usize,
    pub tasks: TaskCounts,
    pub rq_current: usize,
    pub frames: FrameOwners,
}

/// Nothing but the head of a line.
pub open spec fn no_fields() -> Seq<(Seq<char>, usize)> {
    Seq::empty()
}

/// A count that goes on by `n`, as far as it can be counted.
pub open spec fn count_on(from: usize, n: nat) -> usize {
    if from + n > usize::MAX {
        usize::MAX
    } else {
        (from + n) as usize
    }
}

fn push_line(out: &mut Vec<String>, text: String)
    ensures
        texts(final(out)@) == texts(old(out)@).push(text@),
{
    let ghost had = texts(out@);
    let ghost t = text@;
    out.push(text);
    assert(texts(out@) =~= had.push(t));
}

impl Diagnostics {
    /// There is a place for everything.
    pub open spec fn wf(&self) -> bool {
        &&& self.cpus@.len() == CPU_SLOTS
        &&& self.runs@.len() == CPU_SLOTS
        &&& self.active@.len() == CPU_SLOTS
        &&& self.owners@.len() == CPU_SLOTS
        &&& self.work.wf()
        &&& self.phases@.len() == PHASE_SLOTS
        &&& self.sources@.len() == SOURCE_SLOTS
        &&& self.resolutions@.len() == RESOLUTION_SLOTS
        &&& self.waits.wf()
        &&& self.locks.wf()
        &&& self.archive.wf()
    }

    /// Nothing has been counted.
    pub fn new() -> (r: Self)
        ensures
            r.wf(),
            forall|i: int| 0 <= i < CPU_SLOTS ==> #[trigger] r.cpus@[i] == CpuTicks::nothing(),
            forall|i: int| 0 <= i < CPU_SLOTS ==> #[trigger] r.runs@[i] == UserRuns::nothing(),
            forall|i: int| 0 <= i < CPU_SLOTS ==> #[trigger] r.active@[i] == ActiveUser::nobody(),
            forall|i: int| 0 <= i < CPU_SLOTS ==> #[trigger] r.owners@[i] == BlockedOwner::nothing(),
            forall|i: int| 0 <= i < PHASE_SLOTS ==> #[trigger] r.phases@[i] == Tally::nothing(),
            forall|i: int| 0 <= i < SOURCE_SLOTS ==> #[trigger] r.sources@[i] == Tally::nothing(),
            forall|i: int|
                0 <= i < RESOLUTION_SLOTS ==> #[trigger] r.resolutions@[i]
                    == PagesTally::nothing(),
            r.global_wakes == 0,
            r.mm == MmCounts::nothing(),
            r.anonymous_vma == AnonymousVma::nothing(),
            r.anonymous_move == AnonymousMove::nothing(),
            r.coalesce == AnonymousCoalesce::nothing(),
            r.vma == VmaCount::nothing(),
            r.cache == CacheCounts::nothing(),
            r.poll == PollCounts::nothing(),
            r.ipc == IpcCounts::nothing(),
            r.fds == FdCounts::nothing(),
            r.mmap_shape == MmapShape::nothing(),
            r.mmap_result == MmapResult::nothing(),
            r.mmap_failures == MmapFailureShape::nothing(),
            r.progress == ProcessProgress::nothing(),
            forall|i: int|
                0 <= i < LOCK_SLOTS ==> #[trigger] r.locks.counts@[i] == LockCounts::nothing(),
            forall|i: int|
                0 <= i < BLOCK_SLOTS ==> #[trigger] r.waits.blocks@[i] == BlockCounts::nothing(),
            forall|i: int|
                0 <= i < BLOCK_ACTOR_SLOTS ==> #[trigger] r.waits.actors@[i]
                    == ActorCounts::nothing(),
            forall|i: int|
                0 <= i < BLOCK_SLOTS ==> #[trigger] r.waits.wakes@[i] == Tally::nothing(),
            forall|i: int|
                0 <= i < WORK_SLOTS ==> #[trigger] r.work.samples@[i] == Tally::nothing(),
            is_blank(r.work.counts@, CPU_SLOTS as int),
            forall|i: int|
                0 <= i < SITE_SLOTS ==> #[trigger] r.locks.sites@[i] == LockCounts::nothing(),
            forall|i: int| 0 <= i < HOT_LOCK_SLOTS ==> #[trigger] r.locks.hot_samples@[i] == 0,
            forall|i: int| 0 <= i < CPU_SLOTS ==> #[trigger] r.locks.owner_mutex@[i] == 0,
            forall|i: int| 0 <= i < CPU_SLOTS ==> #[trigger] r.locks.owner_site@[i] is None,
            is_blank(r.locks.hot@, CPU_SLOTS as int),
            is_blank(r.locks.site_acquires@, CPU_SLOTS as int),
            is_blank(r.locks.pairs@, OWNER_SLOTS as int),
            is_blank(r.locks.heap_allocs@, CPU_SLOTS as int),
            is_blank(r.locks.heap_alloc_bytes@, CPU_SLOTS as int),
            is_blank(r.locks.heap_frees@, CPU_SLOTS as int),
            is_blank(r.locks.heap_free_bytes@, CPU_SLOTS as int),
            r.next_report_at == 0,
            r.sequence == 0,
            r.archive@ == Seq::<MmapSummary>::empty(),
            r.archive.archived == 0 && r.archive.reported == 0 && r.archive.dropped == 0,
            r.first_trap is Empty && r.first_page_fault is Empty && r.first_exec is Empty,
    {
        let mut cpus: Vec<CpuTicks> = Vec::new();
        let mut runs: Vec<UserRuns> = Vec::new();
        let mut active: Vec<ActiveUser> = Vec::new();
        let mut owners: Vec<BlockedOwner> = Vec::new();
        while cpus.len() < CPU_SLOTS
            invariant
                cpus@.len() <= CPU_SLOTS,
                cpus@.len() == runs@.len(),
                cpus@.len() == active@.len(),
                cpus@.len() == owners@.len(),
                forall|i: int| 0 <= i < cpus@.len() ==> #[trigger] cpus@[i] == CpuTicks::nothing(),
                forall|i: int| 0 <= i < runs@.len() ==> #[trigger] runs@[i] == UserRuns::nothing(),
                forall|i: int|
                    0 <= i < active@.len() ==> #[trigger] active@[i] == ActiveUser::nobody(),
                forall|i: int|
                    0 <= i < owners@.len() ==> #[trigger] owners@[i] == BlockedOwner::nothing(),
            decreases CPU_SLOTS - cpus@.len(),
        {
            cpus.push(CpuTicks::new());
            runs.push(UserRuns::new());
            active.push(ActiveUser::new());
            owners.push(BlockedOwner::new());
        }
        let mut phases: Vec<Tally> = Vec::new();
        while phases.len() < PHASE_SLOTS
            invariant
                phases@.len() <= PHASE_SLOTS,
                forall|i: int| 0 <= i < phases@.len() ==> #[trigger] phases@[i] == Tally::nothing(),
            decreases PHASE_SLOTS - phases@.len(),
        {
            phases.push(Tally::new());
        }
        let mut sources: Vec<Tally> = Vec::new();
        while sources.len() < SOURCE_SLOTS
            invariant
                sources@.len() <= SOURCE_SLOTS,
                forall|i: int| 0 <= i < sources@.len() ==> #[trigger] sources@[i] == Tally::nothing(),
            decreases SOURCE_SLOTS - sources@.len(),
        {
            sources.push(Tally::new());
        }
        let mut resolutions: Vec<PagesTally> = Vec::new();
        while resolutions.len() < RESOLUTION_SLOTS
            invariant
                resolutions@.len() <= RESOLUTION_SLOTS,
                forall|i: int| 0 <= i < resolutions@.len() ==> #[trigger] resolutions@[i] == PagesTally::nothing(),
            decreases RESOLUTION_SLOTS - resolutions@.len(),
        {
            resolutions.push(PagesTally::new());
        }
        Diagnostics {
            cpus,
            runs,
            active,
            owners,
            global_wakes: 0,
            mm: MmCounts::new(),
            anonymous_vma: AnonymousVma::new(),
            anonymous_move: AnonymousMove::new(),
            coalesce: AnonymousCoalesce::new(),
            vma: VmaCount::new(),
            cache: CacheCounts::new(),
            work: WorkTable::new(),
            phases,
            sources,
            resolutions,
            waits: Waits::new(),
            poll: PollCounts::new(),
            ipc: IpcCounts::new(),
            fds: FdCounts::new(),
            locks: LockTable::new(),
            mmap_shape: MmapShape::new(),
            mmap_result: MmapResult::new(),
            mmap_failures: MmapFailureShape::new(),
            progress: ProcessProgress::new(),
            archive: ExitedMmapArchive::new(),
            first_trap: FirstRecord::new(),
            first_page_fault: FirstRecord::new(),
            first_exec: FirstRecord::new(),
            next_report_at: 0,
            sequence: 0,
        }
    }

    fn write_mm(&self) -> (r: String)
        ensures
            r@ == line_text("mm"@, self.mm.named()),
    {
        let mut v: Vec<(&'static str, usize)> = Vec::new();
        assert(field_views(v@) =~= no_fields());
        self.mm.add_to(&mut v);
        assert(field_views(v@) =~= self.mm.named());
        write_line("mm", &v)
    }

    fn write_anonymous_vma(&self) -> (r: String)
        ensures
            r@ == line_text("anonymous_vma"@, self.anonymous_vma.named()),
    {
        let mut v: Vec<(&'static str, usize)> = Vec::new();
        assert(field_views(v@) =~= no_fields());
        self.anonymous_vma.add_to(&mut v);
        assert(field_views(v@) =~= self.anonymous_vma.named());
        write_line("anonymous_vma", &v)
    }

    fn write_anonymous_move(&self) -> (r: String)
        ensures
            r@ == line_text("anonymous_move"@, self.anonymous_move.named()),
    {
        let mut v: Vec<(&'static str, usize)> = Vec::new();
        assert(field_views(v@) =~= no_fields());
        self.anonymous_move.add_to(&mut v);
        assert(field_views(v@) =~= self.anonymous_move.named());
        write_line("anonymous_move", &v)
    }

    fn write_anonymous_coalesce(&self) -> (r: String)
        ensures
            r@ == line_text("anonymous_coalesce"@, self.coalesce.named()),
    {
        let mut v: Vec<(&'static str, usize)> = Vec::new();
        assert(field_views(v@) =~= no_fields());
        self.coalesce.add_to(&mut v);
        assert(field_views(v@) =~= self.coalesce.named());
        write_line("anonymous_coalesce", &v)
    }

    fn write_vma(&self) -> (r: String)
        ensures
            r@ == line_text("vma"@, self.vma.named()),
    {
        let mut v: Vec<(&'static str, usize)> = Vec::new();
        assert(field_views(v@) =~= no_fields());
        self.vma.add_to(&mut v);
        assert(field_views(v@) =~= self.vma.named());
        write_line("vma", &v)
    }

    fn write_cache(&self) -> (r: String)
        ensures
            r@ == line_text("cache"@, self.cache.named()),
    {
        let mut v: Vec<(&'static str, usize)> = Vec::new();
        assert(field_views(v@) =~= no_fields());
        self.cache.add_to(&mut v);
        assert(field_views(v@) =~= self.cache.named());
        write_line("cache", &v)
    }

    fn write_poll(&self) -> (r: String)
        ensures
            r@ == line_text("poll"@, self.poll.named()),
    {
        let mut v: Vec<(&'static str, usize)> = Vec::new();
        assert(field_views(v@) =~= no_fields());
        self.poll.add_to(&mut v);
        assert(field_views(v@) =~= self.poll.named());
        write_line("poll", &v)
    }

    fn write_ipc(&self) -> (r: String)
        ensures
            r@ == line_text("ipc"@, self.ipc.named()),
    {
        let mut v: Vec<(&'static str, usize)> = Vec::new();
        assert(field_views(v@) =~= no_fields());
        self.ipc.add_to(&mut v);
        assert(field_views(v@) =~= self.ipc.named());
        write_line("ipc", &v)
    }

    fn write_fd_lifecycle(&self) -> (r: String)
        ensures
            r@ == line_text("fd_lifecycle"@, self.fds.named()),
    {
        let mut v: Vec<(&'static str, usize)> = Vec::new();
        assert(field_views(v@) =~= no_fields());
        self.fds.add_to(&mut v);
        assert(field_views(v@) =~= self.fds.named());
        write_line("fd_lifecycle", &v)
    }

    fn write_mmap_shape(&self) -> (r: String)
        ensures
            r@ == line_text("mmap_shape"@, self.mmap_shape.named()),
    {
        let mut v: Vec<(&'static str, usize)> = Vec::new();
        assert(field_views(v@) =~= no_fields());
        self.mmap_shape.add_to(&mut v);
        assert(field_views(v@) =~= self.mmap_shape.named());
        write_line("mmap_shape", &v)
    }

    fn write_mmap_result(&self) -> (r: String)
        ensures
            r@ == line_text("mmap_result"@, self.mmap_result.named()),
    {
        let mut v: Vec<(&'static str, usize)> = Vec::new();
        assert(field_views(v@) =~= no_fields());
        self.mmap_result.add_to(&mut v);
        assert(field_views(v@) =~= self.mmap_result.named());
        write_line("mmap_result", &v)
    }

    fn write_mmap_failure_shape(&self) -> (r: String)
        ensures
            r@ == line_text("mmap_failure_shape"@, self.mmap_failures.named()),
    {
        let mut v: Vec<(&'static str, usize)> = Vec::new();
        assert(field_views(v@) =~= no_fields());
        self.mmap_failures.add_to(&mut v);
        assert(field_views(v@) =~= self.mmap_failures.named());
        write_line("mmap_failure_shape", &v)
    }

    fn write_process_progress(&self) -> (r: String)
        ensures
            r@ == line_text("process_progress"@, self.progress.named()),
    {
        let mut v: Vec<(&'static str, usize)> = Vec::new();
        assert(field_views(v@) =~= no_fields());
        self.progress.add_to(&mut v);
        assert(field_views(v@) =~= self.progress.named());
        write_line("process_progress", &v)
    }

    /// The line of a processor.
    pub open spec fn cpu_line(&self, i: int) -> Option<Seq<char>> {
        Some(line_text(
                numbered("cpu"@, i as nat),
                self.cpus@[i].named(),
            ))
    }

    fn write_cpu(&self, i: usize) -> (r: Option<String>)
        requires
            self.wf(),
            i < CPU_SLOTS,
        ensures
            match r {
                Some(text) => self.cpu_line(i as int) == Some(text@),
                None => self.cpu_line(i as int) is None,
            },
    {
        let head: String = numbered_head("cpu", i);
        let mut v: Vec<(&'static str, usize)> = Vec::new();
        assert(field_views(v@) =~= no_fields());
        self.cpus[i].add_to(&mut v);
        proof {
            let i = i as int;
            assert(field_views(v@) =~= self.cpus@[i].named());
        }
        Some(write_line(head.as_str(), &v))
    }

    /// The first `n` of these lines.
    pub open spec fn cpu_lines(&self, n: nat) -> Seq<Seq<char>>
        decreases n,
    {
        if n == 0 {
            Seq::empty()
        } else {
            match self.cpu_line(n - 1) {
                Some(text) => self.cpu_lines((n - 1) as nat).push(text),
                None => self.cpu_lines((n - 1) as nat),
            }
        }
    }

    fn write_cpu_lines(&self, out: &mut Vec<String>)
        requires
            self.wf(),
        ensures
            texts(final(out)@) == texts(old(out)@) + self.cpu_lines(CPU_SLOTS as nat),
    {
        let ghost start = texts(out@);
        let mut i: usize = 0;
        assert(texts(out@) =~= start + self.cpu_lines(0));
        while i < CPU_SLOTS
            invariant
                self.wf(),
                0 <= i <= CPU_SLOTS,
                texts(out@) == start + self.cpu_lines(i as nat),
            decreases CPU_SLOTS - i,
        {
            match self.write_cpu(i) {
                Some(text) => {
                    let ghost t = text@;
                    push_line(out, text);
                    assert(start + self.cpu_lines(i as nat).push(t) =~= (start
                        + self.cpu_lines(i as nat)).push(t));
                },
                None => {},
            }
            i = i + 1;
        }
    }

    /// The line of the programs that ran on a processor.
    pub open spec fn run_line(&self, i: int) -> Option<Seq<char>> {
        Some(line_text(
                "user_run"@,
                seq![("cpu"@, i as usize)] + self.runs@[i].named(),
            ))
    }

    fn write_run(&self, i: usize) -> (r: Option<String>)
        requires
            self.wf(),
            i < CPU_SLOTS,
        ensures
            match r {
                Some(text) => self.run_line(i as int) == Some(text@),
                None => self.run_line(i as int) is None,
            },
    {
        let head: String = "user_run".to_owned();
        let mut v: Vec<(&'static str, usize)> = Vec::new();
        assert(field_views(v@) =~= no_fields());
        v.push(("cpu", i));
        assert(field_views(v@) =~= seq![("cpu"@, i)]);
        self.runs[i].add_to(&mut v);
        proof {
            let i = i as int;
            assert(field_views(v@) =~= seq![("cpu"@, i as usize)] + self.runs@[i].named());
        }
        Some(write_line(head.as_str(), &v))
    }

    /// The first `n` of these lines.
    pub open spec fn run_lines(&self, n: nat) -> Seq<Seq<char>>
        decreases n,
    {
        if n == 0 {
            Seq::empty()
        } else {
            match self.run_line(n - 1) {
                Some(text) => self.run_lines((n - 1) as nat).push(text),
                None => self.run_lines((n - 1) as nat),
            }
        }
    }

    fn write_run_lines(&self, out: &mut Vec<String>)
        requires
            self.wf(),
        ensures
            texts(final(out)@) == texts(old(out)@) + self.run_lines(CPU_SLOTS as nat),
    {
        let ghost start = texts(out@);
        let mut i: usize = 0;
        assert(texts(out@) =~= start + self.run_lines(0));
        while i < CPU_SLOTS
            invariant
                self.wf(),
                0 <= i <= CPU_SLOTS,
                texts(out@) == start + self.run_lines(i as nat),
            decreases CPU_SLOTS - i,
        {
            match self.write_run(i) {
                Some(text) => {
                    let ghost t = text@;
                    push_line(out, text);
                    assert(start + self.run_lines(i as nat).push(t) =~= (start
                        + self.run_lines(i as nat)).push(t));
                },
                None => {},
            }
            i = i + 1;
        }
    }

    /// The line of the program that runs on a processor.
    pub open spec fn active_line(&self, i: int, now: usize) -> Option<Seq<char>> {
        Some(line_text(
                "user_active"@,
                seq![
            ("cpu"@, i as usize),
            ("pid"@, self.active@[i].pid),
            ("since_us"@, self.active@[i].since_us),
            (
                "elapsed_us"@,
                if self.active@[i].pid == 0 {
                    0
                } else {
                    passed(now, self.active@[i].since_us)
                },
            ),
            ("last_exit_us"@, self.active@[i].last_exit_us),
            ("entries"@, self.active@[i].entries),
            ("trap_kind"@, self.active@[i].trap_kind),
            ("trap_since_us"@, self.active@[i].trap_since_us),
            (
                "trap_elapsed_us"@,
                if self.active@[i].trap_kind == 0 {
                    0
                } else {
                    passed(now, self.active@[i].trap_since_us)
                },
            ),
            ("trap_entries"@, self.active@[i].trap_entries),
        ],
            ))
    }

    fn write_active(&self, i: usize, now: usize) -> (r: Option<String>)
        requires
            self.wf(),
            i < CPU_SLOTS,
        ensures
            match r {
                Some(text) => self.active_line(i as int, now) == Some(text@),
                None => self.active_line(i as int, now) is None,
            },
    {
        let head: String = "user_active".to_owned();
        let mut v: Vec<(&'static str, usize)> = Vec::new();
        assert(field_views(v@) =~= no_fields());
        let a = self.active[i];
        v.push(("cpu", i));
        v.push(("pid", a.pid));
        v.push(("since_us", a.since_us));
        v.push(
            (
                "elapsed_us",
                if a.pid == 0 {
                    0
                } else {
                    now.saturating_sub(a.since_us)
                },
            ),
        );
        v.push(("last_exit_us", a.last_exit_us));
        v.push(("entries", a.entries));
        v.push(("trap_kind", a.trap_kind));
        v.push(("trap_since_us", a.trap_since_us));
        v.push(
            (
                "trap_elapsed_us",
                if a.trap_kind == 0 {
                    0
                } else {
                    now.saturating_sub(a.trap_since_us)
                },
            ),
        );
        v.push(("trap_entries", a.trap_entries));
        proof {
            let i = i as int;
            assert(field_views(v@) =~= seq![
            ("cpu"@, i as usize),
            ("pid"@, self.active@[i].pid),
            ("since_us"@, self.active@[i].since_us),
            (
                "elapsed_us"@,
                if self.active@[i].pid == 0 {
                    0
                } else {
                    passed(now, self.active@[i].since_us)
                },
            ),
            ("last_exit_us"@, self.active@[i].last_exit_us),
            ("entries"@, self.active@[i].entries),
            ("trap_kind"@, self.active@[i].trap_kind),
            ("trap_since_us"@, self.active@[i].trap_since_us),
            (
                "trap_elapsed_us"@,
                if self.active@[i].trap_kind == 0 {
                    0
                } else {
                    passed(now, self.active@[i].trap_since_us)
                },
            ),
            ("trap_entries"@, self.active@[i].trap_entries),
        ]);
        }
        Some(write_line(head.as_str(), &v))
    }

    /// The first `n` of these lines.
    pub open spec fn active_lines(&self, n: nat, now: usize) -> Seq<Seq<char>>
        decreases n,
    {
        if n == 0 {
            Seq::empty()
        } else {
            match self.active_line(n - 1, now) {
                Some(text) => self.active_lines((n - 1) as nat, now).push(text),
                None => self.active_lines((n - 1) as nat, now),
            }
        }
    }

    fn write_active_lines(&self, out: &mut Vec<String>, now: usize)
        requires
            self.wf(),
        ensures
            texts(final(out)@) == texts(old(out)@) + self.active_lines(CPU_SLOTS as nat, now),
    {
        let ghost start = texts(out@);
        let mut i: usize = 0;
        assert(texts(out@) =~= start + self.active_lines(0, now));
        while i < CPU_SLOTS
            invariant
                self.wf(),
                0 <= i <= CPU_SLOTS,
                texts(out@) == start + self.active_lines(i as nat, now),
            decreases CPU_SLOTS - i,
        {
            match self.write_active(i, now) {
                Some(text) => {
                    let ghost t = text@;
                    push_line(out, text);
                    assert(start + self.active_lines(i as nat, now).push(t) =~= (start
                        + self.active_lines(i as nat, now)).push(t));
                },
                None => {},
            }
            i = i + 1;
        }
    }

    /// The line of a processor that waits for tasks it owns.
    pub open spec fn owner_line(&self, i: int) -> Option<Seq<char>> {
        Some(line_text(
                "blocked_owner"@,
                (seq![("cpu"@, i as usize)] + self.owners@[i].named()).push(
            ("wake_to_global"@, self.global_wakes),
        ),
            ))
    }

    fn write_owner(&self, i: usize) -> (r: Option<String>)
        requires
            self.wf(),
            i < CPU_SLOTS,
        ensures
            match r {
                Some(text) => self.owner_line(i as int) == Some(text@),
                None => self.owner_line(i as int) is None,
            },
    {
        let head: String = "blocked_owner".to_owned();
        let mut v: Vec<(&'static str, usize)> = Vec::new();
        assert(field_views(v@) =~= no_fields());
        v.push(("cpu", i));
        assert(field_views(v@) =~= seq![("cpu"@, i)]);
        self.owners[i].add_to(&mut v);
        v.push(("wake_to_global", self.global_wakes));
        proof {
            let i = i as int;
            assert(field_views(v@) =~= (seq![("cpu"@, i as usize)] + self.owners@[i].named()).push(
            ("wake_to_global"@, self.global_wakes),
        ));
        }
        Some(write_line(head.as_str(), &v))
    }

    /// The first `n` of these lines.
    pub open spec fn owner_lines(&self, n: nat) -> Seq<Seq<char>>
        decreases n,
    {
        if n == 0 {
            Seq::empty()
        } else {
            match self.owner_line(n - 1) {
                Some(text) => self.owner_lines((n - 1) as nat).push(text),
                None => self.owner_lines((n - 1) as nat),
            }
        }
    }

    fn write_owner_lines(&self, out: &mut Vec<String>)
        requires
            self.wf(),
        ensures
            texts(final(out)@) == texts(old(out)@) + self.owner_lines(CPU_SLOTS as nat),
    {
        let ghost start = texts(out@);
        let mut i: usize = 0;
        assert(texts(out@) =~= start + self.owner_lines(0));
        while i < CPU_SLOTS
            invariant
                self.wf(),
                0 <= i <= CPU_SLOTS,
                texts(out@) == start + self.owner_lines(i as nat),
            decreases CPU_SLOTS - i,
        {
            match self.write_owner(i) {
                Some(text) => {
                    let ghost t = text@;
                    push_line(out, text);
                    assert(start + self.owner_lines(i as nat).push(t) =~= (start
                        + self.owner_lines(i as nat)).push(t));
                },
                None => {},
            }
            i = i + 1;
        }
    }

    /// The line of a kind of work, if there was any.
    pub open spec fn work_line(&self, i: int) -> Option<Seq<char>> {
        if row_sum(self.work.counts@[i]@, CPU_SLOTS as nat) != 0 {
            Some(line_text(
                "work="@ + work_names()[i],
                seq![
            ("count"@, row_sum(self.work.counts@[i]@, CPU_SLOTS as nat)),
            ("total_us"@, self.work.samples@[i].total_us),
            ("max_us"@, self.work.samples@[i].max_us),
            ("sample_count"@, self.work.samples@[i].count),
            ("sample_shift"@, SAMPLE_SHIFT),
        ],
            ))
        } else {
            None
        }
    }

    fn write_work(&self, i: usize, table: &Vec<&'static str>) -> (r: Option<String>)
        requires
            self.wf(),
            i < WORK_SLOTS,
            table@.len() == WORK_SLOTS,
            forall|k: int| 0 <= k < table@.len() ==> (#[trigger] table@[k])@ == work_names()[k],
        ensures
            match r {
                Some(text) => self.work_line(i as int) == Some(text@),
                None => self.work_line(i as int) is None,
            },
    {
        let any = {
            assert(self.work.counts@[i as int]@.len() == CPU_SLOTS);
            sum_of(&self.work.counts[i]) != 0
        };
        if !any {
            return None;
        }
        let head: String = concat("work=", table[i]);
        let mut v: Vec<(&'static str, usize)> = Vec::new();
        assert(field_views(v@) =~= no_fields());
        v.push(("count", sum_of(&self.work.counts[i])));
        v.push(("total_us", self.work.samples[i].total_us));
        v.push(("max_us", self.work.samples[i].max_us));
        v.push(("sample_count", self.work.samples[i].count));
        v.push(("sample_shift", SAMPLE_SHIFT));
        proof {
            let i = i as int;
            assert(field_views(v@) =~= seq![
            ("count"@, row_sum(self.work.counts@[i]@, CPU_SLOTS as nat)),
            ("total_us"@, self.work.samples@[i].total_us),
            ("max_us"@, self.work.samples@[i].max_us),
            ("sample_count"@, self.work.samples@[i].count),
            ("sample_shift"@, SAMPLE_SHIFT),
        ]);
        }
        Some(write_line(head.as_str(), &v))
    }

    /// The first `n` of these lines.
    pub open spec fn work_lines(&self, n: nat) -> Seq<Seq<char>>
        decreases n,
    {
        if n == 0 {
            Seq::empty()
        } else {
            match self.work_line(n - 1) {
                Some(text) => self.work_lines((n - 1) as nat).push(text),
                None => self.work_lines((n - 1) as nat),
            }
        }
    }

    fn write_work_lines(&self, out: &mut Vec<String>)
        requires
            self.wf(),
        ensures
            texts(final(out)@) == texts(old(out)@) + self.work_lines(WORK_SLOTS as nat),
    {
        let ghost start = texts(out@);
        let table = work_table();
        let mut i: usize = 0;
        assert(texts(out@) =~= start + self.work_lines(0));
        while i < WORK_SLOTS
            invariant
                self.wf(),
                0 <= i <= WORK_SLOTS,
                table@.len() == WORK_SLOTS,
                forall|k: int| 0 <= k < table@.len() ==> (#[trigger] table@[k])@ == work_names()[k],
                texts(out@) == start + self.work_lines(i as nat),
            decreases WORK_SLOTS - i,
        {
            match self.write_work(i, &table) {
                Some(text) => {
                    let ghost t = text@;
                    push_line(out, text);
                    assert(start + self.work_lines(i as nat).push(t) =~= (start
                        + self.work_lines(i as nat)).push(t));
                },
                None => {},
            }
            i = i + 1;
        }
    }

    /// The line of one of these, if there was any.
    pub open spec fn phase_line(&self, i: int) -> Option<Seq<char>> {
        if self.phases@[i].count != 0 {
            Some(line_text(
                "phase="@ + phase_names()[i],
                self.phases@[i].named(),
            ))
        } else {
            None
        }
    }

    fn write_phase(&self, i: usize, table: &Vec<&'static str>) -> (r: Option<String>)
        requires
            self.wf(),
            i < PHASE_SLOTS,
            table@.len() == PHASE_SLOTS,
            forall|k: int| 0 <= k < table@.len() ==> (#[trigger] table@[k])@ == phase_names()[k],
        ensures
            match r {
                Some(text) => self.phase_line(i as int) == Some(text@),
                None => self.phase_line(i as int) is None,
            },
    {
        let any = self.phases[i].count != 0;
        if !any {
            return None;
        }
        let head: String = concat("phase=", table[i]);
        let mut v: Vec<(&'static str, usize)> = Vec::new();
        assert(field_views(v@) =~= no_fields());
        self.phases[i].add_to(&mut v);
        proof {
            let i = i as int;
            assert(field_views(v@) =~= self.phases@[i].named());
        }
        Some(write_line(head.as_str(), &v))
    }

    /// The first `n` of these lines.
    pub open spec fn phase_lines(&self, n: nat) -> Seq<Seq<char>>
        decreases n,
    {
        if n == 0 {
            Seq::empty()
        } else {
            match self.phase_line(n - 1) {
                Some(text) => self.phase_lines((n - 1) as nat).push(text),
                None => self.phase_lines((n - 1) as nat),
            }
        }
    }

    fn write_phase_lines(&self, out: &mut Vec<String>)
        requires
            self.wf(),
        ensures
            texts(final(out)@) == texts(old(out)@) + self.phase_lines(PHASE_SLOTS as nat),
    {
        let ghost start = texts(out@);
        let table = phase_table();
        let mut i: usize = 0;
        assert(texts(out@) =~= start + self.phase_lines(0));
        while i < PHASE_SLOTS
            invariant
                self.wf(),
                0 <= i <= PHASE_SLOTS,
                table@.len() == PHASE_SLOTS,
                forall|k: int| 0 <= k < table@.len() ==> (#[trigger] table@[k])@ == phase_names()[k],
                texts(out@) == start + self.phase_lines(i as nat),
            decreases PHASE_SLOTS - i,
        {
            match self.write_phase(i, &table) {
                Some(text) => {
                    let ghost t = text@;
                    push_line(out, text);
                    assert(start + self.phase_lines(i as nat).push(t) =~= (start
                        + self.phase_lines(i as nat)).push(t));
                },
                None => {},
            }
            i = i + 1;
        }
    }

    /// The line of one of these, if there was any.
    pub open spec fn source_line(&self, i: int) -> Option<Seq<char>> {
        if self.sources@[i].count != 0 {
            Some(line_text(
                "fault_source="@ + source_names()[i],
                self.sources@[i].named(),
            ))
        } else {
            None
        }
    }

    fn write_source(&self, i: usize, table: &Vec<&'static str>) -> (r: Option<String>)
        requires
            self.wf(),
            i < SOURCE_SLOTS,
            table@.len() == SOURCE_SLOTS,
            forall|k: int| 0 <= k < table@.len() ==> (#[trigger] table@[k])@ == source_names()[k],
        ensures
            match r {
                Some(text) => self.source_line(i as int) == Some(text@),
                None => self.source_line(i as int) is None,
            },
    {
        let any = self.sources[i].count != 0;
        if !any {
            return None;
        }
        let head: String = concat("fault_source=", table[i]);
        let mut v: Vec<(&'static str, usize)> = Vec::new();
        assert(field_views(v@) =~= no_fields());
        self.sources[i].add_to(&mut v);
        proof {
            let i = i as int;
            assert(field_views(v@) =~= self.sources@[i].named());
        }
        Some(write_line(head.as_str(), &v))
    }

    /// The first `n` of these lines.
    pub open spec fn source_lines(&self, n: nat) -> Seq<Seq<char>>
        decreases n,
    {
        if n == 0 {
            Seq::empty()
        } else {
            match self.source_line(n - 1) {
                Some(text) => self.source_lines((n - 1) as nat).push(text),
                None => self.source_lines((n - 1) as nat),
            }
        }
    }

    fn write_source_lines(&self, out: &mut Vec<String>)
        requires
            self.wf(),
        ensures
            texts(final(out)@) == texts(old(out)@) + self.source_lines(SOURCE_SLOTS as nat),
    {
        let ghost start = texts(out@);
        let table = source_table();
        let mut i: usize = 0;
        assert(texts(out@) =~= start + self.source_lines(0));
        while i < SOURCE_SLOTS
            invariant
                self.wf(),
                0 <= i <= SOURCE_SLOTS,
                table@.len() == SOURCE_SLOTS,
                forall|k: int| 0 <= k < table@.len() ==> (#[trigger] table@[k])@ == source_names()[k],
                texts(out@) == start + self.source_lines(i as nat),
            decreases SOURCE_SLOTS - i,
        {
            match self.write_source(i, &table) {
                Some(text) => {
                    let ghost t = text@;
                    push_line(out, text);
                    assert(start + self.source_lines(i as nat).push(t) =~= (start
                        + self.source_lines(i as nat)).push(t));
                },
                None => {},
            }
            i = i + 1;
        }
    }

    /// The line of one of these, if there was any.
    pub open spec fn resolution_line(&self, i: int) -> Option<Seq<char>> {
        if self.resolutions@[i].count != 0 {
            Some(line_text(
                "fault_resolution="@ + resolution_names()[i],
                self.resolutions@[i].named(),
            ))
        } else {
            None
        }
    }

    fn write_resolution(&self, i: usize, table: &Vec<&'static str>) -> (r: Option<String>)
        requires
            self.wf(),
            i < RESOLUTION_SLOTS,
            table@.len() == RESOLUTION_SLOTS,
            forall|k: int| 0 <= k < table@.len() ==> (#[trigger] table@[k])@ == resolution_names()[k],
        ensures
            match r {
                Some(text) => self.resolution_line(i as int) == Some(text@),
                None => self.resolution_line(i as int) is None,
            },
    {
        let any = self.resolutions[i].count != 0;
        if !any {
            return None;
        }
        let head: String = concat("fault_resolution=", table[i]);
        let mut v: Vec<(&'static str, usize)> = Vec::new();
        assert(field_views(v@) =~= no_fields());
        self.resolutions[i].add_to(&mut v);
        proof {
            let i = i as int;
            assert(field_views(v@) =~= self.resolutions@[i].named());
        }
        Some(write_line(head.as_str(), &v))
    }

    /// The first `n` of these lines.
    pub open spec fn resolution_lines(&self, n: nat) -> Seq<Seq<char>>
        decreases n,
    {
        if n == 0 {
            Seq::empty()
        } else {
            match self.resolution_line(n - 1) {
                Some(text) => self.resolution_lines((n - 1) as nat).push(text),
                None => self.resolution_lines((n - 1) as nat),
            }
        }
    }

    fn write_resolution_lines(&self, out: &mut Vec<String>)
        requires
            self.wf(),
        ensures
            texts(final(out)@) == texts(old(out)@) + self.resolution_lines(RESOLUTION_SLOTS as nat),
    {
        let ghost start = texts(out@);
        let table = resolution_table();
        let mut i: usize = 0;
        assert(texts(out@) =~= start + self.resolution_lines(0));
        while i < RESOLUTION_SLOTS
            invariant
                self.wf(),
                0 <= i <= RESOLUTION_SLOTS,
                table@.len() == RESOLUTION_SLOTS,
                forall|k: int| 0 <= k < table@.len() ==> (#[trigger] table@[k])@ == resolution_names()[k],
                texts(out@) == start + self.resolution_lines(i as nat),
            decreases RESOLUTION_SLOTS - i,
        {
            match self.write_resolution(i, &table) {
                Some(text) => {
                    let ghost t = text@;
                    push_line(out, text);
                    assert(start + self.resolution_lines(i as nat).push(t) =~= (start
                        + self.resolution_lines(i as nat)).push(t));
                },
                None => {},
            }
            i = i + 1;
        }
    }

    /// The line of one of these, if there was any.
    pub open spec fn block_line(&self, i: int) -> Option<Seq<char>> {
        if self.waits.blocks@[i].count != 0 {
            Some(line_text(
                "block="@ + block_names()[i],
                self.waits.blocks@[i].named(),
            ))
        } else {
            None
        }
    }

    fn write_block(&self, i: usize, table: &Vec<&'static str>) -> (r: Option<String>)
        requires
            self.wf(),
            i < BLOCK_SLOTS,
            table@.len() == BLOCK_SLOTS,
            forall|k: int| 0 <= k < table@.len() ==> (#[trigger] table@[k])@ == block_names()[k],
        ensures
            match r {
                Some(text) => self.block_line(i as int) == Some(text@),
                None => self.block_line(i as int) is None,
            },
    {
        let any = self.waits.blocks[i].count != 0;
        if !any {
            return None;
        }
        let head: String = concat("block=", table[i]);
        let mut v: Vec<(&'static str, usize)> = Vec::new();
        assert(field_views(v@) =~= no_fields());
        self.waits.blocks[i].add_to(&mut v);
        proof {
            let i = i as int;
            assert(field_views(v@) =~= self.waits.blocks@[i].named());
        }
        Some(write_line(head.as_str(), &v))
    }

    /// The first `n` of these lines.
    pub open spec fn block_lines(&self, n: nat) -> Seq<Seq<char>>
        decreases n,
    {
        if n == 0 {
            Seq::empty()
        } else {
            match self.block_line(n - 1) {
                Some(text) => self.block_lines((n - 1) as nat).push(text),
                None => self.block_lines((n - 1) as nat),
            }
        }
    }

    fn write_block_lines(&self, out: &mut Vec<String>)
        requires
            self.wf(),
        ensures
            texts(final(out)@) == texts(old(out)@) + self.block_lines(BLOCK_SLOTS as nat),
    {
        let ghost start = texts(out@);
        let table = block_table();
        let mut i: usize = 0;
        assert(texts(out@) =~= start + self.block_lines(0));
        while i < BLOCK_SLOTS
            invariant
                self.wf(),
                0 <= i <= BLOCK_SLOTS,
                table@.len() == BLOCK_SLOTS,
                forall|k: int| 0 <= k < table@.len() ==> (#[trigger] table@[k])@ == block_names()[k],
                texts(out@) == start + self.block_lines(i as nat),
            decreases BLOCK_SLOTS - i,
        {
            match self.write_block(i, &table) {
                Some(text) => {
                    let ghost t = text@;
                    push_line(out, text);
                    assert(start + self.block_lines(i as nat).push(t) =~= (start
                        + self.block_lines(i as nat)).push(t));
                },
                None => {},
            }
            i = i + 1;
        }
    }

    /// The line of one of these, if there was any.
    pub open spec fn wake_line(&self, i: int) -> Option<Seq<char>> {
        if self.waits.wakes@[i].count != 0 {
            Some(line_text(
                "wake_to_run block="@ + block_names()[i],
                self.waits.wakes@[i].named(),
            ))
        } else {
            None
        }
    }

    fn write_wake(&self, i: usize, table: &Vec<&'static str>) -> (r: Option<String>)
        requires
            self.wf(),
            i < BLOCK_SLOTS,
            table@.len() == BLOCK_SLOTS,
            forall|k: int| 0 <= k < table@.len() ==> (#[trigger] table@[k])@ == block_names()[k],
        ensures
            match r {
                Some(text) => self.wake_line(i as int) == Some(text@),
                None => self.wake_line(i as int) is None,
            },
    {
        let any = self.waits.wakes[i].count != 0;
        if !any {
            return None;
        }
        let head: String = concat("wake_to_run block=", table[i]);
        let mut v: Vec<(&'static str, usize)> = Vec::new();
        assert(field_views(v@) =~= no_fields());
        self.waits.wakes[i].add_to(&mut v);
        proof {
            let i = i as int;
            assert(field_views(v@) =~= self.waits.wakes@[i].named());
        }
        Some(write_line(head.as_str(), &v))
    }

    /// The first `n` of these lines.
    pub open spec fn wake_lines(&self, n: nat) -> Seq<Seq<char>>
        decreases n,
    {
        if n == 0 {
            Seq::empty()
        } else {
            match self.wake_line(n - 1) {
                Some(text) => self.wake_lines((n - 1) as nat).push(text),
                None => self.wake_lines((n - 1) as nat),
            }
        }
    }

    fn write_wake_lines(&self, out: &mut Vec<String>)
        requires
            self.wf(),
        ensures
            texts(final(out)@) == texts(old(out)@) + self.wake_lines(BLOCK_SLOTS as nat),
    {
        let ghost start = texts(out@);
        let table = block_table();
        let mut i: usize = 0;
        assert(texts(out@) =~= start + self.wake_lines(0));
        while i < BLOCK_SLOTS
            invariant
                self.wf(),
                0 <= i <= BLOCK_SLOTS,
                table@.len() == BLOCK_SLOTS,
                forall|k: int| 0 <= k < table@.len() ==> (#[trigger] table@[k])@ == block_names()[k],
                texts(out@) == start + self.wake_lines(i as nat),
            decreases BLOCK_SLOTS - i,
        {
            match self.write_wake(i, &table) {
                Some(text) => {
                    let ghost t = text@;
                    push_line(out, text);
                    assert(start + self.wake_lines(i as nat).push(t) =~= (start
                        + self.wake_lines(i as nat)).push(t));
                },
                None => {},
            }
            i = i + 1;
        }
    }

    /// The line of a kind of tasks that wait.
    pub open spec fn actor_line(&self, i: int) -> Option<Seq<char>> {
        Some(line_text(
                "wait_actor="@ + actor_names()[i],
                self.waits.actors@[i].named(),
            ))
    }

    fn write_actor(&self, i: usize, table: &Vec<&'static str>) -> (r: Option<String>)
        requires
            self.wf(),
            i < BLOCK_ACTOR_SLOTS,
            table@.len() == BLOCK_ACTOR_SLOTS,
            forall|k: int| 0 <= k < table@.len() ==> (#[trigger] table@[k])@ == actor_names()[k],
        ensures
            match r {
                Some(text) => self.actor_line(i as int) == Some(text@),
                None => self.actor_line(i as int) is None,
            },
    {
        let head: String = concat("wait_actor=", table[i]);
        let mut v: Vec<(&'static str, usize)> = Vec::new();
        assert(field_views(v@) =~= no_fields());
        self.waits.actors[i].add_to(&mut v);
        proof {
            let i = i as int;
            assert(field_views(v@) =~= self.waits.actors@[i].named());
        }
        Some(write_line(head.as_str(), &v))
    }

    /// The first `n` of these lines.
    pub open spec fn actor_lines(&self, n: nat) -> Seq<Seq<char>>
        decreases n,
    {
        if n == 0 {
            Seq::empty()
        } else {
            match self.actor_line(n - 1) {
                Some(text) => self.actor_lines((n - 1) as nat).push(text),
                None => self.actor_lines((n - 1) as nat),
            }
        }
    }

    fn write_actor_lines(&self, out: &mut Vec<String>)
        requires
            self.wf(),
        ensures
            texts(final(out)@) == texts(old(out)@) + self.actor_lines(BLOCK_ACTOR_SLOTS as nat),
    {
        let ghost start = texts(out@);
        let table = actor_table();
        let mut i: usize = 0;
        assert(texts(out@) =~= start + self.actor_lines(0));
        while i < BLOCK_ACTOR_SLOTS
            invariant
                self.wf(),
                0 <= i <= BLOCK_ACTOR_SLOTS,
                table@.len() == BLOCK_ACTOR_SLOTS,
                forall|k: int| 0 <= k < table@.len() ==> (#[trigger] table@[k])@ == actor_names()[k],
                texts(out@) == start + self.actor_lines(i as nat),
            decreases BLOCK_ACTOR_SLOTS - i,
        {
            match self.write_actor(i, &table) {
                Some(text) => {
                    let ghost t = text@;
                    push_line(out, text);
                    assert(start + self.actor_lines(i as nat).push(t) =~= (start
                        + self.actor_lines(i as nat)).push(t));
                },
                None => {},
            }
            i = i + 1;
        }
    }

    /// The line of a reason to take the lock of an address space, if there was one.
    pub open spec fn site_line(&self, i: int) -> Option<Seq<char>> {
        if row_sum(self.locks.site_acquires@[i]@, CPU_SLOTS as nat) != 0 {
            Some(line_text(
                "memory_set_site="@ + site_names()[i],
                seq![
            ("acquire_count"@, row_sum(self.locks.site_acquires@[i]@, CPU_SLOTS as nat)),
            ("contended_count"@, self.locks.sites@[i].contended),
            ("wait_total_us"@, self.locks.sites@[i].wait_total_us),
            ("wait_max_us"@, self.locks.sites@[i].wait_max_us),
            ("hold_total_us"@, self.locks.sites@[i].hold_total_us),
            ("hold_max_us"@, self.locks.sites@[i].hold_max_us),
            ("sample_shift"@, SAMPLE_SHIFT),
        ],
            ))
        } else {
            None
        }
    }

    fn write_site(&self, i: usize, table: &Vec<&'static str>) -> (r: Option<String>)
        requires
            self.wf(),
            i < SITE_SLOTS,
            table@.len() == SITE_SLOTS,
            forall|k: int| 0 <= k < table@.len() ==> (#[trigger] table@[k])@ == site_names()[k],
        ensures
            match r {
                Some(text) => self.site_line(i as int) == Some(text@),
                None => self.site_line(i as int) is None,
            },
    {
        let any = self.locks.memory_set_site_acquire_count(i) != 0;
        if !any {
            return None;
        }
        let head: String = concat("memory_set_site=", table[i]);
        let mut v: Vec<(&'static str, usize)> = Vec::new();
        assert(field_views(v@) =~= no_fields());
        let c = self.locks.sites[i];
        v.push(("acquire_count", self.locks.memory_set_site_acquire_count(i)));
        v.push(("contended_count", c.contended));
        v.push(("wait_total_us", c.wait_total_us));
        v.push(("wait_max_us", c.wait_max_us));
        v.push(("hold_total_us", c.hold_total_us));
        v.push(("hold_max_us", c.hold_max_us));
        v.push(("sample_shift", SAMPLE_SHIFT));
        proof {
            let i = i as int;
            assert(field_views(v@) =~= seq![
            ("acquire_count"@, row_sum(self.locks.site_acquires@[i]@, CPU_SLOTS as nat)),
            ("contended_count"@, self.locks.sites@[i].contended),
            ("wait_total_us"@, self.locks.sites@[i].wait_total_us),
            ("wait_max_us"@, self.locks.sites@[i].wait_max_us),
            ("hold_total_us"@, self.locks.sites@[i].hold_total_us),
            ("hold_max_us"@, self.locks.sites@[i].hold_max_us),
            ("sample_shift"@, SAMPLE_SHIFT),
        ]);
        }
        Some(write_line(head.as_str(), &v))
    }

    /// The first `n` of these lines.
    pub open spec fn site_lines(&self, n: nat) -> Seq<Seq<char>>
        decreases n,
    {
        if n == 0 {
            Seq::empty()
        } else {
            match self.site_line(n - 1) {
                Some(text) => self.site_lines((n - 1) as nat).push(text),
                None => self.site_lines((n - 1) as nat),
            }
        }
    }

    fn write_site_lines(&self, out: &mut Vec<String>)
        requires
            self.wf(),
        ensures
            texts(final(out)@) == texts(old(out)@) + self.site_lines(SITE_SLOTS as nat),
    {
        let ghost start = texts(out@);
        let table = site_table();
        let mut i: usize = 0;
        assert(texts(out@) =~= start + self.site_lines(0));
        while i < SITE_SLOTS
            invariant
                self.wf(),
                0 <= i <= SITE_SLOTS,
                table@.len() == SITE_SLOTS,
                forall|k: int| 0 <= k < table@.len() ==> (#[trigger] table@[k])@ == site_names()[k],
                texts(out@) == start + self.site_lines(i as nat),
            decreases SITE_SLOTS - i,
        {
            match self.write_site(i, &table) {
                Some(text) => {
                    let ghost t = text@;
                    push_line(out, text);
                    assert(start + self.site_lines(i as nat).push(t) =~= (start
                        + self.site_lines(i as nat)).push(t));
                },
                None => {},
            }
            i = i + 1;
        }
    }

    /// The line of a class of sizes of heap blocks, if there were any.
    pub open spec fn heap_line(&self, i: int) -> Option<Seq<char>> {
        if row_sum(self.locks.heap_allocs@[i]@, CPU_SLOTS as nat) != 0 || row_sum(
            self.locks.heap_frees@[i]@,
            CPU_SLOTS as nat,
        ) != 0 {
            Some(line_text(
                "heap_size"@,
                seq![
            ("bucket"@, i as usize),
            ("alloc_samples"@, row_sum(self.locks.heap_allocs@[i]@, CPU_SLOTS as nat)),
            ("alloc_bytes"@, row_sum(self.locks.heap_alloc_bytes@[i]@, CPU_SLOTS as nat)),
            ("free_samples"@, row_sum(self.locks.heap_frees@[i]@, CPU_SLOTS as nat)),
            ("free_bytes"@, row_sum(self.locks.heap_free_bytes@[i]@, CPU_SLOTS as nat)),
            ("sample_shift"@, SAMPLE_SHIFT),
        ],
            ))
        } else {
            None
        }
    }

    fn write_heap(&self, i: usize) -> (r: Option<String>)
        requires
            self.wf(),
            i < HEAP_BUCKETS,
        ensures
            match r {
                Some(text) => self.heap_line(i as int) == Some(text@),
                None => self.heap_line(i as int) is None,
            },
    {
        let any = {
            assert(self.locks.heap_allocs@[i as int]@.len() == CPU_SLOTS);
            assert(self.locks.heap_frees@[i as int]@.len() == CPU_SLOTS);
            sum_of(&self.locks.heap_allocs[i]) != 0 || sum_of(&self.locks.heap_frees[i]) != 0
        };
        if !any {
            return None;
        }
        let head: String = "heap_size".to_owned();
        let mut v: Vec<(&'static str, usize)> = Vec::new();
        assert(field_views(v@) =~= no_fields());
        assert(self.locks.heap_alloc_bytes@[i as int]@.len() == CPU_SLOTS);
        assert(self.locks.heap_free_bytes@[i as int]@.len() == CPU_SLOTS);
        v.push(("bucket", i));
        v.push(("alloc_samples", sum_of(&self.locks.heap_allocs[i])));
        v.push(("alloc_bytes", sum_of(&self.locks.heap_alloc_bytes[i])));
        v.push(("free_samples", sum_of(&self.locks.heap_frees[i])));
        v.push(("free_bytes", sum_of(&self.locks.heap_free_bytes[i])));
        v.push(("sample_shift", SAMPLE_SHIFT));
        proof {
            let i = i as int;
            assert(field_views(v@) =~= seq![
            ("bucket"@, i as usize),
            ("alloc_samples"@, row_sum(self.locks.heap_allocs@[i]@, CPU_SLOTS as nat)),
            ("alloc_bytes"@, row_sum(self.locks.heap_alloc_bytes@[i]@, CPU_SLOTS as nat)),
            ("free_samples"@, row_sum(self.locks.heap_frees@[i]@, CPU_SLOTS as nat)),
            ("free_bytes"@, row_sum(self.locks.heap_free_bytes@[i]@, CPU_SLOTS as nat)),
            ("sample_shift"@, SAMPLE_SHIFT),
        ]);
        }
        Some(write_line(head.as_str(), &v))
    }

    /// The first `n` of these lines.
    pub open spec fn heap_lines(&self, n: nat) -> Seq<Seq<char>>
        decreases n,
    {
        if n == 0 {
            Seq::empty()
        } else {
            match self.heap_line(n - 1) {
                Some(text) => self.heap_lines((n - 1) as nat).push(text),
                None => self.heap_lines((n - 1) as nat),
            }
        }
    }

    fn write_heap_lines(&self, out: &mut Vec<String>)
        requires
            self.wf(),
        ensures
            texts(final(out)@) == texts(old(out)@) + self.heap_lines(HEAP_BUCKETS as nat),
    {
        let ghost start = texts(out@);
        let mut i: usize = 0;
        assert(texts(out@) =~= start + self.heap_lines(0));
        while i < HEAP_BUCKETS
            invariant
                self.wf(),
                0 <= i <= HEAP_BUCKETS,
                texts(out@) == start + self.heap_lines(i as nat),
            decreases HEAP_BUCKETS - i,
        {
            match self.write_heap(i) {
                Some(text) => {
                    let ghost t = text@;
                    push_line(out, text);
                    assert(start + self.heap_lines(i as nat).push(t) =~= (start
                        + self.heap_lines(i as nat)).push(t));
                },
                None => {},
            }
            i = i + 1;
        }
    }

    /// Who had the lock of an address space.
    pub open spec fn owner_name(owner: int) -> Seq<char> {
        if owner == SITE_SLOTS {
            "unknown"@
        } else {
            site_names()[owner]
        }
    }

    /// The line of who waited for whom, if it was seen.
    pub open spec fn pair_line(&self, waiter: int, owner: int) -> Option<Seq<char>> {
        let samples = self.locks.pairs@[waiter]@[owner];
        if samples != 0 {
            Some(
                line_text(
                    "memory_set_pair waiter="@ + site_names()[waiter] + " owner="@
                        + Diagnostics::owner_name(owner),
                    seq![("samples"@, samples), ("sample_shift"@, SAMPLE_SHIFT)],
                ),
            )
        } else {
            None
        }
    }

    /// The lines of the first `n` of those for whom one waited.
    pub open spec fn pair_row(&self, waiter: int, n: nat) -> Seq<Seq<char>>
        decreases n,
    {
        if n == 0 {
            Seq::empty()
        } else {
            match self.pair_line(waiter, n - 1) {
                Some(text) => self.pair_row(waiter, (n - 1) as nat).push(text),
                None => self.pair_row(waiter, (n - 1) as nat),
            }
        }
    }

    /// The lines of the first `n` that waited.
    pub open spec fn pair_lines(&self, n: nat) -> Seq<Seq<char>>
        decreases n,
    {
        if n == 0 {
            Seq::empty()
        } else {
            self.pair_lines((n - 1) as nat) + self.pair_row(n - 1, OWNER_SLOTS as nat)
        }
    }

    fn write_pair(&self, waiter: usize, owner: usize, table: &Vec<&'static str>) -> (r: Option<String>)
        requires
            self.wf(),
            waiter < SITE_SLOTS,
            owner < OWNER_SLOTS,
            table@.len() == SITE_SLOTS,
            forall|k: int| 0 <= k < table@.len() ==> (#[trigger] table@[k])@ == site_names()[k],
        ensures
            match r {
                Some(text) => self.pair_line(waiter as int, owner as int) == Some(text@),
                None => self.pair_line(waiter as int, owner as int) is None,
            },
    {
        assert(self.locks.pairs@[waiter as int]@.len() == OWNER_SLOTS);
        let samples: usize = self.locks.pairs[waiter][owner];
        if samples == 0 {
            return None;
        }
        let name: &str = if owner == SITE_SLOTS {
            "unknown"
        } else {
            table[owner]
        };
        let front = concat("memory_set_pair waiter=", table[waiter]);
        let middle = concat(front.as_str(), " owner=");
        let head = concat(middle.as_str(), name);
        let mut v: Vec<(&'static str, usize)> = Vec::new();
        v.push(("samples", samples));
        v.push(("sample_shift", SAMPLE_SHIFT));
        assert(field_views(v@) =~= seq![("samples"@, samples), ("sample_shift"@, SAMPLE_SHIFT)]);
        Some(write_line(head.as_str(), &v))
    }

    fn write_pair_row(&self, out: &mut Vec<String>, waiter: usize, table: &Vec<&'static str>)
        requires
            self.wf(),
            waiter < SITE_SLOTS,
            table@.len() == SITE_SLOTS,
            forall|k: int| 0 <= k < table@.len() ==> (#[trigger] table@[k])@ == site_names()[k],
        ensures
            texts(final(out)@) == texts(old(out)@) + self.pair_row(
                waiter as int,
                OWNER_SLOTS as nat,
            ),
    {
        let ghost start = texts(out@);
        let mut i: usize = 0;
        assert(texts(out@) =~= start + self.pair_row(waiter as int, 0));
        while i < OWNER_SLOTS
            invariant
                self.wf(),
                waiter < SITE_SLOTS,
                0 <= i <= OWNER_SLOTS,
                table@.len() == SITE_SLOTS,
                forall|k: int| 0 <= k < table@.len() ==> (#[trigger] table@[k])@ == site_names()[k],
                texts(out@) == start + self.pair_row(waiter as int, i as nat),
            decreases OWNER_SLOTS - i,
        {
            match self.write_pair(waiter, i, table) {
                Some(text) => {
                    let ghost t = text@;
                    push_line(out, text);
                    assert(start + self.pair_row(waiter as int, i as nat).push(t) =~= (start
                        + self.pair_row(waiter as int, i as nat)).push(t));
                },
                None => {},
            }
            i = i + 1;
        }
    }

    fn write_pair_lines(&self, out: &mut Vec<String>)
        requires
            self.wf(),
        ensures
            texts(final(out)@) == texts(old(out)@) + self.pair_lines(SITE_SLOTS as nat),
    {
        let ghost start = texts(out@);
        let table = site_table();
        let mut i: usize = 0;
        assert(texts(out@) =~= start + self.pair_lines(0));
        while i < SITE_SLOTS
            invariant
                self.wf(),
                0 <= i <= SITE_SLOTS,
                table@.len() == SITE_SLOTS,
                forall|k: int| 0 <= k < table@.len() ==> (#[trigger] table@[k])@ == site_names()[k],
                texts(out@) == start + self.pair_lines(i as nat),
            decreases SITE_SLOTS - i,
        {
            self.write_pair_row(out, i, &table);
            assert(start + self.pair_lines(i as nat) + self.pair_row(i as int, OWNER_SLOTS as nat)
                =~= start + (self.pair_lines(i as nat) + self.pair_row(
                i as int,
                OWNER_SLOTS as nat,
            )));
            i = i + 1;
        }
    }

    /// Of the first `n` classes of locks that are not chosen yet, the first of
    /// those that were waited for longest.
    pub open spec fn longest(&self, chosen: Seq<bool>, n: nat) -> Option<int>
        decreases n,
    {
        if n == 0 {
            None
        } else {
            let best = self.longest(chosen, (n - 1) as nat);
            if !chosen[n - 1] && (best is None || self.locks.counts@[n - 1].wait_total_us
                > self.locks.counts@[best->0].wait_total_us) {
                Some(n - 1)
            } else {
                best
            }
        }
    }

    fn find_longest(&self, chosen: &Vec<bool>) -> (r: Option<usize>)
        requires
            self.wf(),
            chosen@.len() == LOCK_SLOTS,
        ensures
            match r {
                Some(i) => self.longest(chosen@, LOCK_SLOTS as nat) == Some(i as int) && i
                    < LOCK_SLOTS,
                None => self.longest(chosen@, LOCK_SLOTS as nat) is None,
            },
    {
        let mut best: Option<usize> = None;
        let mut i: usize = 0;
        while i < LOCK_SLOTS
            invariant
                self.wf(),
                chosen@.len() == LOCK_SLOTS,
                0 <= i <= LOCK_SLOTS,
                match best {
                    Some(b) => self.longest(chosen@, i as nat) == Some(b as int) && b < i,
                    None => self.longest(chosen@, i as nat) is None,
                },
            decreases LOCK_SLOTS - i,
        {
            if !chosen[i] {
                let better = match best {
                    None => true,
                    Some(b) => self.locks.counts[i].wait_total_us
                        > self.locks.counts[b].wait_total_us,
                };
                if better {
                    best = Some(i);
                }
            }
            i = i + 1;
        }
        best
    }

    /// The lock that comes next was waited for at least as long as any other
    /// that is left.
    pub proof fn ranking_goes_down(&self, chosen: Seq<bool>, n: nat, other: int)
        requires
            self.longest(chosen, n) is Some,
            0 <= other < n,
            !chosen[other],
        ensures
            self.locks.counts@[other].wait_total_us
                <= self.locks.counts@[self.longest(chosen, n)->0].wait_total_us,
            !chosen[self.longest(chosen, n)->0],
            0 <= self.longest(chosen, n)->0 < n,
        decreases n,
    {
        if n > 0 {
            let before = self.longest(chosen, (n - 1) as nat);
            if before is Some {
                if other < n - 1 {
                    self.ranking_goes_down(chosen, (n - 1) as nat, other);
                } else {
                    self.lemma_longest_is_left(chosen, (n - 1) as nat);
                }
            } else {
                self.lemma_longest_found(chosen, (n - 1) as nat, other);
            }
        }
    }

    proof fn lemma_longest_is_left(&self, chosen: Seq<bool>, n: nat)
        requires
            self.longest(chosen, n) is Some,
        ensures
            !chosen[self.longest(chosen, n)->0],
            0 <= self.longest(chosen, n)->0 < n,
        decreases n,
    {
        if n > 0 && self.longest(chosen, (n - 1) as nat) is Some {
            self.lemma_longest_is_left(chosen, (n - 1) as nat);
        }
    }

    proof fn lemma_longest_found(&self, chosen: Seq<bool>, n: nat, other: int)
        ensures
            0 <= other < n && !chosen[other] ==> self.longest(chosen, n) is Some,
        decreases n,
    {
        if n > 0 {
            self.lemma_longest_found(chosen, (n - 1) as nat, other);
        }
    }

    /// What is reported of a class of locks.
    pub open spec fn rank_fields(&self, slot: int) -> Seq<(Seq<char>, usize)> {
        let c = self.locks.counts@[slot];
        seq![
            ("acquire_count"@, self.locks.taken(slot)),
            ("contended_count"@, c.contended),
            ("wait_total_us"@, c.wait_total_us),
            ("wait_max_us"@, c.wait_max_us),
            ("hold_total_us"@, c.hold_total_us),
            ("hold_max_us"@, c.hold_max_us),
            (
                "sample_count"@,
                match hot_place(slot as usize) {
                    Some(h) => self.locks.hot_samples@[h as int],
                    None => self.locks.taken(slot),
                },
            ),
            (
                "sample_shift"@,
                match hot_place(slot as usize) {
                    Some(_) => SAMPLE_SHIFT,
                    None => 0,
                },
            ),
        ]
    }

    /// The line of a class of locks.
    pub open spec fn rank_line(&self, rank: nat, slot: int) -> Seq<char> {
        line_text(
            numbered("lock_rank"@, rank) + " name="@ + lock_names()[slot],
            self.rank_fields(slot),
        )
    }

    fn write_rank(&self, rank: usize, slot: usize, table: &Vec<&'static str>) -> (r: String)
        requires
            self.wf(),
            slot < LOCK_SLOTS,
            table@.len() == LOCK_SLOTS,
            forall|k: int| 0 <= k < table@.len() ==> (#[trigger] table@[k])@ == lock_names()[k],
        ensures
            r@ == self.rank_line(rank as nat, slot as int),
    {
        let c = self.locks.counts[slot];
        let taken: usize = self.locks.lock_acquire_count(slot);
        let (samples, shift): (usize, usize) = match hot_lock_slot(slot) {
            Some(h) => (self.locks.hot_samples[h], SAMPLE_SHIFT),
            None => (taken, 0),
        };
        let front = numbered_head("lock_rank", rank);
        let middle = concat(front.as_str(), " name=");
        let head = concat(middle.as_str(), table[slot]);
        let mut v: Vec<(&'static str, usize)> = Vec::new();
        v.push(("acquire_count", taken));
        v.push(("contended_count", c.contended));
        v.push(("wait_total_us", c.wait_total_us));
        v.push(("wait_max_us", c.wait_max_us));
        v.push(("hold_total_us", c.hold_total_us));
        v.push(("hold_max_us", c.hold_max_us));
        v.push(("sample_count", samples));
        v.push(("sample_shift", shift));
        assert(field_views(v@) =~= self.rank_fields(slot as int));
        write_line(head.as_str(), &v)
    }

    /// The lines of the locks that were waited for longest, from a rank on.
    pub open spec fn rank_lines(&self, chosen: Seq<bool>, rank: nat) -> Seq<Seq<char>>
        decreases RANKED_LOCKS - rank,
    {
        if rank >= RANKED_LOCKS {
            Seq::empty()
        } else {
            match self.longest(chosen, LOCK_SLOTS as nat) {
                None => Seq::empty(),
                Some(slot) => seq![self.rank_line(rank + 1, slot)] + self.rank_lines(
                    chosen.update(slot, true),
                    rank + 1,
                ),
            }
        }
    }

    fn write_rank_lines(&self, out: &mut Vec<String>)
        requires
            self.wf(),
        ensures
            texts(final(out)@) == texts(old(out)@) + self.rank_lines(
                Seq::new(LOCK_SLOTS as nat, |i: int| false),
                0,
            ),
    {
        let ghost start = texts(out@);
        let table = lock_table();
        let mut chosen: Vec<bool> = Vec::new();
        while chosen.len() < LOCK_SLOTS
            invariant
                chosen@.len() <= LOCK_SLOTS,
                forall|i: int| 0 <= i < chosen@.len() ==> !#[trigger] chosen@[i],
            decreases LOCK_SLOTS - chosen@.len(),
        {
            chosen.push(false);
        }
        let ghost none = Seq::new(LOCK_SLOTS as nat, |i: int| false);
        assert(chosen@ =~= none);
        let mut rank: usize = 0;
        let mut more = true;
        while rank < RANKED_LOCKS && more
            invariant
                self.wf(),
                chosen@.len() == LOCK_SLOTS,
                0 <= rank <= RANKED_LOCKS,
                table@.len() == LOCK_SLOTS,
                forall|k: int| 0 <= k < table@.len() ==> (#[trigger] table@[k])@ == lock_names()[k],
                more ==> texts(out@) + self.rank_lines(chosen@, rank as nat) == start
                    + self.rank_lines(none, 0),
                !more ==> texts(out@) == start + self.rank_lines(none, 0),
            decreases RANKED_LOCKS - rank + (if more { 1int } else { 0 }),
        {
            let ghost had = texts(out@);
            match self.find_longest(&chosen) {
                None => {
                    assert(had + self.rank_lines(chosen@, rank as nat) =~= had);
                    more = false;
                },
                Some(slot) => {
                    let text = self.write_rank(rank + 1, slot, &table);
                    let ghost t = text@;
                    push_line(out, text);
                    proof {
                        let rest = self.rank_lines(chosen@.update(slot as int, true), rank as nat + 1);
                        assert(had.push(t) + rest =~= had + (seq![t] + rest));
                    }
                    chosen.set(slot, true);
                    rank = rank + 1;
                },
            }
        }
        proof {
            if more {
                assert(texts(out@) + self.rank_lines(chosen@, rank as nat) =~= texts(out@));
            }
        }
    }

    /// The first line of a report.
    pub open spec fn snapshot_line(&self, now: usize, around: Surroundings) -> Seq<char> {
        line_text(
            numbered("snapshot"@, self.sequence as nat),
            (seq![("now_us"@, now), ("cpu"@, around.cpu)] + around.tasks.named()).push(
                ("rq_current"@, around.rq_current),
            ),
        )
    }

    fn write_snapshot(&self, now: usize, around: &Surroundings) -> (r: String)
        ensures
            r@ == self.snapshot_line(now, *around),
    {
        let head = numbered_head("snapshot", self.sequence);
        let mut v: Vec<(&'static str, usize)> = Vec::new();
        v.push(("now_us", now));
        v.push(("cpu", around.cpu));
        assert(field_views(v@) =~= seq![("now_us"@, now), ("cpu"@, around.cpu)]);
        around.tasks.add_to(&mut v);
        v.push(("rq_current", around.rq_current));
        assert(field_views(v@) =~= (seq![("now_us"@, now), ("cpu"@, around.cpu)]
            + around.tasks.named()).push(("rq_current"@, around.rq_current)));
        write_line(head.as_str(), &v)
    }

    /// The part of a report on processors and memory.
    pub open spec fn first_part(&self, now: usize, around: Surroundings) -> Seq<Seq<char>> {
        seq![self.snapshot_line(now, around)] + self.cpu_lines(CPU_SLOTS as nat) + self.run_lines(
            CPU_SLOTS as nat,
        ) + self.active_lines(CPU_SLOTS as nat, now) + self.owner_lines(CPU_SLOTS as nat) + seq![
            line_text("mm"@, self.mm.named()),
            line_text("frame_ownership"@, around.frames.named()),
            line_text("anonymous_vma"@, self.anonymous_vma.named()),
            line_text("anonymous_move"@, self.anonymous_move.named()),
            line_text("anonymous_coalesce"@, self.coalesce.named()),
            line_text("vma"@, self.vma.named()),
            line_text("cache"@, self.cache.named()),
        ]
    }

    /// The part of a report on work and waiting.
    pub open spec fn second_part(&self) -> Seq<Seq<char>> {
        self.work_lines(WORK_SLOTS as nat) + self.phase_lines(PHASE_SLOTS as nat)
            + self.source_lines(SOURCE_SLOTS as nat) + self.resolution_lines(
            RESOLUTION_SLOTS as nat,
        ) + self.block_lines(BLOCK_SLOTS as nat) + self.wake_lines(BLOCK_SLOTS as nat)
            + self.actor_lines(BLOCK_ACTOR_SLOTS as nat) + seq![
            line_text("poll"@, self.poll.named()),
            line_text("ipc"@, self.ipc.named()),
            line_text("fd_lifecycle"@, self.fds.named()),
        ]
    }

    /// The part of a report on locks and mappings.
    pub open spec fn third_part(&self) -> Seq<Seq<char>> {
        self.rank_lines(Seq::new(LOCK_SLOTS as nat, |i: int| false), 0) + self.site_lines(
            SITE_SLOTS as nat,
        ) + self.pair_lines(SITE_SLOTS as nat) + self.heap_lines(HEAP_BUCKETS as nat) + seq![
            line_text("mmap_shape"@, self.mmap_shape.named()),
            line_text("mmap_result"@, self.mmap_result.named()),
            line_text("mmap_failure_shape"@, self.mmap_failures.named()),
            line_text("process_progress"@, self.progress.named()),
        ]
    }

    fn write_frames(around: &Surroundings) -> (r: String)
        ensures
            r@ == line_text("frame_ownership"@, around.frames.named()),
    {
        let mut v: Vec<(&'static str, usize)> = Vec::new();
        assert(field_views(v@) =~= no_fields());
        around.frames.add_to(&mut v);
        assert(field_views(v@) =~= around.frames.named());
        write_line("frame_ownership", &v)
    }

    #[verifier::rlimit(60)]
    fn write_first_part(&self, out: &mut Vec<String>, now: usize, around: &Surroundings)
        requires
            self.wf(),
        ensures
            texts(final(out)@) == texts(old(out)@) + self.first_part(now, *around),
    {
        let ghost start = texts(out@);
        push_line(out, self.write_snapshot(now, around));
        self.write_cpu_lines(out);
        self.write_run_lines(out);
        self.write_active_lines(out, now);
        self.write_owner_lines(out);
        push_line(out, self.write_mm());
        push_line(out, Diagnostics::write_frames(around));
        push_line(out, self.write_anonymous_vma());
        push_line(out, self.write_anonymous_move());
        push_line(out, self.write_anonymous_coalesce());
        push_line(out, self.write_vma());
        push_line(out, self.write_cache());
        assert(texts(out@) =~= start + self.first_part(now, *around));
    }

    #[verifier::rlimit(60)]
    fn write_second_part(&self, out: &mut Vec<String>)
        requires
            self.wf(),
        ensures
            texts(final(out)@) == texts(old(out)@) + self.second_part(),
    {
        let ghost start = texts(out@);
        self.write_work_lines(out);
        self.write_phase_lines(out);
        self.write_source_lines(out);
        self.write_resolution_lines(out);
        self.write_block_lines(out);
        self.write_wake_lines(out);
        self.write_actor_lines(out);
        push_line(out, self.write_poll());
        push_line(out, self.write_ipc());
        push_line(out, self.write_fd_lifecycle());
        assert(texts(out@) =~= start + self.second_part());
    }

    #[verifier::rlimit(60)]
    fn write_third_part(&self, out: &mut Vec<String>)
        requires
            self.wf(),
        ensures
            texts(final(out)@) == texts(old(out)@) + self.third_part(),
    {
        let ghost start = texts(out@);
        self.write_rank_lines(out);
        self.write_site_lines(out);
        self.write_pair_lines(out);
        self.write_heap_lines(out);
        push_line(out, self.write_mmap_shape());
        push_line(out, self.write_mmap_result());
        push_line(out, self.write_mmap_failure_shape());
        push_line(out, self.write_process_progress());
        assert(texts(out@) =~= start + self.third_part());
    }

    /// The next time of a report.
    pub open spec fn later(now: usize) -> usize {
        if now + REPORT_INTERVAL_US > usize::MAX {
            usize::MAX
        } else {
            (now + REPORT_INTERVAL_US) as usize
        }
    }

    /// Writes a report if it is time for one. At first the time of the first
    /// report is set.
    pub fn maybe_report(&mut self, now: usize, around: &Surroundings) -> (r: Option<Vec<String>>)
        requires
            old(self).wf(),
        ensures
            final(self).wf(),
            *final(self) == (Diagnostics {
                next_report_at: final(self).next_report_at,
                sequence: final(self).sequence,
                ..*old(self)
            }),
            ({
                let due = old(self).next_report_at != 0 && now >= old(self).next_report_at;
                &&& final(self).next_report_at == (if due || old(self).next_report_at == 0 {
                    Diagnostics::later(now)
                } else {
                    old(self).next_report_at
                })
                &&& final(self).sequence == (if due {
                    old(self).sequence.wrapping_add(1)
                } else {
                    old(self).sequence
                })
                &&& match r {
                    Some(lines) => due && texts(lines@) == final(self).first_part(now, *around)
                        + final(self).second_part() + final(self).third_part(),
                    None => !due,
                }
            }),
    {
        let next: usize = self.next_report_at;
        if next == 0 {
            self.next_report_at = now.saturating_add(REPORT_INTERVAL_US);
            return None;
        }
        if now < next {
            return None;
        }
        self.next_report_at = now.saturating_add(REPORT_INTERVAL_US);
        self.sequence = self.sequence.wrapping_add(1);
        let mut out: Vec<String> = Vec::new();
        assert(texts(out@) =~= Seq::empty());
        self.write_first_part(&mut out, now, around);
        self.write_second_part(&mut out);
        self.write_third_part(&mut out);
        assert(Seq::<Seq<char>>::empty() + self.first_part(now, *around) =~= self.first_part(
            now,
            *around,
        ));
        Some(out)
    }

    /// The lines of the programs that have ended, from a number on.
    pub open spec fn exited_lines(kept: Seq<MmapSummary>, reported: usize) -> Seq<
        Seq<char>,
    >
        decreases kept.len(),
    {
        if kept.len() == 0 {
            Seq::empty()
        } else {
            let number = one_more(reported);
            (if kept[0].attempts == 0 {
                Seq::empty()
            } else {
                seq![line_text("mmap_protocol_exit"@, kept[0].named(number))]
            }) + Diagnostics::exited_lines(kept.drop_first(), number)
        }
    }

    /// Writes what is kept of programs that have ended, and gives it up. Then
    /// the report is at its end.
    pub fn report_exited_mmap_protocols(&mut self) -> (out: Vec<String>)
        requires
            old(self).wf(),
        ensures
            final(self).wf(),
            *final(self) == (Diagnostics { archive: final(self).archive, ..*old(self) }),
            final(self).archive@.len() == 0,
            final(self).archive.archived == old(self).archive.archived,
            final(self).archive.dropped == old(self).archive.dropped,
            final(self).archive.reported == count_on(
                old(self).archive.reported,
                old(self).archive@.len(),
            ),
            texts(out@) == Diagnostics::exited_lines(
                old(self).archive@,
                old(self).archive.reported,
            ) + seq![
                line_text(
                    "mmap_protocol_archive"@,
                    seq![
                        ("archived"@, old(self).archive.archived),
                        ("reported"@, final(self).archive.reported),
                        ("dropped"@, old(self).archive.dropped),
                        ("pending"@, 0),
                        ("capacity"@, ARCHIVE_SLOTS),
                    ],
                ),
                line_text(numbered("snapshot_end"@, old(self).sequence as nat), no_fields()),
            ],
    {
        let ghost start = self.archive@;
        let ghost goal = Diagnostics::exited_lines(self.archive@, self.archive.reported);
        let mut out: Vec<String> = Vec::new();
        assert(texts(out@) + goal =~= goal);
        while self.archive.len > 0
            invariant
                self.wf(),
                *self == (Diagnostics { archive: self.archive, ..*old(self) }),
                self.archive.archived == old(self).archive.archived,
                self.archive.dropped == old(self).archive.dropped,
                count_on(self.archive.reported, self.archive@.len()) == count_on(
                    old(self).archive.reported,
                    old(self).archive@.len(),
                ),
                texts(out@) + Diagnostics::exited_lines(self.archive@, self.archive.reported) == goal,
            decreases self.archive.len,
        {
            let ghost kept = self.archive@;
            let ghost before = self.archive.reported;
            let ghost had = texts(out@);
            assert(kept.len() == self.archive.len);
            match self.archive.pop() {
                None => {},
                Some((number, summary)) => {
                    let ghost rest = Diagnostics::exited_lines(kept.drop_first(), number);
                    match summary.report_line("mmap_protocol_exit", number) {
                        Some(text) => {
                            let ghost t = text@;
                            push_line(&mut out, text);
                            assert(had.push(t) + rest =~= had + (seq![t] + rest));
                        },
                        None => {
                            assert(had + rest =~= had + (Seq::<Seq<char>>::empty() + rest));
                        },
                    }
                    assert(self.archive@.len() == self.archive.len);
                },
            }
        }
        assert(self.archive@.len() == 0);
        let ghost had = texts(out@);
        assert(had + Diagnostics::exited_lines(self.archive@, self.archive.reported) =~= had);
        let mut v: Vec<(&'static str, usize)> = Vec::new();
        v.push(("archived", self.archive.archived));
        v.push(("reported", self.archive.reported));
        v.push(("dropped", self.archive.dropped));
        v.push(("pending", self.archive.len));
        v.push(("capacity", ARCHIVE_SLOTS));
        assert(field_views(v@) =~= seq![
            ("archived"@, self.archive.archived),
            ("reported"@, self.archive.reported),
            ("dropped"@, self.archive.dropped),
            ("pending"@, 0usize),
            ("capacity"@, ARCHIVE_SLOTS),
        ]);
        push_line(&mut out, write_line("mmap_protocol_archive", &v));
        let none: Vec<(&'static str, usize)> = Vec::new();
        assert(field_views(none@) =~= no_fields());
        let head = numbered_head("snapshot_end", self.sequence);
        push_line(&mut out, write_line(head.as_str(), &none));
        assert(texts(out@) =~= goal + seq![
            line_text("mmap_protocol_archive"@, field_views(v@)),
            line_text(numbered("snapshot_end"@, self.sequence as nat), no_fields()),
        ]);
        out
    }

    /// Keeps what was counted of a program that ends, if it asked for anything.
    pub fn archive_mmap_protocol(&mut self, summary: MmapSummary)
        requires
            old(self).wf(),
        ensures
            final(self).wf(),
            *final(self) == (Diagnostics { archive: final(self).archive, ..*old(self) }),
            summary.attempts == 0 ==> final(self).archive == old(self).archive,
            final(self).archive.reported == old(self).archive.reported,
            summary.attempts != 0 && old(self).archive@.len() < ARCHIVE_SLOTS
                ==> final(self).archive@ == old(self).archive@.push(summary)
                && final(self).archive.dropped == old(self).archive.dropped,
            summary.attempts != 0 && old(self).archive@.len() == ARCHIVE_SLOTS
                ==> final(self).archive@ == old(self).archive@ && final(self).archive.dropped
                == one_more(old(self).archive.dropped),
            summary.attempts != 0 ==> final(self).archive.archived
                == one_more(old(self).archive.archived),
    {
        if summary.attempts != 0 {
            self.archive.push(summary);
        }
    }
}

} // verus!

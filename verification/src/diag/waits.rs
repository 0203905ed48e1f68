//! How long tasks wait for something, and how long it takes until they run
//! again.
use vstd::prelude::*;

use crate::diag::groups::{ActorCounts, BlockCounts, Tally};
use crate::diag::notes::{greater, greater_of, passed, up_if};
use crate::text::to_chars;

verus! {

/// How many reasons for waiting there are.
pub const BLOCK_SLOTS: usize = 7;

/// How many kinds of tasks are told apart.
pub const BLOCK_ACTOR_SLOTS: usize = 3;

/// Why a task waits.
#[derive(Clone, Copy, PartialEq, Eq, Structural, Debug)]
pub enum BlockReason {
    Io,
    PipeFdReady,
    Poll,
    ChildExit,
    Timer,
    Futex,
    Signal,
}

/// How waiting ended.
#[derive(Clone, Copy, PartialEq, Eq, Structural, Debug)]
pub enum WaitOutcome {
    Woken,
    TimedOut,
    Interrupted,
}

impl BlockReason {
    /// The place of a reason.
    pub open spec fn place(self) -> usize {
        match self {
            BlockReason::Io => 0,
            BlockReason::PipeFdReady => 1,
            BlockReason::Poll => 2,
            BlockReason::ChildExit => 3,
            BlockReason::Timer => 4,
            BlockReason::Futex => 5,
            BlockReason::Signal => 6,
        }
    }

    /// The place of a reason.
    pub fn block_slot(self) -> (r: usize)
        ensures
            r == self.place(),
            r < BLOCK_SLOTS,
    {
        match self {
            BlockReason::Io => 0,
            BlockReason::PipeFdReady => 1,
            BlockReason::Poll => 2,
            BlockReason::ChildExit => 3,
            BlockReason::Timer => 4,
            BlockReason::Futex => 5,
            BlockReason::Signal => 6,
        }
    }
}

/// Whether a text stands somewhere in another.
pub open spec fn stands_in(part: Seq<char>, s: Seq<char>) -> bool {
    exists|i: int| #[trigger] stands_at(part, s, i)
}

/// Whether a text stands at a place of another.
pub open spec fn stands_at(part: Seq<char>, s: Seq<char>, i: int) -> bool {
    0 <= i && i + part.len() <= s.len() && s.subrange(i, i + part.len()) == part
}

fn contains_text(s: &str, part: &str) -> (r: bool)
    ensures
        r == stands_in(part@, s@),
{
    let text = to_chars(s);
    let wanted = to_chars(part);
    if wanted.len() > text.len() {
        return false;
    }
    let last: usize = text.len() - wanted.len();
    assert(text@.len() == text.len());
    let mut i: usize = 0;
    loop
        invariant
            text@ == s@,
            wanted@ == part@,
            s@.len() <= usize::MAX,
            last == s@.len() - part@.len(),
            0 <= i <= last,
            forall|j: int| 0 <= j < i ==> !#[trigger] stands_at(part@, s@, j),
        decreases last - i,
    {
        let mut k: usize = 0;
        while k < wanted.len() && text[i + k] == wanted[k]
            invariant
                text@ == s@,
                wanted@ == part@,
                last == s@.len() - part@.len(),
                i <= last,
                0 <= k <= wanted@.len(),
                s@.len() <= usize::MAX,
                forall|j: int| 0 <= j < k ==> s@[i + j] == #[trigger] part@[j],
            decreases wanted@.len() - k,
        {
            k = k + 1;
        }
        if k == wanted.len() {
            assert(s@.subrange(i as int, i + part@.len()) =~= part@);
            assert(stands_at(part@, s@, i as int));
            return true;
        }
        assert(!stands_at(part@, s@, i as int)) by {
            if s@.subrange(i as int, i + part@.len()) == part@ {
                assert(s@.subrange(i as int, i + part@.len())[k as int] == s@[i + k]);
            }
        }
        if i == last {
            return false;
        }
        i = i + 1;
    }
}

/// The kind of a task: a compiler, a builder or another.
pub open spec fn actor_of(exec_path: Option<Seq<char>>) -> usize {
    match exec_path {
        None => 2,
        Some(path) => if stands_in("rustc"@, path) {
            0
        } else if stands_in("cargo"@, path) {
            1
        } else {
            2
        },
    }
}

/// The kind of a task by the program that it runs, where that is known.
pub fn block_actor_slot(exec_path: Option<&str>) -> (r: usize)
    ensures
        r == actor_of(
            match exec_path {
                Some(path) => Some(path@),
                None => None,
            },
        ),
        r < BLOCK_ACTOR_SLOTS,
{
    match exec_path {
        None => 2,
        Some(path) => {
            if contains_text(path, "rustc") {
                0
            } else if contains_text(path, "cargo") {
                1
            } else {
                2
            }
        },
    }
}

/// Since when and why a task waits, or has been ready to run.
#[derive(Clone, Copy, PartialEq, Eq, Debug)]
pub struct WaitStamps {
    pub started_at: usize,
    pub reason: Option<(BlockReason, usize)>,
    pub woken_at: usize,
    pub woken_reason: Option<(BlockReason, usize)>,
    pub count: usize,
    pub total_us: usize,
}

impl WaitStamps {
    /// The task has not waited.
    pub fn new() -> (r: Self)
        ensures
            r == (WaitStamps {
                started_at: 0,
                reason: None,
                woken_at: 0,
                woken_reason: None,
                count: 0,
                total_us: 0,
            }),
    {
        WaitStamps {
            started_at: 0,
            reason: None,
            woken_at: 0,
            woken_reason: None,
            count: 0,
            total_us: 0,
        }
    }
}

/// What is counted of tasks that wait.
pub struct Waits {
    pub blocks: Vec<BlockCounts>,
    pub wakes: Vec<Tally>,
    pub actors: Vec<ActorCounts>,
}

impl Waits {
    /// There is a place for each reason and each kind of task.
    pub open spec fn wf(&self) -> bool {
        self.blocks@.len() == BLOCK_SLOTS && self.wakes@.len() == BLOCK_SLOTS && self.actors@.len()
            == BLOCK_ACTOR_SLOTS
    }

    /// Nothing has been counted.
    pub fn new() -> (r: Self)
        ensures
            r.wf(),
            forall|i: int|
                0 <= i < BLOCK_SLOTS ==> #[trigger] r.blocks@[i] == BlockCounts::nothing(),
            forall|i: int| 0 <= i < BLOCK_SLOTS ==> #[trigger] r.wakes@[i] == Tally::nothing(),
            forall|i: int|
                0 <= i < BLOCK_ACTOR_SLOTS ==> #[trigger] r.actors@[i] == ActorCounts::nothing(),
    {
        let mut blocks: Vec<BlockCounts> = Vec::new();
        let mut wakes: Vec<Tally> = Vec::new();
        let mut actors: Vec<ActorCounts> = Vec::new();
        while blocks.len() < BLOCK_SLOTS
            invariant
                blocks@.len() <= BLOCK_SLOTS,
                blocks@.len() == wakes@.len(),
                forall|i: int|
                    0 <= i < blocks@.len() ==> #[trigger] blocks@[i] == BlockCounts::nothing(),
                forall|i: int| 0 <= i < wakes@.len() ==> #[trigger] wakes@[i] == Tally::nothing(),
            decreases BLOCK_SLOTS - blocks@.len(),
        {
            blocks.push(BlockCounts::new());
            wakes.push(Tally::new());
        }
        while actors.len() < BLOCK_ACTOR_SLOTS
            invariant
                actors@.len() <= BLOCK_ACTOR_SLOTS,
                forall|i: int|
                    0 <= i < actors@.len() ==> #[trigger] actors@[i] == ActorCounts::nothing(),
            decreases BLOCK_ACTOR_SLOTS - actors@.len(),
        {
            actors.push(ActorCounts::new());
        }
        Waits { blocks, wakes, actors }
    }

    /// Counts that a task begins to wait.
    pub fn note_block_start(
        &mut self,
        task: &mut WaitStamps,
        reason: BlockReason,
        actor: usize,
        now: usize,
    )
        requires
            old(self).wf(),
            actor < BLOCK_ACTOR_SLOTS,
        ensures
            final(self).wf(),
            *final(task) == (WaitStamps {
                started_at: now,
                reason: Some((reason, actor)),
                woken_at: 0,
                woken_reason: None,
                ..*old(task)
            }),
            final(self).wakes == old(self).wakes,
            ({
                let b = old(self).blocks@[reason.place() as int];
                let a = old(self).actors@[actor as int];
                &&& final(self).blocks@ == old(self).blocks@.update(
                    reason.place() as int,
                    BlockCounts { count: b.count.wrapping_add(1), ..b },
                )
                &&& final(self).actors@ == old(self).actors@.update(
                    actor as int,
                    ActorCounts { count: a.count.wrapping_add(1), ..a },
                )
            }),
    {
        task.started_at = now;
        task.reason = Some((reason, actor));
        task.woken_at = 0;
        task.woken_reason = None;
        let slot: usize = reason.block_slot();
        let mut b = self.blocks[slot];
        b.count = b.count.wrapping_add(1);
        self.blocks.set(slot, b);
        let mut a = self.actors[actor];
        a.count = a.count.wrapping_add(1);
        self.actors.set(actor, a);
    }

    /// Whether a task that stops waiting had begun to.
    pub open spec fn was_waiting(task: WaitStamps) -> bool {
        task.started_at != 0 && task.reason is Some && task.reason->Some_0.1 < BLOCK_ACTOR_SLOTS
    }

    /// Counts that a task has stopped waiting, and how that came.
    pub fn note_block_end(&mut self, task: &mut WaitStamps, outcome: WaitOutcome, now: usize)
        requires
            old(self).wf(),
        ensures
            final(self).wf(),
            final(self).wakes == old(self).wakes,
            !Waits::was_waiting(*old(task)) ==> *final(self) == *old(self) && *final(task) == (
            WaitStamps { started_at: 0, reason: None, ..*old(task) }),
            Waits::was_waiting(*old(task)) ==> ({
                let (reason, actor) = old(task).reason->0;
                let elapsed = passed(now, old(task).started_at);
                let b = old(self).blocks@[reason.place() as int];
                let a = old(self).actors@[actor as int];
                &&& *final(task) == (WaitStamps {
                    started_at: 0,
                    reason: None,
                    woken_at: now,
                    woken_reason: Some((reason, actor)),
                    count: old(task).count.wrapping_add(1),
                    total_us: old(task).total_us.wrapping_add(elapsed),
                })
                &&& final(self).blocks@ == old(self).blocks@.update(
                    reason.place() as int,
                    BlockCounts {
                        count: b.count,
                        total_us: b.total_us.wrapping_add(elapsed),
                        max_us: greater(b.max_us, elapsed),
                        woken: up_if(b.woken, outcome == WaitOutcome::Woken),
                        timed_out: up_if(b.timed_out, outcome == WaitOutcome::TimedOut),
                        interrupted: up_if(b.interrupted, outcome == WaitOutcome::Interrupted),
                    },
                )
                &&& final(self).actors@ == old(self).actors@.update(
                    actor as int,
                    ActorCounts { total_us: a.total_us.wrapping_add(elapsed), ..a },
                )
            }),
    {
        let started: usize = task.started_at;
        let stamped = task.reason;
        task.started_at = 0;
        task.reason = None;
        if started == 0 {
            return;
        }
        let (reason, actor) = match stamped {
            Some(pair) => pair,
            None => {
                return;
            },
        };
        if actor >= BLOCK_ACTOR_SLOTS {
            return;
        }
        let slot: usize = reason.block_slot();
        let elapsed: usize = now.saturating_sub(started);
        let mut b = self.blocks[slot];
        b.total_us = b.total_us.wrapping_add(elapsed);
        b.max_us = greater_of(b.max_us, elapsed);
        match outcome {
            WaitOutcome::Woken => {
                b.woken = b.woken.wrapping_add(1);
            },
            WaitOutcome::TimedOut => {
                b.timed_out = b.timed_out.wrapping_add(1);
            },
            WaitOutcome::Interrupted => {
                b.interrupted = b.interrupted.wrapping_add(1);
            },
        }
        self.blocks.set(slot, b);
        let mut a = self.actors[actor];
        a.total_us = a.total_us.wrapping_add(elapsed);
        self.actors.set(actor, a);
        task.count = task.count.wrapping_add(1);
        task.total_us = task.total_us.wrapping_add(elapsed);
        task.woken_reason = Some((reason, actor));
        task.woken_at = now;
    }

    /// Counts how long it took until a task that was woken ran again, once for
    /// each time it waited.
    pub fn note_woken_task_dispatched(&mut self, task: &mut WaitStamps, now: usize)
        requires
            old(self).wf(),
        ensures
            final(self).wf(),
            final(self).blocks == old(self).blocks,
            final(self).actors == old(self).actors,
            *final(task) == (WaitStamps { woken_at: 0, woken_reason: None, ..*old(task) }),
            final(self).wakes@ == (if old(task).woken_at == 0 || old(task).woken_reason is None {
                old(self).wakes@
            } else {
                let slot = old(task).woken_reason->Some_0.0.place() as int;
                old(self).wakes@.update(
                    slot,
                    old(self).wakes@[slot].with(passed(now, old(task).woken_at)),
                )
            }),
    {
        let woken_at: usize = task.woken_at;
        let stamped = task.woken_reason;
        task.woken_at = 0;
        task.woken_reason = None;
        if woken_at == 0 {
            return;
        }
        match stamped {
            None => {},
            Some((reason, _actor)) => {
                let slot: usize = reason.block_slot();
                let mut tally = self.wakes[slot];
                tally.note(now.saturating_sub(woken_at));
                self.wakes.set(slot, tally);
            },
        }
    }
}

} // verus!

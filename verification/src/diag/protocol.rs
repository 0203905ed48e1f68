//! Large mappings that a program asks for and then trims to what it needs.
use vstd::prelude::*;

use crate::diag::line::{field_views, line_text, write_line};

verus! {

/// How many mappings are watched at a time.
pub const PROTOCOL_SLOTS: usize = 16;

/// A mapping that is watched: the number of the request, where it lies, and how
/// often it was trimmed.
#[derive(Clone, Copy, PartialEq, Eq, Structural, Debug)]
pub struct Reservation {
    pub sequence: usize,
    pub start: usize,
    pub end: usize,
    pub trims: usize,
}

/// What was counted of the mappings of a program.
#[derive(Clone, Copy, PartialEq, Eq, Structural, Debug)]
pub struct MmapSummary {
    pub tgid: usize,
    pub last_sequence: usize,
    pub attempts: usize,
    pub select_enomem: usize,
    pub commit_failures: usize,
    pub successes: usize,
    pub active: usize,
    pub evictions: usize,
    pub trim_first: usize,
    pub trim_second: usize,
    pub trim_extra: usize,
    pub trim_prefix: usize,
    pub trim_suffix: usize,
    pub full_release: usize,
    pub munmap_unmatched: usize,
    pub requested_bytes: usize,
    pub successful_bytes: usize,
}

impl MmapSummary {
    /// Nothing has been counted.
    pub open spec fn nothing(tgid: usize) -> MmapSummary {
        MmapSummary {
            tgid,
            last_sequence: 0,
            attempts: 0,
            select_enomem: 0,
            commit_failures: 0,
            successes: 0,
            active: 0,
            evictions: 0,
            trim_first: 0,
            trim_second: 0,
            trim_extra: 0,
            trim_prefix: 0,
            trim_suffix: 0,
            full_release: 0,
            munmap_unmatched: 0,
            requested_bytes: 0,
            successful_bytes: 0,
        }
    }

    /// Nothing has been counted.
    pub fn new(tgid: usize) -> (r: Self)
        ensures
            r == MmapSummary::nothing(tgid),
    {
        MmapSummary {
            tgid,
            last_sequence: 0,
            attempts: 0,
            select_enomem: 0,
            commit_failures: 0,
            successes: 0,
            active: 0,
            evictions: 0,
            trim_first: 0,
            trim_second: 0,
            trim_extra: 0,
            trim_prefix: 0,
            trim_suffix: 0,
            full_release: 0,
            munmap_unmatched: 0,
            requested_bytes: 0,
            successful_bytes: 0,
        }
    }

    /// What is reported.
    pub open spec fn named(self, archive_sequence: usize) -> Seq<(Seq<char>, usize)> {
        seq![
            ("archive_sequence"@, archive_sequence),
            ("tgid"@, self.tgid),
            ("last_sequence"@, self.last_sequence),
            ("attempts"@, self.attempts),
            ("select_enomem"@, self.select_enomem),
            ("commit_failures"@, self.commit_failures),
            ("successes"@, self.successes),
            ("active"@, self.active),
            ("evictions"@, self.evictions),
            ("trim_first"@, self.trim_first),
            ("trim_second"@, self.trim_second),
            ("trim_extra"@, self.trim_extra),
            ("trim_prefix"@, self.trim_prefix),
            ("trim_suffix"@, self.trim_suffix),
            ("full_release"@, self.full_release),
            ("munmap_unmatched"@, self.munmap_unmatched),
            ("requested_bytes"@, self.requested_bytes),
            ("successful_bytes"@, self.successful_bytes),
        ]
    }

    /// The line of the report; none where nothing was asked for.
    pub fn report_line(&self, label: &str, archive_sequence: usize) -> (r: Option<String>)
        ensures
            match r {
                Some(text) => self.attempts != 0 && text@ == line_text(
                    label@,
                    self.named(archive_sequence),
                ),
                None => self.attempts == 0,
            },
    {
        if self.attempts == 0 {
            return None;
        }
        let mut v: Vec<(&'static str, usize)> = Vec::new();
        v.push(("archive_sequence", archive_sequence));
        v.push(("tgid", self.tgid));
        v.push(("last_sequence", self.last_sequence));
        v.push(("attempts", self.attempts));
        v.push(("select_enomem", self.select_enomem));
        v.push(("commit_failures", self.commit_failures));
        v.push(("successes", self.successes));
        v.push(("active", self.active));
        v.push(("evictions", self.evictions));
        v.push(("trim_first", self.trim_first));
        v.push(("trim_second", self.trim_second));
        v.push(("trim_extra", self.trim_extra));
        v.push(("trim_prefix", self.trim_prefix));
        v.push(("trim_suffix", self.trim_suffix));
        v.push(("full_release", self.full_release));
        v.push(("munmap_unmatched", self.munmap_unmatched));
        v.push(("requested_bytes", self.requested_bytes));
        v.push(("successful_bytes", self.successful_bytes));
        assert(field_views(v@) =~= self.named(archive_sequence));
        Some(write_line(label, &v))
    }
}

/// The mappings of a program that are watched, and what was counted of them.
pub struct MmapProtocol {
    pub counts: MmapSummary,
    pub slots: Vec<Option<Reservation>>,
}

/// How many places are taken.
pub open spec fn watched(slots: Seq<Option<Reservation>>) -> nat
    decreases slots.len(),
{
    if slots.len() == 0 {
        0
    } else {
        watched(slots.drop_last()) + (if slots.last() is Some {
            1nat
        } else {
            0
        })
    }
}

proof fn lemma_watched_update(slots: Seq<Option<Reservation>>, i: int, v: Option<Reservation>)
    requires
        0 <= i < slots.len(),
    ensures
        watched(slots.update(i, v)) == watched(slots) - (if slots[i] is Some {
            1int
        } else {
            0
        }) + (if v is Some {
            1int
        } else {
            0
        }),
        watched(slots) <= slots.len(),
        slots[i] is Some ==> watched(slots) > 0,
    decreases slots.len(),
{
    if i == slots.len() - 1 {
        assert(slots.update(i, v).drop_last() =~= slots.drop_last());
        lemma_watched_bound(slots);
    } else {
        lemma_watched_update(slots.drop_last(), i, v);
        assert(slots.update(i, v).drop_last() =~= slots.drop_last().update(i, v));
    }
}

proof fn lemma_watched_bound(slots: Seq<Option<Reservation>>)
    ensures
        watched(slots) <= slots.len(),
    decreases slots.len(),
{
    if slots.len() > 0 {
        lemma_watched_bound(slots.drop_last());
    }
}

proof fn lemma_none_watched(slots: Seq<Option<Reservation>>)
    ensures
        watched(slots) == 0 <==> forall|i: int| 0 <= i < slots.len() ==> (#[trigger] slots[i]) is None,
    decreases slots.len(),
{
    if slots.len() > 0 {
        let front = slots.drop_last();
        lemma_none_watched(front);
        if watched(slots) == 0 {
            assert forall|i: int| 0 <= i < slots.len() implies (#[trigger] slots[i]) is None by {
                if i < front.len() {
                    assert(front[i] == slots[i]);
                }
            }
        } else if watched(front) > 0 {
            let i = choose|i: int| 0 <= i < front.len() && (#[trigger] front[i]) is Some;
            assert(slots[i] is Some);
        } else {
            assert(slots[slots.len() - 1] is Some);
        }
    }
}

/// How giving up addresses changes a mapping that is watched.
#[derive(Clone, Copy, PartialEq, Eq, Structural, Debug)]
pub enum Trim {
    /// The mapping is given up.
    Whole,
    /// Its beginning is.
    Prefix,
    /// Its end is.
    Suffix,
}

impl Reservation {
    /// How giving up addresses changes the mapping, if it does.
    pub open spec fn trimmed_by(self, start: usize, end: usize) -> Option<Trim> {
        if start == self.start && end == self.end {
            Some(Trim::Whole)
        } else if start == self.start && start < end < self.end {
            Some(Trim::Prefix)
        } else if end == self.end && self.start < start < end {
            Some(Trim::Suffix)
        } else {
            None
        }
    }

    /// How giving up addresses changes the mapping, if it does.
    pub fn trim(&self, start: usize, end: usize) -> (r: Option<Trim>)
        ensures
            r == self.trimmed_by(start, end),
    {
        if start == self.start && end == self.end {
            Some(Trim::Whole)
        } else if start == self.start && end > start && end < self.end {
            Some(Trim::Prefix)
        } else if end == self.end && start > self.start && start < end {
            Some(Trim::Suffix)
        } else {
            None
        }
    }

    /// The mapping after it was trimmed. After the second time it is no longer
    /// watched.
    pub open spec fn after(self, trim: Trim, start: usize, end: usize) -> Option<Reservation> {
        match trim {
            Trim::Whole => None,
            Trim::Prefix => if self.trims >= 1 {
                None
            } else {
                Some(Reservation { start: end, trims: (self.trims + 1) as usize, ..self })
            },
            Trim::Suffix => if self.trims >= 1 {
                None
            } else {
                Some(Reservation { end: start, trims: (self.trims + 1) as usize, ..self })
            },
        }
    }
}

impl MmapSummary {
    /// What is counted when a mapping was trimmed.
    pub open spec fn after_trim(self, r: Reservation, trim: Trim) -> MmapSummary {
        match trim {
            Trim::Whole => MmapSummary {
                full_release: self.full_release.wrapping_add(1),
                active: self.active.wrapping_sub(1),
                ..self
            },
            _ => MmapSummary {
                trim_prefix: if trim == Trim::Prefix {
                    self.trim_prefix.wrapping_add(1)
                } else {
                    self.trim_prefix
                },
                trim_suffix: if trim == Trim::Suffix {
                    self.trim_suffix.wrapping_add(1)
                } else {
                    self.trim_suffix
                },
                trim_first: if r.trims == 0 {
                    self.trim_first.wrapping_add(1)
                } else {
                    self.trim_first
                },
                trim_second: if r.trims == 1 {
                    self.trim_second.wrapping_add(1)
                } else {
                    self.trim_second
                },
                trim_extra: if r.trims > 1 {
                    self.trim_extra.wrapping_add(1)
                } else {
                    self.trim_extra
                },
                active: if r.trims >= 1 {
                    self.active.wrapping_sub(1)
                } else {
                    self.active
                },
                ..self
            },
        }
    }
}

impl MmapProtocol {
    /// There are as many places as there should be, and it is counted how many
    /// are taken.
    pub open spec fn wf(&self) -> bool {
        self.slots@.len() == PROTOCOL_SLOTS && self.counts.active == watched(self.slots@)
    }

    /// Nothing is watched.
    pub fn new(tgid: usize) -> (r: Self)
        ensures
            r.wf(),
            r.counts == MmapSummary::nothing(tgid),
            forall|i: int| 0 <= i < PROTOCOL_SLOTS ==> (#[trigger] r.slots@[i]) is None,
    {
        let mut slots: Vec<Option<Reservation>> = Vec::new();
        while slots.len() < PROTOCOL_SLOTS
            invariant
                slots@.len() <= PROTOCOL_SLOTS,
                forall|i: int| 0 <= i < slots@.len() ==> (#[trigger] slots@[i]) is None,
            decreases PROTOCOL_SLOTS - slots@.len(),
        {
            slots.push(None);
        }
        proof {
            lemma_none_watched(slots@);
        }
        MmapProtocol { counts: MmapSummary::new(tgid), slots }
    }

    /// Counts that a mapping is asked for, and numbers the request.
    pub fn begin_mmap_protocol(&mut self, length: usize) -> (sequence: usize)
        requires
            old(self).wf(),
        ensures
            final(self).wf(),
            sequence == old(self).counts.last_sequence.wrapping_add(1),
            final(self).slots == old(self).slots,
            final(self).counts == (MmapSummary {
                last_sequence: sequence,
                attempts: old(self).counts.attempts.wrapping_add(1),
                requested_bytes: old(self).counts.requested_bytes.wrapping_add(length),
                ..old(self).counts
            }),
    {
        let sequence: usize = self.counts.last_sequence.wrapping_add(1);
        self.counts.last_sequence = sequence;
        self.counts.attempts = self.counts.attempts.wrapping_add(1);
        self.counts.requested_bytes = self.counts.requested_bytes.wrapping_add(length);
        sequence
    }

    /// Counts that no addresses were found.
    pub fn select_enomem(&mut self)
        requires
            old(self).wf(),
        ensures
            final(self).wf(),
            final(self).slots == old(self).slots,
            final(self).counts == (MmapSummary {
                select_enomem: old(self).counts.select_enomem.wrapping_add(1),
                ..old(self).counts
            }),
    {
        self.counts.select_enomem = self.counts.select_enomem.wrapping_add(1);
    }

    /// Counts that a mapping was given up after addresses had been found.
    pub fn commit_failed(&mut self)
        requires
            old(self).wf(),
        ensures
            final(self).wf(),
            final(self).slots == old(self).slots,
            final(self).counts == (MmapSummary {
                commit_failures: old(self).counts.commit_failures.wrapping_add(1),
                ..old(self).counts
            }),
    {
        self.counts.commit_failures = self.counts.commit_failures.wrapping_add(1);
    }

    /// Watches a new mapping, in place of an older one if need be.
    pub fn note_mmap_protocol_success(&mut self, sequence: usize, start: usize, end: usize)
        requires
            old(self).wf(),
            sequence > 0,
        ensures
            final(self).wf(),
            ({
                let i = (sequence - 1) % PROTOCOL_SLOTS as int;
                let taken = old(self).slots@[i] is Some;
                &&& final(self).slots@ == old(self).slots@.update(
                    i,
                    Some(Reservation { sequence, start, end, trims: 0 }),
                )
                &&& final(self).counts == (MmapSummary {
                    active: if taken {
                        old(self).counts.active
                    } else {
                        (old(self).counts.active + 1) as usize
                    },
                    evictions: if taken {
                        old(self).counts.evictions.wrapping_add(1)
                    } else {
                        old(self).counts.evictions
                    },
                    successes: old(self).counts.successes.wrapping_add(1),
                    successful_bytes: old(self).counts.successful_bytes.wrapping_add(
                        if end >= start {
                            (end - start) as usize
                        } else {
                            0
                        },
                    ),
                    ..old(self).counts
                })
            }),
    {
        let index: usize = (sequence - 1) % PROTOCOL_SLOTS;
        proof {
            lemma_watched_update(
                self.slots@,
                index as int,
                Some(Reservation { sequence, start, end, trims: 0 }),
            );
        }
        if self.slots[index].is_none() {
            self.counts.active = self.counts.active + 1;
        } else {
            self.counts.evictions = self.counts.evictions.wrapping_add(1);
        }
        self.slots.set(index, Some(Reservation { sequence, start, end, trims: 0 }));
        self.counts.successes = self.counts.successes.wrapping_add(1);
        self.counts.successful_bytes = self.counts.successful_bytes.wrapping_add(
            end.saturating_sub(start),
        );
    }

    /// Whether a place is the first whose mapping is changed by giving up
    /// addresses.
    pub open spec fn first_trimmed(&self, start: usize, end: usize, i: int) -> bool {
        &&& 0 <= i < PROTOCOL_SLOTS
        &&& self.is_trimmed(start, end, i)
        &&& forall|j: int| 0 <= j < i ==> !#[trigger] self.is_trimmed(start, end, j)
    }

    /// Whether the mapping at a place is changed by giving up addresses.
    pub open spec fn is_trimmed(&self, start: usize, end: usize, i: int) -> bool {
        self.slots@[i] is Some && self.slots@[i]->0.trimmed_by(start, end) is Some
    }

    /// Counts that addresses were given up: the first mapping that this changes
    /// is trimmed.
    pub fn note_munmap_protocol(&mut self, start: usize, end: usize)
        requires
            old(self).wf(),
        ensures
            final(self).wf(),
            (exists|i: int| #[trigger] old(self).first_trimmed(start, end, i)) ==> exists|i: int| #[trigger]
                old(self).first_trimmed(start, end, i) && {
                    let r = old(self).slots@[i]->0;
                    let trim = r.trimmed_by(start, end)->0;
                    &&& final(self).slots@ == old(self).slots@.update(i, r.after(trim, start, end))
                    &&& final(self).counts == old(self).counts.after_trim(r, trim)
                },
            !(exists|i: int| #[trigger] old(self).first_trimmed(start, end, i)) ==> {
                &&& final(self).slots@ == old(self).slots@
                &&& final(self).counts == (if old(self).counts.active == 0
                    && old(self).counts.attempts == 0 {
                    old(self).counts
                } else {
                    MmapSummary {
                        munmap_unmatched: old(self).counts.munmap_unmatched.wrapping_add(1),
                        ..old(self).counts
                    }
                })
            },
    {
        proof {
            lemma_none_watched(self.slots@);
        }
        if self.counts.active == 0 {
            assert(forall|i: int|
                0 <= i < PROTOCOL_SLOTS ==> !#[trigger] old(self).is_trimmed(start, end, i));
            if self.counts.attempts != 0 {
                self.counts.munmap_unmatched = self.counts.munmap_unmatched.wrapping_add(1);
            }
            return;
        }
        let mut i: usize = 0;
        while i < PROTOCOL_SLOTS
            invariant
                *self == *old(self),
                self.wf(),
                0 <= i <= PROTOCOL_SLOTS,
                forall|j: int| 0 <= j < i ==> !#[trigger] old(self).is_trimmed(start, end, j),
            decreases PROTOCOL_SLOTS - i,
        {
            match self.slots[i] {
                Some(r) => {
                    match r.trim(start, end) {
                        Some(trim) => {
                            assert(old(self).is_trimmed(start, end, i as int));
                            assert(old(self).first_trimmed(start, end, i as int));
                            self.apply_trim(i, r, trim, start, end);
                            return;
                        },
                        None => {},
                    }
                },
                None => {},
            }
            assert(!old(self).is_trimmed(start, end, i as int));
            i = i + 1;
        }
        self.counts.munmap_unmatched = self.counts.munmap_unmatched.wrapping_add(1);
    }

    fn apply_trim(&mut self, i: usize, r: Reservation, trim: Trim, start: usize, end: usize)
        requires
            old(self).wf(),
            i < PROTOCOL_SLOTS,
            old(self).slots@[i as int] == Some(r),
        ensures
            final(self).wf(),
            final(self).slots@ == old(self).slots@.update(i as int, r.after(trim, start, end)),
            final(self).counts == old(self).counts.after_trim(r, trim),
    {
        proof {
            lemma_watched_update(self.slots@, i as int, r.after(trim, start, end));
        }
        let mut left: Option<Reservation> = None;
        match trim {
            Trim::Whole => {
                self.counts.full_release = self.counts.full_release.wrapping_add(1);
            },
            Trim::Prefix => {
                self.counts.trim_prefix = self.counts.trim_prefix.wrapping_add(1);
                if r.trims == 0 {
                    left = Some(Reservation { start: end, trims: 1, ..r });
                }
            },
            Trim::Suffix => {
                self.counts.trim_suffix = self.counts.trim_suffix.wrapping_add(1);
                if r.trims == 0 {
                    left = Some(Reservation { end: start, trims: 1, ..r });
                }
            },
        }
        if trim != Trim::Whole {
            if r.trims == 0 {
                self.counts.trim_first = self.counts.trim_first.wrapping_add(1);
            } else if r.trims == 1 {
                self.counts.trim_second = self.counts.trim_second.wrapping_add(1);
            } else {
                self.counts.trim_extra = self.counts.trim_extra.wrapping_add(1);
            }
        }
        if left.is_none() {
            self.counts.active = self.counts.active.wrapping_sub(1);
        }
        self.slots.set(i, left);
    }

    /// What was counted.
    pub fn snapshot(&self) -> (r: MmapSummary)
        ensures
            r == self.counts,
    {
        self.counts
    }
}

/// A mapping that is trimmed keeps its number and loses exactly the addresses
/// that were given up.
pub proof fn trimming_takes_what_was_given_up(r: Reservation, start: usize, end: usize, a: int)
    requires
        r.trimmed_by(start, end) is Some,
        r.after(r.trimmed_by(start, end)->0, start, end) is Some,
    ensures
        ({
            let left = r.after(r.trimmed_by(start, end)->0, start, end)->0;
            &&& left.sequence == r.sequence
            &&& left.start <= a < left.end <==> r.start <= a < r.end && !(start <= a < end)
        }),
{
}

} // verus!

//! Summaries of programs that have ended, until they are reported.
use vstd::prelude::*;

use crate::diag::protocol::MmapSummary;

verus! {

/// How many summaries are kept.
pub const ARCHIVE_SLOTS: usize = 128;

/// Summaries in the order in which they came. When there are too many, new ones
/// are given up.
pub struct ExitedMmapArchive {
    pub entries: Vec<MmapSummary>,
    pub head: usize,
    pub len: usize,
    pub archived: usize,
    pub reported: usize,
    pub dropped: usize,
}

impl View for ExitedMmapArchive {
    type V = Seq<MmapSummary>;

    open spec fn view(&self) -> Seq<MmapSummary> {
        Seq::new(
            self.len as nat,
            |i: int| self.entries@[(self.head + i) % ARCHIVE_SLOTS as int],
        )
    }
}

/// One more, as far as it can be counted.
pub open spec fn one_more(n: usize) -> usize {
    if n == usize::MAX {
        n
    } else {
        (n + 1) as usize
    }
}

impl ExitedMmapArchive {
    /// The places are there.
    pub open spec fn wf(&self) -> bool {
        self.entries@.len() == ARCHIVE_SLOTS && self.head < ARCHIVE_SLOTS && self.len
            <= ARCHIVE_SLOTS
    }

    /// No summaries.
    pub fn new() -> (r: Self)
        ensures
            r.wf(),
            r@ == Seq::<MmapSummary>::empty(),
            r.archived == 0 && r.reported == 0 && r.dropped == 0,
    {
        let mut entries: Vec<MmapSummary> = Vec::new();
        while entries.len() < ARCHIVE_SLOTS
            invariant
                entries@.len() <= ARCHIVE_SLOTS,
            decreases ARCHIVE_SLOTS - entries@.len(),
        {
            entries.push(MmapSummary::new(0));
        }
        let r = ExitedMmapArchive {
            entries,
            head: 0,
            len: 0,
            archived: 0,
            reported: 0,
            dropped: 0,
        };
        assert(r@ =~= Seq::<MmapSummary>::empty());
        r
    }

    /// Adds a summary, if there is room.
    pub fn push(&mut self, summary: MmapSummary)
        requires
            old(self).wf(),
        ensures
            final(self).wf(),
            final(self).archived == one_more(old(self).archived),
            final(self).reported == old(self).reported,
            old(self)@.len() == ARCHIVE_SLOTS ==> final(self)@ == old(self)@
                && final(self).dropped == one_more(old(self).dropped),
            old(self)@.len() < ARCHIVE_SLOTS ==> final(self)@ == old(self)@.push(summary)
                && final(self).dropped == old(self).dropped,
    {
        self.archived = self.archived.saturating_add(1);
        if self.len == ARCHIVE_SLOTS {
            self.dropped = self.dropped.saturating_add(1);
            assert(self@ =~= old(self)@);
            return;
        }
        let index: usize = (self.head + self.len) % ARCHIVE_SLOTS;
        self.entries.set(index, summary);
        self.len = self.len + 1;
        assert(self@ =~= old(self)@.push(summary));
    }

    /// Takes the oldest summary, with its number.
    pub fn pop(&mut self) -> (r: Option<(usize, MmapSummary)>)
        requires
            old(self).wf(),
        ensures
            final(self).wf(),
            final(self).archived == old(self).archived,
            final(self).dropped == old(self).dropped,
            old(self)@.len() == 0 ==> r is None && final(self)@ == old(self)@
                && final(self).reported == old(self).reported,
            old(self)@.len() > 0 ==> {
                &&& final(self).reported == one_more(old(self).reported)
                &&& r == Some((final(self).reported, old(self)@[0]))
                &&& final(self)@ == old(self)@.drop_first()
            },
    {
        if self.len == 0 {
            return None;
        }
        let summary = self.entries[self.head];
        self.head = (self.head + 1) % ARCHIVE_SLOTS;
        self.len = self.len - 1;
        self.reported = self.reported.saturating_add(1);
        proof {
            assert(old(self)@[0] == summary);
            assert forall|i: int| 0 <= i < self@.len() implies self@[i] == old(self)@.drop_first()[i] by {
                assert((self.head + i) % ARCHIVE_SLOTS as int == (old(self).head + (i + 1))
                    % ARCHIVE_SLOTS as int);
            }
            assert(self@ =~= old(self)@.drop_first());
        }
        Some((self.reported, summary))
    }

    /// Every summary that came is reported, kept or given up.
    pub open spec fn all_accounted_for(&self) -> bool {
        self.archived == self.reported + self.dropped + self@.len()
    }
}

/// No summary is lost from the count: adding and taking keep the account, as
/// long as the counts do not reach their end.
pub proof fn summaries_are_accounted_for(was: &ExitedMmapArchive, now: &ExitedMmapArchive)
    requires
        was.all_accounted_for(),
        was.archived < usize::MAX,
        now.archived == one_more(was.archived) && now.reported == was.reported && (if was@.len()
            == ARCHIVE_SLOTS {
            now@ == was@ && now.dropped == one_more(was.dropped)
        } else {
            now@.len() == was@.len() + 1 && now.dropped == was.dropped
        }) || now.archived == was.archived && now.dropped == was.dropped && was@.len() > 0
            && now.reported == one_more(was.reported) && now@ == was@.drop_first(),
    ensures
        now.all_accounted_for(),
{
}

} // verus!

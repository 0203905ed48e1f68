//! What the file system needs to know of the calling task: its identity and
//! the current time.
use vstd::prelude::*;

verus! {

/// The identity of a task.
pub struct Credentials {
    pub real_uid: u32,
    pub effective_uid: u32,
    pub fsuid: u32,
    pub real_gid: u32,
    pub effective_gid: u32,
    pub fsgid: u32,
    pub groups: Vec<u32>,
    pub root_capable: bool,
}

/// A point in time.
#[derive(Clone, Copy, PartialEq, Eq, Structural, Debug)]
pub struct Timestamp {
    pub sec: isize,
    pub nsec: isize,
}

impl Timestamp {
    /// The time that a clock shows as seconds and microseconds.
    pub fn from_timeval(sec: usize, usec: usize) -> (r: Self)
        requires
            usec * 1000 <= usize::MAX,
        ensures
            r.sec == sec as isize,
            r.nsec == (usec * 1000) as isize,
    {
        Timestamp { sec: sec as isize, nsec: (usec * 1000) as isize }
    }
}

/// The task that an operation is done for, and when.
pub struct Caller {
    pub cred: Credentials,
    pub now: Timestamp,
}

/// Whether a list of groups holds a group.
pub fn holds_group(groups: &Vec<u32>, gid: u32) -> (r: bool)
    ensures
        r == groups@.contains(gid),
{
    let mut i: usize = 0;
    while i < groups.len()
        invariant
            0 <= i <= groups@.len(),
            forall|j: int| 0 <= j < i ==> groups@[j] != gid,
        decreases groups@.len() - i,
    {
        if groups[i] == gid {
            return true;
        }
        i = i + 1;
    }
    false
}

impl Credentials {
    /// Membership by real or effective group, or by a supplementary group.
    pub open spec fn in_group(&self, gid: u32, effective: bool) -> bool {
        gid == (if effective {
            self.effective_gid
        } else {
            self.real_gid
        }) || self.groups@.contains(gid)
    }

    /// Membership by file system group, or by a supplementary group.
    pub open spec fn in_filesystem_group(&self, gid: u32) -> bool {
        gid == self.fsgid || self.groups@.contains(gid)
    }

    /// The superuser.
    pub fn root() -> (r: Self)
        ensures
            r.real_uid == 0 && r.effective_uid == 0 && r.fsuid == 0,
            r.real_gid == 0 && r.effective_gid == 0 && r.fsgid == 0,
            r.groups@ == Seq::<u32>::empty(),
            r.root_capable,
    {
        Credentials {
            real_uid: 0,
            effective_uid: 0,
            fsuid: 0,
            real_gid: 0,
            effective_gid: 0,
            fsgid: 0,
            groups: Vec::new(),
            root_capable: true,
        }
    }

    /// Membership by real or effective group, or by a supplementary group.
    pub fn is_in_group(&self, gid: u32, effective: bool) -> (r: bool)
        ensures
            r == self.in_group(gid, effective),
    {
        let own: u32 = if effective {
            self.effective_gid
        } else {
            self.real_gid
        };
        gid == own || holds_group(&self.groups, gid)
    }

    /// Membership by file system group, or by a supplementary group.
    pub fn is_in_filesystem_group(&self, gid: u32) -> (r: bool)
        ensures
            r == self.in_filesystem_group(gid),
    {
        gid == self.fsgid || holds_group(&self.groups, gid)
    }

    /// Whether the task may act as the superuser.
    pub fn is_root_capable(&self) -> (r: bool)
        ensures
            r == self.root_capable,
    {
        self.root_capable
    }
}

} // verus!

//! The addresses that programs can use.
use vstd::prelude::*;

verus! {

/// The size of a page.
pub const USER_PAGE_SIZE: u64 = 4096;

/// The end of the low addresses.
pub const LOW_USER_END: u64 = 0x7fff_f000;

/// The first address that is handed out to mappings.
pub const DEFAULT_MMAP_BASE: u64 = 0x2000_0000;

/// The first high address that is handed out to mappings.
pub const DEFAULT_HIGH_MMAP_BASE: u64 = 0x20_0000_0000;

/// The end of all addresses of a program.
pub const USER_ADDRESS_LIMIT: u64 = 0x40_0000_0000;

/// Whether there are high addresses for mappings.
pub const HAS_HIGH_MMAP_ARENA: bool = true;

/// Addresses from one to another, which does not belong to them.
#[derive(Clone, Copy, PartialEq, Eq, Structural, Debug)]
pub struct UserVaRange {
    pub start: u64,
    pub end: u64,
}

impl UserVaRange {
    /// Whether an address belongs to the range.
    pub open spec fn has(self, addr: int) -> bool {
        self.start <= addr < self.end
    }

    /// Whether some addresses, at least one, belong to the range.
    pub fn contains_range(self, start: u64, end: u64) -> (r: bool)
        ensures
            r == (start < end && forall|a: int| start <= a < end ==> #[trigger] self.has(a)),
    {
        proof {
            if start < end && forall|a: int| start <= a < end ==> #[trigger] self.has(a) {
                assert(self.has(start as int));
                assert(self.has(end - 1));
            }
        }
        start >= self.start && start < end && end <= self.end
    }

    /// Whether an address belongs to the range.
    pub fn contains_addr(self, addr: u64) -> (r: bool)
        ensures
            r == self.has(addr as int),
    {
        addr >= self.start && addr < self.end
    }
}

/// The low addresses of a program.
pub open spec fn low_range() -> UserVaRange {
    UserVaRange { start: USER_PAGE_SIZE, end: LOW_USER_END }
}

/// The low addresses for mappings.
pub open spec fn low_arena() -> UserVaRange {
    UserVaRange { start: DEFAULT_MMAP_BASE, end: LOW_USER_END }
}

/// The high addresses for mappings, which are used where the low ones do not
/// suffice.
pub open spec fn high_arena() -> UserVaRange {
    UserVaRange { start: DEFAULT_HIGH_MMAP_BASE, end: USER_ADDRESS_LIMIT }
}

/// The low addresses of a program.
pub fn low_user_range() -> (r: UserVaRange)
    ensures
        r == low_range(),
{
    UserVaRange { start: USER_PAGE_SIZE, end: LOW_USER_END }
}

/// The low addresses for mappings.
pub fn low_mmap_arena() -> (r: UserVaRange)
    ensures
        r == low_arena(),
{
    UserVaRange { start: DEFAULT_MMAP_BASE, end: LOW_USER_END }
}

/// The high addresses for mappings.
pub fn high_mmap_arena() -> (r: UserVaRange)
    ensures
        r == high_arena(),
{
    UserVaRange { start: DEFAULT_HIGH_MMAP_BASE, end: USER_ADDRESS_LIMIT }
}

/// Whether a program can map some addresses: all of them must be low, or all of
/// them high.
pub open spec fn mappable(start: u64, end: u64) -> bool {
    start < end && ((forall|a: int| start <= a < end ==> #[trigger] low_range().has(a)) || (forall|
        a: int,
    |
        start <= a < end ==> #[trigger] high_arena().has(a)))
}

/// Whether a program can map some addresses.
pub fn is_user_mappable_range(start: u64, end: u64) -> (r: bool)
    ensures
        r == mappable(start, end),
{
    if low_user_range().contains_range(start, end) {
        return true;
    }
    high_mmap_arena().contains_range(start, end)
}

/// The addresses for mappings that an address belongs to.
pub fn mmap_arena_containing(addr: u64) -> (r: Option<UserVaRange>)
    ensures
        r == (if low_arena().has(addr as int) {
            Some(low_arena())
        } else if high_arena().has(addr as int) {
            Some(high_arena())
        } else {
            None
        }),
{
    let low = low_mmap_arena();
    if low.contains_addr(addr) {
        return Some(low);
    }
    let high = high_mmap_arena();
    if high.contains_addr(addr) {
        return Some(high);
    }
    None
}

/// The low and the high addresses for mappings have none in common, and each
/// part of either can be mapped.
pub proof fn arenas_are_apart(a: int, start: u64, end: u64)
    ensures
        !(low_arena().has(a) && high_arena().has(a)),
        low_arena().has(start as int) && start < end <= low_arena().end ==> mappable(start, end),
        high_arena().has(start as int) && start < end <= high_arena().end ==> mappable(start, end),
        mappable(start, end) ==> end <= USER_ADDRESS_LIMIT,
{
    if mappable(start, end) {
        assert(low_range().has(end - 1) || high_arena().has(end - 1));
    }
}

} // verus!

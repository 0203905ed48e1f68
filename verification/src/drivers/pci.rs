//! The addresses that the windows of PCI devices get.
use vstd::arithmetic::power2::pow2;
use vstd::prelude::*;

verus! {

/// Where the configuration of PCI devices lies.
pub const PCI_ECAM_PHYS: usize = 0x2000_0000;

/// Where the windows of PCI devices lie.
pub const PCI_BAR_BASE: usize = 0x4000_0000;

/// How much room there is for the windows of PCI devices.
pub const PCI_BAR_SIZE: usize = 0x0002_0000;

/// How many windows a device has.
pub const PCI_BAR_COUNT: u8 = 6;

/// Hands out addresses, each a multiple of the size asked for.
pub struct PciBarAllocator {
    pub end: usize,
    pub current: usize,
}

/// Whether a number is a power of two.
pub open spec fn is_power(n: int) -> bool {
    exists|k: nat| n == #[trigger] pow2(k)
}

fn power_of_two(n: usize) -> (r: bool)
    ensures
        r == is_power(n as int),
{
    if n == 0 {
        proof {
            assert forall|k: nat| n != #[trigger] pow2(k) by {
                vstd::arithmetic::power2::lemma_pow2_pos(k);
            }
        }
        return false;
    }
    let mut left: usize = n;
    while left % 2 == 0
        invariant
            left > 0,
            is_power(left as int) == is_power(n as int),
        decreases left,
    {
        proof {
            lemma_half(left as int);
        }
        left = left / 2;
    }
    proof {
        assert(pow2(0) == 1) by {
            vstd::arithmetic::power2::lemma2_to64();
        }
        if is_power(left as int) {
            let k = choose|k: nat| left as int == #[trigger] pow2(k);
            if k > 0 {
                vstd::arithmetic::power2::lemma_pow2_unfold(k);
                assert(left == 2 * pow2((k - 1) as nat));
            }
        }
    }
    left == 1
}

proof fn lemma_half(n: int)
    requires
        n > 0,
        n % 2 == 0,
    ensures
        is_power(n / 2) == is_power(n),
{
    if is_power(n) {
        let k = choose|k: nat| n == #[trigger] pow2(k);
        vstd::arithmetic::power2::lemma2_to64();
        assert(k > 0);
        vstd::arithmetic::power2::lemma_pow2_unfold(k);
        assert(n / 2 == pow2((k - 1) as nat));
    }
    if is_power(n / 2) {
        let k = choose|k: nat| n / 2 == #[trigger] pow2(k);
        vstd::arithmetic::power2::lemma_pow2_unfold(k + 1);
        assert(n == pow2(k + 1));
    }
}

/// The first multiple of a size that is not below a number.
pub open spec fn aligned(at: int, size: int) -> int {
    (at + size - 1) / size * size
}

impl PciBarAllocator {
    /// All addresses of an area are free.
    pub fn new(base: usize, size: usize) -> (r: Self)
        requires
            base + size <= usize::MAX,
        ensures
            r.end == base + size,
            r.current == base,
    {
        PciBarAllocator { end: base + size, current: base }
    }

    /// Hands out so many addresses.
    pub fn alloc_bar(&mut self, size: usize) -> (r: Option<usize>)
        requires
            is_power(size as int) ==> aligned(old(self).current as int, size as int) + size
                <= usize::MAX && old(self).current + size - 1 <= usize::MAX,
        ensures
            final(self).end == old(self).end,
            ({
                let at = aligned(old(self).current as int, size as int);
                if !is_power(size as int) || at + size > old(self).end {
                    r is None && final(self).current == old(self).current
                } else {
                    r == Some(at as usize) && final(self).current == at + size
                }
            }),
    {
        if !power_of_two(size) {
            return None;
        }
        proof {
            let k = choose|k: nat| size as int == #[trigger] pow2(k);
            vstd::arithmetic::power2::lemma_pow2_pos(k);
            lemma_aligned(self.current as int, size as int);
        }
        let blocks: usize = (self.current + (size - 1)) / size;
        let at: usize = blocks * size;
        if at + size > self.end {
            return None;
        }
        self.current = at + size;
        Some(at)
    }
}

proof fn lemma_aligned(at: int, size: int)
    requires
        at >= 0,
        size > 0,
    ensures
        at <= aligned(at, size) < at + size,
        aligned(at, size) % size == 0,
        aligned(at, size) >= 0,
{
    let n = at + size - 1;
    vstd::arithmetic::div_mod::lemma_fundamental_div_mod(n, size);
    vstd::arithmetic::div_mod::lemma_mod_bound(n, size);
    vstd::arithmetic::mul::lemma_mul_is_commutative(size, n / size);
    vstd::arithmetic::div_mod::lemma_mod_multiples_basic(n / size, size);
}

/// Windows that are handed out are multiples of their sizes, lie in the area
/// and do not overlap those that were handed out before.
pub proof fn windows_do_not_overlap(base: int, end: int, current: int, size: int)
    requires
        0 <= base <= current <= end,
        size > 0,
        aligned(current, size) + size <= end,
    ensures
        aligned(current, size) % size == 0,
        current <= aligned(current, size) < current + size,
        base <= aligned(current, size),
{
    lemma_aligned(current, size);
}

/// Whether a window of a device still needs an address.
pub fn bar_needs_address(address: u64, size: u64) -> (r: bool)
    ensures
        r == (address == 0 && size != 0),
{
    address == 0 && size != 0
}

/// The number of the window behind one, which may take up two places.
pub fn next_bar(index: u8, takes_two: bool) -> (r: u8)
    requires
        index < PCI_BAR_COUNT,
    ensures
        r == index + (if takes_two {
            2int
        } else {
            1
        }),
{
    if takes_two {
        index + 2
    } else {
        index + 1
    }
}

} // verus!

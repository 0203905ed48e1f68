//! The memory that is handed out at boot.
use vstd::prelude::*;

verus! {

/// The size of a page.
pub const FRAME_SIZE: usize = 4096;

/// The end of the kernel, rounded up to whole pages.
pub open spec fn rounded_end(end: usize) -> int {
    (if end + (FRAME_SIZE - 1) > usize::MAX {
        usize::MAX as int
    } else {
        end + (FRAME_SIZE - 1)
    }) / FRAME_SIZE as int * FRAME_SIZE
}

/// The parts of some memory that the kernel does not take up.
pub open spec fn free_parts(start: usize, end: usize, kernel_start: usize, kernel_end: int) -> Seq<
    (usize, usize),
> {
    if end <= start {
        Seq::empty()
    } else if end <= kernel_start || start >= kernel_end {
        seq![(start, end)]
    } else {
        (if start < kernel_start {
            seq![(start, kernel_start)]
        } else {
            Seq::empty()
        }) + (if end > kernel_end {
            seq![(kernel_end as usize, end)]
        } else {
            Seq::empty()
        })
    }
}

/// The parts of some memory that the kernel does not take up. Its end is
/// rounded up to whole pages.
pub fn add_available_frames(start: usize, end: usize, kernel_start: usize, kernel_end: usize) -> (r:
    Vec<(usize, usize)>)
    ensures
        r@ == free_parts(start, end, kernel_start, rounded_end(kernel_end)),
{
    let kernel_end: usize = kernel_end.saturating_add(FRAME_SIZE - 1) / FRAME_SIZE * FRAME_SIZE;
    let mut parts: Vec<(usize, usize)> = Vec::new();
    if end <= start {
        return parts;
    }
    if end <= kernel_start || start >= kernel_end {
        parts.push((start, end));
        assert(parts@ =~= seq![(start, end)]);
        return parts;
    }
    if start < kernel_start {
        parts.push((start, kernel_start));
    }
    if end > kernel_end {
        parts.push((kernel_end, end));
    }
    assert(parts@ =~= free_parts(start, end, kernel_start, kernel_end as int));
    parts
}

/// Whether an address lies in one of some parts.
pub open spec fn in_parts(parts: Seq<(usize, usize)>, a: int) -> bool {
    exists|i: int| 0 <= i < parts.len() && (#[trigger] parts[i]).0 <= a < parts[i].1
}

/// What is handed out is all of the memory that the kernel does not take up,
/// and nothing else.
pub proof fn kernel_is_left_out(
    start: usize,
    end: usize,
    kernel_start: usize,
    kernel_end: int,
    a: int,
)
    requires
        kernel_start <= kernel_end <= usize::MAX,
    ensures
        in_parts(free_parts(start, end, kernel_start, kernel_end), a) <==> start <= a < end && !(
        kernel_start <= a < kernel_end),
{
    let parts = free_parts(start, end, kernel_start, kernel_end);
    if in_parts(parts, a) {
        let i = choose|i: int|
            0 <= i < parts.len() && (#[trigger] parts[i]).0 <= a < parts[i].1;
        assert(parts[i].0 <= a);
    }
    if start <= a < end && !(kernel_start <= a < kernel_end) {
        if end <= kernel_start || start >= kernel_end {
            assert(parts[0] == (start, end));
        } else if a < kernel_start {
            assert(parts[0] == (start, kernel_start));
        } else {
            assert(parts[parts.len() - 1] == (kernel_end as usize, end));
        }
    }
}

/// The free parts of the first `n` areas of memory, each given by its start and
/// length.
pub open spec fn free_memory(
    areas: Seq<(usize, usize)>,
    n: nat,
    kernel_start: usize,
    kernel_end: int,
) -> Seq<(usize, usize)>
    decreases n,
{
    if n == 0 {
        Seq::empty()
    } else {
        let (start, len) = areas[n - 1];
        let before = free_memory(areas, (n - 1) as nat, kernel_start, kernel_end);
        if len == 0 {
            before
        } else {
            before + free_parts(
                start,
                if start + len > usize::MAX {
                    usize::MAX
                } else {
                    (start + len) as usize
                },
                kernel_start,
                kernel_end,
            )
        }
    }
}

/// The free parts of all areas of memory, each given by its start and length.
pub fn available_memory(areas: &Vec<(usize, usize)>, kernel_start: usize, kernel_end: usize) -> (r:
    Vec<(usize, usize)>)
    ensures
        r@ == free_memory(areas@, areas@.len(), kernel_start, rounded_end(kernel_end)),
{
    let mut all: Vec<(usize, usize)> = Vec::new();
    let mut i: usize = 0;
    while i < areas.len()
        invariant
            0 <= i <= areas@.len(),
            all@ == free_memory(areas@, i as nat, kernel_start, rounded_end(kernel_end)),
        decreases areas@.len() - i,
    {
        let (start, len) = areas[i];
        if len > 0 {
            let mut parts = add_available_frames(
                start,
                start.saturating_add(len),
                kernel_start,
                kernel_end,
            );
            all.append(&mut parts);
        }
        i = i + 1;
    }
    all
}

/// An address is handed out exactly if it lies in one of the areas of memory and
/// not in the kernel.
pub proof fn all_memory_but_the_kernel_is_free(
    areas: Seq<(usize, usize)>,
    n: nat,
    kernel_start: usize,
    kernel_end: int,
    a: int,
)
    requires
        n <= areas.len(),
        kernel_start <= kernel_end <= usize::MAX,
        a < usize::MAX,
    ensures
        in_parts(free_memory(areas, n, kernel_start, kernel_end), a) <==> !(kernel_start <= a
            < kernel_end) && exists|i: int|
            0 <= i < n && (#[trigger] areas[i]).0 <= a < areas[i].0 + areas[i].1,
    decreases n,
{
    if n > 0 {
        all_memory_but_the_kernel_is_free(areas, (n - 1) as nat, kernel_start, kernel_end, a);
        let (start, len) = areas[n - 1];
        let end = if start + len > usize::MAX {
            usize::MAX
        } else {
            (start + len) as usize
        };
        kernel_is_left_out(start, end, kernel_start, kernel_end, a);
        let before = free_memory(areas, (n - 1) as nat, kernel_start, kernel_end);
        let all = free_memory(areas, n, kernel_start, kernel_end);
        if len > 0 {
            let parts = free_parts(start, end, kernel_start, kernel_end);
            assert(all == before + parts);
            if in_parts(before, a) {
                let i = choose|i: int|
                    0 <= i < before.len() && (#[trigger] before[i]).0 <= a < before[i].1;
                assert(all[i] == before[i]);
            }
            if in_parts(parts, a) {
                let i = choose|i: int|
                    0 <= i < parts.len() && (#[trigger] parts[i]).0 <= a < parts[i].1;
                assert(all[before.len() + i] == parts[i]);
            }
            if in_parts(all, a) {
                let i = choose|i: int| 0 <= i < all.len() && (#[trigger] all[i]).0 <= a < all[i].1;
                if i < before.len() {
                    assert(before[i] == all[i]);
                } else {
                    assert(parts[i - before.len()] == all[i]);
                }
            }
        }
        assert(areas[n - 1].0 == start);
    }
}

/// The kernel ends with a whole frame: the first frame boundary at or behind its
/// last byte.
pub proof fn the_kernel_takes_whole_frames(end: usize)
    requires
        end <= usize::MAX - 4095,
    ensures
        rounded_end(end) % 4096 == 0,
        end <= rounded_end(end) < end + 4096,
{
}

} // verus!

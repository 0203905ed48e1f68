//! What holds of the counts.
use vstd::prelude::*;

use crate::diag::groups::{AnonymousMove, Tally};
use crate::diag::line::{fields_text, line_text};
use crate::diag::locks::{
    heap_class, hot_place, raised, row_sum, LockClass, LockCounts, LockTable, MemorySetLockSite,
};
use crate::diag::notes::{class_of, ones, passed, slot_of, LengthClass};
use crate::diag::protocol::{MmapSummary, Reservation, Trim};
use crate::diag::waits::{actor_of, stands_at, stands_in, BlockReason};
use crate::text::decimal;

verus! {

/// A tally counts what it is given, adds it up and keeps the greatest; in which
/// order does not matter.
pub proof fn a_tally_adds_up(t: Tally, a: usize, b: usize)
    requires
        t.count <= usize::MAX - 2,
        t.total_us + a + b <= usize::MAX,
    ensures
        t.with(a).count == t.count + 1,
        t.with(a).total_us == t.total_us + a,
        t.with(a).max_us >= a && t.with(a).max_us >= t.max_us,
        t.with(a).max_us == a || t.with(a).max_us == t.max_us,
        t.with(a).with(b) == t.with(b).with(a),
{
}

/// Waiting for a lock and holding it are counted apart, each with its sum and its
/// greatest time.
pub proof fn lock_times_add_up(c: LockCounts, us: usize)
    requires
        c.contended < usize::MAX,
        c.wait_total_us + us <= usize::MAX,
        c.hold_total_us + us <= usize::MAX,
    ensures
        c.waited(us).contended == c.contended + 1,
        c.waited(us).wait_total_us == c.wait_total_us + us,
        c.waited(us).wait_max_us >= us && c.waited(us).wait_max_us >= c.wait_max_us,
        c.waited(us).hold_total_us == c.hold_total_us && c.waited(us).hold_max_us == c.hold_max_us,
        c.waited(us).acquires == c.acquires,
        c.held(us).hold_total_us == c.hold_total_us + us,
        c.held(us).hold_max_us >= us && c.held(us).hold_max_us >= c.hold_max_us,
        c.held(us).wait_total_us == c.wait_total_us && c.held(us).contended == c.contended,
        c.waited(us).held(us) == c.held(us).waited(us),
{
}

/// Every class of lock has a place of its own among the eleven, and so has every
/// one that is taken often among the six.
pub proof fn lock_classes_are_told_apart(a: LockClass, b: LockClass)
    ensures
        a.place() < 11,
        a != b ==> a.place() != b.place(),
        hot_place(a.place()) is Some ==> hot_place(a.place())->0 < 6,
        a != b && hot_place(a.place()) is Some ==> hot_place(a.place()) != hot_place(b.place()),
{
}

/// Every site has a place of its own among the sixteen.
pub proof fn lock_sites_are_told_apart(a: MemorySetLockSite, b: MemorySetLockSite)
    ensures
        a.place() < 16,
        a != b ==> a.place() != b.place(),
{
}

/// Every reason to wait has a place of its own among the seven.
pub proof fn reasons_are_told_apart(a: BlockReason, b: BlockReason)
    ensures
        a.place() < 7,
        a != b ==> a.place() != b.place(),
{
}

/// Larger pieces of memory are counted in later classes; up to a page each class
/// reaches twice as far as the one before it.
pub proof fn heap_classes_double(a: usize, b: usize)
    requires
        a <= b,
    ensures
        heap_class(a) <= heap_class(b) <= 10,
        8 < a <= 2048 ==> heap_class((2 * a) as usize) == heap_class(a) + 1 || a <= 16,
        8 < a <= 16 ==> heap_class(a) == 0 && heap_class((2 * a) as usize) == 1,
        heap_class(a) == 10 <==> a > 65536,
        heap_class(a) == 9 <==> 4096 < a <= 65536,
{
}

/// Lengths are counted by the power of sixteen that they reach.
pub proof fn length_classes_grow(length: usize)
    ensures
        class_of(length) == LengthClass::UpTo64K <==> length <= 64 * 1024,
        class_of(length) == LengthClass::UpTo1M <==> 64 * 1024 < length <= 1024 * 1024,
        class_of(length) == LengthClass::UpTo16M <==> 1024 * 1024 < length <= 16 * 1024 * 1024,
        class_of(length) == LengthClass::UpTo256M <==> 16 * 1024 * 1024 < length <= 256 * 1024
            * 1024,
        class_of(length) == LengthClass::More <==> length > 256 * 1024 * 1024,
{
}

/// The time that has passed leads from then to now, and a clock that went back
/// counts as none.
pub proof fn passed_time_leads_to_now(now: usize, since: usize)
    ensures
        now >= since ==> since + passed(now, since) == now,
        now < since ==> passed(now, since) == 0,
{
}

/// Each of the first processors has a slot of its own; those behind them share the
/// last.
pub proof fn processors_have_slots(a: usize, b: usize)
    ensures
        slot_of(a) < 12,
        a < 12 ==> slot_of(a) == a,
        a >= 11 && b >= 11 ==> slot_of(a) == slot_of(b),
{
}

/// Doubling a number adds no one to its bits, and adding one to an even number
/// adds one.
pub proof fn bits_are_counted(n: nat)
    ensures
        ones(2 * n) == ones(n),
        ones(2 * n + 1) == ones(n) + 1,
        ones(0) == 0,
{
}

proof fn lemma_sum(row: Seq<usize>, cell: int, by: usize, n: nat)
    requires
        0 <= cell < row.len(),
        n <= row.len(),
    ensures
        ({
            let now = row.update(cell, row[cell].wrapping_add(by));
            &&& cell < n ==> row_sum(now, n) == row_sum(row, n).wrapping_add(by)
            &&& cell >= n ==> row_sum(now, n) == row_sum(row, n)
        }),
    decreases n,
{
    if n > 0 {
        lemma_sum(row, cell, by, (n - 1) as nat);
    }
}

/// What is counted on one processor is in the sum over all, once, and in no other
/// row.
pub proof fn counts_of_processors_add_up(
    now: Seq<Vec<usize>>,
    was: Seq<Vec<usize>>,
    row: int,
    cell: int,
    by: usize,
    n: nat,
    other: int,
)
    requires
        raised(now, was, row, cell, by),
        0 <= row < was.len(),
        0 <= other < was.len(),
        0 <= cell < n,
        n == was[row]@.len(),
    ensures
        row_sum(now[row]@, n) == row_sum(was[row]@, n).wrapping_add(by),
        other != row ==> now[other] == was[other],
{
    lemma_sum(was[row]@, cell, by, n);
}

/// Who holds a lock is told by the first processor that notes it; where none does,
/// nobody is told.
pub proof fn a_noted_owner_is_told(t: &LockTable, mutex: usize, from: int, cpu: int, site: usize)
    requires
        t.wf(),
        0 <= from <= cpu < 12,
        forall|i: int| from <= i < cpu ==> #[trigger] t.owner_mutex@[i] != mutex,
    ensures
        t.owner_mutex@[cpu] == mutex && t.owner_site@[cpu] == Some(site) && site < 16
            ==> t.owner_of(mutex, from) == site,
        t.owner_mutex@[cpu] == mutex && t.owner_site@[cpu] is None ==> t.owner_of(mutex, from)
            == 16,
        cpu == 11 && t.owner_mutex@[cpu] != mutex ==> t.owner_of(mutex, from) == 16,
    decreases cpu - from,
{
    if from < cpu {
        assert(t.owner_mutex@[from] != mutex);
        a_noted_owner_is_told(t, mutex, from + 1, cpu, site);
    } else if cpu == 11 && t.owner_mutex@[cpu] != mutex {
        assert(t.owner_of(mutex, 12) == 16);
    }
}

/// A program counts as the compiler wherever its name stands in the path, else as
/// the build tool wherever that name stands.
pub proof fn actors_go_by_their_path(a: Seq<char>, b: Seq<char>)
    ensures
        actor_of(Some(a + "rustc"@ + b)) == 0,
        !stands_in("rustc"@, a + "cargo"@ + b) ==> actor_of(Some(a + "cargo"@ + b)) == 1,
        actor_of(None::<Seq<char>>) == 2,
        actor_of(Some(a)) <= 2,
        !stands_in("rustc"@, a) && !stands_in("cargo"@, a) ==> actor_of(Some(a)) == 2,
{
    let p = a + "rustc"@ + b;
    assert(p.subrange(a.len() as int, (a.len() + "rustc"@.len()) as int) =~= "rustc"@);
    assert(stands_at("rustc"@, p, a.len() as int));
    let q = a + "cargo"@ + b;
    assert(q.subrange(a.len() as int, (a.len() + "cargo"@.len()) as int) =~= "cargo"@);
    assert(stands_at("cargo"@, q, a.len() as int));
}

/// A line tells its fields in their order, each with its name and its number.
pub proof fn lines_tell_their_fields(
    head: Seq<char>,
    fields: Seq<(Seq<char>, usize)>,
    name: Seq<char>,
    value: usize,
)
    ensures
        line_text(head, fields.push((name, value))) == line_text(head, fields) + seq![' '] + name
            + seq!['='] + decimal(value as nat),
        line_text(head, Seq::empty()) == "BUILDSTORM_DIAG "@ + head,
{
    let all = fields.push((name, value));
    assert(all.drop_last() =~= fields);
    reveal_strlit(" ");
    reveal_strlit("=");
    assert(" "@ =~= seq![' ']);
    assert("="@ =~= seq!['=']);
    let p = "BUILDSTORM_DIAG "@ + head;
    let f = fields_text(fields);
    assert(p + (f + seq![' '] + name + seq!['='] + decimal(value as nat)) =~= p + f + seq![' ']
        + name + seq!['='] + decimal(value as nat));
    assert(fields_text(Seq::<(Seq<char>, usize)>::empty()) == Seq::<char>::empty());
    assert(p + Seq::<char>::empty() =~= p);
}

/// A mapping that is moved on one side is counted on that side only: once as
/// chosen, once as shrunk or removed, and by its frames unless they stay.
pub proof fn moves_are_counted_on_their_side(
    m: AnonymousMove,
    stays: bool,
    shrinks: bool,
    frames: usize,
    suffix: usize,
)
    requires
        m.left_selected < usize::MAX && m.right_selected < usize::MAX,
        m.left_shrink < usize::MAX && m.left_remove < usize::MAX,
        m.right_shrink < usize::MAX && m.right_remove < usize::MAX,
        m.left_frame_relocate + frames <= usize::MAX,
        m.right_frame_move + frames <= usize::MAX,
    ensures
        ({
            let l = m.with_left(stays, shrinks, frames, suffix);
            let r = m.with_right(stays, shrinks, frames, suffix);
            &&& l.left_selected == m.left_selected + 1
            &&& l.left_shrink + l.left_remove == m.left_shrink + m.left_remove + 1
            &&& shrinks <==> l.left_shrink == m.left_shrink + 1
            &&& l.left_frame_relocate == m.left_frame_relocate + (if stays {
                0
            } else {
                frames as int
            })
            &&& l.left_remove_suffix_max >= m.left_remove_suffix_max
            &&& !shrinks ==> l.left_remove_suffix_max >= suffix
            &&& l.right_selected == m.right_selected && l.right_frame_move == m.right_frame_move
            &&& l.right_shrink == m.right_shrink && l.right_remove == m.right_remove
            &&& r.right_selected == m.right_selected + 1
            &&& r.right_shrink + r.right_remove == m.right_shrink + m.right_remove + 1
            &&& shrinks <==> r.right_shrink == m.right_shrink + 1
            &&& r.right_frame_move == m.right_frame_move + frames
            &&& !shrinks ==> r.right_remove_suffix_max >= suffix
            &&& r.left_selected == m.left_selected && r.left_frame_relocate
                == m.left_frame_relocate
            &&& r.left_shrink == m.left_shrink && r.left_remove == m.left_remove
        }),
{
}

/// A mapping that is trimmed is counted by what was given up and by how often it
/// was before; it is no longer watched exactly if nothing is left to watch.
pub proof fn trims_are_counted(m: MmapSummary, r: Reservation, trim: Trim, start: usize, end: usize)
    requires
        m.active > 0,
        m.full_release < usize::MAX,
        m.trim_prefix < usize::MAX && m.trim_suffix < usize::MAX,
        m.trim_first < usize::MAX && m.trim_second < usize::MAX && m.trim_extra < usize::MAX,
    ensures
        ({
            let n = m.after_trim(r, trim);
            &&& r.after(trim, start, end) is None <==> n.active == m.active - 1
            &&& r.after(trim, start, end) is Some <==> n.active == m.active
            &&& trim == Trim::Whole <==> n.full_release == m.full_release + 1
            &&& trim == Trim::Prefix <==> n.trim_prefix == m.trim_prefix + 1
            &&& trim == Trim::Suffix <==> n.trim_suffix == m.trim_suffix + 1
            &&& trim != Trim::Whole ==> n.trim_first + n.trim_second + n.trim_extra
                == m.trim_first + m.trim_second + m.trim_extra + 1
            &&& trim != Trim::Whole && r.trims == 0 ==> n.trim_first == m.trim_first + 1
            &&& trim != Trim::Whole && r.trims == 1 ==> n.trim_second == m.trim_second + 1
            &&& n.attempts == m.attempts && n.successes == m.successes
        }),
{
}

} // verus!

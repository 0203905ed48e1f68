//! What is reported.
use vstd::prelude::*;

use crate::diag::locks::row_sum;
use crate::diag::report::Diagnostics;

verus! {

/// Kinds of work, faults, waits and locks get a line exactly if they were counted,
/// processors and actors always.
pub proof fn only_what_was_counted_is_reported(d: &Diagnostics, i: int, j: int, now: usize)
    ensures
        d.work_line(i) is Some <==> row_sum(d.work.counts@[i]@, 12) > 0,
        d.phase_line(i) is Some <==> d.phases@[i].count > 0,
        d.source_line(i) is Some <==> d.sources@[i].count > 0,
        d.resolution_line(i) is Some <==> d.resolutions@[i].count > 0,
        d.block_line(i) is Some <==> d.waits.blocks@[i].count > 0,
        d.wake_line(i) is Some <==> d.waits.wakes@[i].count > 0,
        d.site_line(i) is Some <==> row_sum(d.locks.site_acquires@[i]@, 12) > 0,
        d.heap_line(i) is Some <==> row_sum(d.locks.heap_allocs@[i]@, 12) > 0 || row_sum(
            d.locks.heap_frees@[i]@,
            12,
        ) > 0,
        d.pair_line(i, j) is Some <==> d.locks.pairs@[i]@[j] > 0,
        d.cpu_line(i) is Some && d.run_line(i) is Some && d.active_line(i, now) is Some,
        d.owner_line(i) is Some && d.actor_line(i) is Some,
{
}

/// Every line of a table stands in the report of it, and there is no other.
pub proof fn every_line_is_reported(d: &Diagnostics, n: nat, line: Seq<char>)
    ensures
        d.phase_lines(n).contains(line) <==> exists|i: int|
            0 <= i < n && #[trigger] d.phase_line(i) == Some(line),
        d.work_lines(n).contains(line) <==> exists|i: int|
            0 <= i < n && #[trigger] d.work_line(i) == Some(line),
        d.block_lines(n).contains(line) <==> exists|i: int|
            0 <= i < n && #[trigger] d.block_line(i) == Some(line),
        d.site_lines(n).contains(line) <==> exists|i: int|
            0 <= i < n && #[trigger] d.site_line(i) == Some(line),
    decreases n,
{
    if n > 0 {
        let k = (n - 1) as nat;
        every_line_is_reported(d, k, line);
        if let Some(text) = d.phase_line(n - 1) {
            lemma_push(d.phase_lines(k), text, line);
        }
        if let Some(text) = d.work_line(n - 1) {
            lemma_push(d.work_lines(k), text, line);
        }
        if let Some(text) = d.block_line(n - 1) {
            lemma_push(d.block_lines(k), text, line);
        }
        if let Some(text) = d.site_line(n - 1) {
            lemma_push(d.site_lines(k), text, line);
        }
    }
}

proof fn lemma_push(s: Seq<Seq<char>>, e: Seq<char>, x: Seq<char>)
    ensures
        s.push(e).contains(x) <==> s.contains(x) || x == e,
{
    let t = s.push(e);
    if s.contains(x) {
        let i = choose|i: int| 0 <= i < s.len() && s[i] == x;
        assert(t[i] == x);
    }
    if x == e {
        assert(t[s.len() as int] == x);
    }
    if t.contains(x) {
        let i = choose|i: int| 0 <= i < t.len() && t[i] == x;
        if i < s.len() {
            assert(s[i] == x);
        }
    }
}

/// Of a processor that runs nobody no time is told to have passed, however late it
/// is.
pub proof fn idle_processors_pass_no_time(d: &Diagnostics, i: int, a: usize, b: usize)
    requires
        d.active@[i].pid == 0,
        d.active@[i].trap_kind == 0,
    ensures
        d.active_line(i, a) == d.active_line(i, b),
{
}

/// Reports are ten seconds apart.
pub proof fn reports_are_apart(now: usize)
    ensures
        now + 10_000_000 <= usize::MAX ==> Diagnostics::later(now) == now + 10_000_000,
        Diagnostics::later(now) >= now,
{
}

} // verus!

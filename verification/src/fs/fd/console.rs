//! The lines that processes write to the console, each held back until it is
//! complete.
use vstd::prelude::*;

use crate::bytes::append_bytes;
use crate::intmap::IntMap;

verus! {

/// How long a line may be before it is shown anyway.
pub const CONSOLE_LINE_CAP: usize = 512;

/// The incomplete lines of all writers.
pub struct ConsoleLines {
    lines: IntMap<Vec<u8>>,
}

/// What is shown of a line and of the bytes that follow it, and what is held
/// back.
pub open spec fn shown_and_held(line: Seq<u8>, bytes: Seq<u8>) -> (Seq<u8>, Seq<u8>)
    decreases bytes.len(),
{
    if bytes.len() == 0 {
        (Seq::empty(), line)
    } else {
        let longer = line.push(bytes[0]);
        if bytes[0] == 0x0a || longer.len() >= CONSOLE_LINE_CAP {
            let (shown, held) = shown_and_held(Seq::empty(), bytes.drop_first());
            (longer + shown, held)
        } else {
            shown_and_held(longer, bytes.drop_first())
        }
    }
}

/// Nothing is lost: what is shown and held back is the line and the bytes.
pub proof fn console_loses_nothing(line: Seq<u8>, bytes: Seq<u8>)
    ensures
        shown_and_held(line, bytes).0 + shown_and_held(line, bytes).1 == line + bytes,
    decreases bytes.len(),
{
    if bytes.len() == 0 {
        assert(Seq::<u8>::empty() + line =~= line + bytes);
    } else {
        let longer = line.push(bytes[0]);
        let rest = bytes.drop_first();
        assert(longer + rest =~= line + bytes);
        if bytes[0] == 0x0a || longer.len() >= CONSOLE_LINE_CAP {
            console_loses_nothing(Seq::empty(), rest);
            let (shown, held) = shown_and_held(Seq::empty(), rest);
            assert(longer + shown + held =~= longer + (shown + held));
            assert(Seq::<u8>::empty() + rest =~= rest);
        } else {
            console_loses_nothing(longer, rest);
        }
    }
}

/// What is held back is shorter than a line may be and holds no line end, if
/// that was so before.
pub proof fn held_line_is_incomplete(line: Seq<u8>, bytes: Seq<u8>)
    requires
        line.len() < CONSOLE_LINE_CAP,
        !line.contains(0x0a),
    ensures
        shown_and_held(line, bytes).1.len() < CONSOLE_LINE_CAP,
        !shown_and_held(line, bytes).1.contains(0x0a),
    decreases bytes.len(),
{
    if bytes.len() > 0 {
        let longer = line.push(bytes[0]);
        if bytes[0] == 0x0a || longer.len() >= CONSOLE_LINE_CAP {
            held_line_is_incomplete(Seq::empty(), bytes.drop_first());
        } else {
            assert(!longer.contains(0x0a)) by {
                if longer.contains(0x0a) {
                    let i = choose|i: int| 0 <= i < longer.len() && longer[i] == 0x0a;
                    assert(line[i] == 0x0a);
                }
            }
            held_line_is_incomplete(longer, bytes.drop_first());
        }
    }
}

impl ConsoleLines {
    /// The incomplete line of each writer.
    pub closed spec fn view(&self) -> Map<u128, Vec<u8>> {
        self.lines@
    }

    /// The keys are in order.
    pub closed spec fn wf(&self) -> bool {
        self.lines.wf()
    }

    /// The incomplete line of a writer.
    pub open spec fn line_of(&self, writer: usize) -> Seq<u8> {
        if self@.contains_key(writer as u128) {
            self@[writer as u128]@
        } else {
            Seq::empty()
        }
    }

    /// No lines.
    pub fn new() -> (r: Self)
        ensures
            r.wf(),
            r@ == Map::<u128, Vec<u8>>::empty(),
    {
        ConsoleLines { lines: IntMap::new() }
    }

    /// Takes bytes of a writer and gives what is to be shown.
    pub fn write_console_buffered(&mut self, writer: usize, buf: &[u8]) -> (shown: Vec<u8>)
        requires
            old(self).wf(),
        ensures
            final(self).wf(),
            (shown@, final(self).line_of(writer)) == shown_and_held(old(self).line_of(writer), buf@),
            forall|w: usize|
                w != writer ==> #[trigger] final(self).line_of(w) == old(self).line_of(w),
    {
        let ghost was = self@;
        let mut line: Vec<u8> = match self.lines.remove(writer as u128) {
            Some(line) => line,
            None => Vec::new(),
        };
        let ghost start = line@;
        assert(start =~= old(self).line_of(writer));
        let mut shown: Vec<u8> = Vec::new();
        let mut i: usize = 0;
        let ghost goal = shown_and_held(start, buf@);
        assert(buf@.skip(0) =~= buf@);
        assert(shown@ + goal.0 =~= goal.0);
        while i < buf.len()
            invariant
                0 <= i <= buf@.len(),
                goal == (
                    shown@ + shown_and_held(line@, buf@.skip(i as int)).0,
                    shown_and_held(line@, buf@.skip(i as int)).1,
                ),
            decreases buf@.len() - i,
        {
            let byte: u8 = buf[i];
            let ghost rest = buf@.skip(i as int);
            assert(rest.drop_first() =~= buf@.skip(i + 1));
            let ghost before = line@;
            let ghost had = shown@;
            line.push(byte);
            if byte == 0x0a || line.len() >= CONSOLE_LINE_CAP {
                append_bytes(&mut shown, line.as_slice());
                let ghost tail = shown_and_held(Seq::empty(), buf@.skip(i + 1)).0;
                assert(had + (line@ + tail) =~= shown@ + tail);
                line = Vec::new();
                assert(line@ =~= Seq::empty());
            }
            i = i + 1;
        }
        assert(buf@.skip(i as int) =~= Seq::empty());
        assert(shown@ + Seq::<u8>::empty() =~= shown@);
        self.lines.insert(writer as u128, line);
        assert(self.lines@ =~= was.insert(writer as u128, line));
        assert forall|w: usize| w != writer implies #[trigger] self.line_of(w) == old(self).line_of(w) by {
            assert(w as u128 != writer as u128);
        }
        shown
    }

    /// Ends the line of a writer and gives what is to be shown of it.
    pub fn flush_console_buffer_for_pid(&mut self, pid: usize) -> (shown: Vec<u8>)
        requires
            old(self).wf(),
        ensures
            final(self).wf(),
            shown@ == old(self).line_of(pid),
            final(self)@ == old(self)@.remove(pid as u128),
    {
        match self.lines.remove(pid as u128) {
            Some(line) => line,
            None => Vec::new(),
        }
    }
}

} // verus!

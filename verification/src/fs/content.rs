//! The contents of in-memory files: short ones in one buffer, long ones in
//! chunks in which a run of zeros takes no room.
use vstd::prelude::*;

use crate::bytes::{
    all_zero, copy_into, copy_of, copy_range, fill_zero, resize_bytes, resized, spliced,
    zero_bytes, zeros,
};

verus! {

/// Contents up to this length are held in one buffer.
pub const MEM_FILE_INLINE_LIMIT: usize = 1048576;

/// The length of a chunk.
pub const MEM_FILE_CHUNK_SIZE: usize = 65536;

/// The largest offset in a file.
pub const MAX_FILE_OFFSET: usize = isize::MAX as usize;

/// The contents of an in-memory file.
pub enum MemFileContent {
    Inline(Vec<u8>),
    Chunked { len: usize, chunks: Vec<Option<Vec<u8>>> },
}

/// The byte at a position; what no chunk holds is zero.
pub open spec fn chunk_byte(chunks: Seq<Option<Vec<u8>>>, pos: int) -> u8 {
    let index = pos / MEM_FILE_CHUNK_SIZE as int;
    let off = pos % MEM_FILE_CHUNK_SIZE as int;
    if 0 <= index < chunks.len() && chunks[index] is Some && off < chunks[index]->0@.len() {
        chunks[index]->0@[off]
    } else {
        0
    }
}

/// No chunk reaches past its place or past the end, and there are exactly as
/// many chunks as the length needs.
pub open spec fn chunks_wf(chunks: Seq<Option<Vec<u8>>>, len: int) -> bool {
    &&& chunks.len() * MEM_FILE_CHUNK_SIZE >= len
    &&& chunks.len() > 0 ==> (chunks.len() - 1) * MEM_FILE_CHUNK_SIZE < len
    &&& forall|i: int|
        0 <= i < chunks.len() && (#[trigger] chunks[i]) is Some ==> chunks[i]->0@.len()
            <= MEM_FILE_CHUNK_SIZE && i * MEM_FILE_CHUNK_SIZE + chunks[i]->0@.len() <= len
}

impl View for MemFileContent {
    type V = Seq<u8>;

    /// The bytes of the file.
    open spec fn view(&self) -> Seq<u8> {
        match *self {
            MemFileContent::Inline(content) => content@,
            MemFileContent::Chunked { len, chunks } => Seq::new(
                len as nat,
                |p: int| chunk_byte(chunks@, p),
            ),
        }
    }
}

/// How many bytes a read of up to `cap` bytes at `offset` gives.
pub open spec fn read_len(len: nat, offset: nat, cap: nat) -> nat {
    if offset >= len {
        0
    } else if len - offset < cap {
        (len - offset) as nat
    } else {
        cap
    }
}

/// A buffer after a read at `offset` into its front.
pub open spec fn read_into(content: Seq<u8>, offset: nat, buf: Seq<u8>) -> Seq<u8> {
    let n = read_len(content.len(), offset, buf.len());
    if n == 0 {
        buf
    } else {
        spliced(buf, 0, content.subrange(offset as int, (offset + n) as int))
    }
}

/// A file after a write: it ends where the write ends, and what lay before the
/// write stays, with zeros in a gap.
pub open spec fn written(content: Seq<u8>, offset: nat, buf: Seq<u8>) -> Seq<u8> {
    resized(content, offset) + buf
}

/// Whether a file starts like an executable image.
pub open spec fn is_elf(content: Seq<u8>) -> bool {
    content.len() >= 4 && content.take(4) == seq![0x7fu8, 0x45u8, 0x4cu8, 0x46u8]
}

fn chunk_count(len: usize) -> (n: usize)
    requires
        len <= MAX_FILE_OFFSET,
    ensures
        n * MEM_FILE_CHUNK_SIZE >= len,
        n > 0 ==> (n - 1) * MEM_FILE_CHUNK_SIZE < len,
{
    if len == 0 {
        0
    } else {
        (len - 1) / MEM_FILE_CHUNK_SIZE + 1
    }
}

fn into_chunks(content: &[u8]) -> (chunks: Vec<Option<Vec<u8>>>)
    ensures
        chunks_wf(chunks@, content@.len() as int),
        forall|p: int| 0 <= p < content@.len() ==> #[trigger] chunk_byte(chunks@, p) == content@[p],
{
    let mut chunks: Vec<Option<Vec<u8>>> = Vec::new();
    let mut at: usize = 0;
    let len: usize = content.len();
    while at < len
        invariant
            len == content@.len(),
            0 <= at <= len,
            at == len || at == chunks@.len() * MEM_FILE_CHUNK_SIZE,
            chunks_wf(chunks@, at as int),
            forall|p: int| 0 <= p < at ==> #[trigger] chunk_byte(chunks@, p) == content@[p],
        decreases len - at,
    {
        let n: usize = if len - at < MEM_FILE_CHUNK_SIZE {
            len - at
        } else {
            MEM_FILE_CHUNK_SIZE
        };
        let ghost before = chunks@;
        if all_zero(content, at, at + n) {
            chunks.push(None);
            assert forall|p: int| 0 <= p < at + n implies #[trigger] chunk_byte(chunks@, p)
                == content@[p] by {
                if p < at {
                    assert(chunk_byte(before, p) == content@[p]);
                } else {
                    assert(content@.subrange(at as int, at + n)[p - at] == 0);
                }
            }
        } else {
            chunks.push(Some(copy_range(content, at, at + n)));
            assert forall|p: int| 0 <= p < at + n implies #[trigger] chunk_byte(chunks@, p)
                == content@[p] by {
                if p < at {
                    assert(chunk_byte(before, p) == content@[p]);
                } else {
                    assert(content@.subrange(at as int, at + n)[p - at] == content@[p]);
                }
            }
        }
        at = at + n;
    }
    chunks
}

fn resize_chunks(chunks: &mut Vec<Option<Vec<u8>>>, old_len: usize, new_len: usize)
    requires
        chunks_wf(old(chunks)@, old_len as int),
        new_len <= MAX_FILE_OFFSET,
    ensures
        chunks_wf(final(chunks)@, new_len as int),
        forall|p: int|
            0 <= p < new_len ==> #[trigger] chunk_byte(final(chunks)@, p) == (if p < old_len {
                chunk_byte(old(chunks)@, p)
            } else {
                0
            }),
{
    let needed: usize = chunk_count(new_len);
    let ghost start = chunks@;
    while chunks.len() < needed
        invariant
            chunks@.len() >= start.len(),
            chunks@.len() <= needed || chunks@ == start,
            forall|i: int| 0 <= i < start.len() ==> chunks@[i] == start[i],
            forall|i: int| start.len() <= i < chunks@.len() ==> chunks@[i] is None,
        decreases needed - chunks@.len(),
    {
        chunks.push(None);
    }
    chunks.truncate(needed);
    if needed > 0 {
        let first: usize = needed - 1;
        let target: usize = new_len - first * MEM_FILE_CHUNK_SIZE;
        let last: Option<Vec<u8>> = chunks[first].take();
        match last {
            Some(bytes) => {
                let mut bytes = bytes;
                bytes.truncate(target);
                chunks[first] = Some(bytes);
            },
            None => {},
        }
    }
    assert forall|i: int| 0 <= i < needed && (#[trigger] chunks@[i]) is Some implies
        chunks@[i]->0@.len() <= MEM_FILE_CHUNK_SIZE && i * MEM_FILE_CHUNK_SIZE
        + chunks@[i]->0@.len() <= new_len by {
        assert(i < start.len());
        assert(start[i] is Some);
        assert(chunks@[i]->0@.len() <= start[i]->0@.len());
    }
    assert forall|p: int| 0 <= p < new_len implies #[trigger] chunk_byte(chunks@, p) == (if p
        < old_len {
        chunk_byte(start, p)
    } else {
        0
    }) by {
        let i = p / MEM_FILE_CHUNK_SIZE as int;
        assert(0 <= i < needed);
    }
}

fn read_chunks(chunks: &Vec<Option<Vec<u8>>>, len: usize, offset: usize, buf: &mut [u8], n: usize)
    requires
        chunks_wf(chunks@, len as int),
        offset + n <= len,
        n <= old(buf)@.len(),
    ensures
        final(buf)@ == spliced(
            old(buf)@,
            0,
            Seq::new(n as nat, |i: int| chunk_byte(chunks@, offset + i)),
        ),
{
    let ghost start = buf@;
    fill_zero(buf, 0, n);
    let mut copied: usize = 0;
    while copied < n
        invariant
            offset + n <= len,
            n <= start.len(),
            buf@.len() == start.len(),
            0 <= copied <= n,
            chunks_wf(chunks@, len as int),
            forall|i: int|
                0 <= i < copied ==> #[trigger] buf@[i] == chunk_byte(chunks@, offset + i),
            forall|i: int| copied <= i < n ==> #[trigger] buf@[i] == 0,
            forall|i: int| n <= i < start.len() ==> #[trigger] buf@[i] == start[i],
        decreases n - copied,
    {
        let pos: usize = offset + copied;
        let index: usize = pos / MEM_FILE_CHUNK_SIZE;
        let off: usize = pos % MEM_FILE_CHUNK_SIZE;
        let step: usize = if n - copied < MEM_FILE_CHUNK_SIZE - off {
            n - copied
        } else {
            MEM_FILE_CHUNK_SIZE - off
        };
        let ghost before = buf@;
        if index < chunks.len() {
            match &chunks[index] {
                Some(chunk) => {
                    if off < chunk.len() {
                        let here: usize = if step < chunk.len() - off {
                            step
                        } else {
                            chunk.len() - off
                        };
                        copy_into(buf, copied, chunk.as_slice(), off, here);
                    }
                },
                None => {},
            }
        }
        assert forall|i: int| 0 <= i < copied + step implies #[trigger] buf@[i] == chunk_byte(
            chunks@,
            offset + i,
        ) by {
            if i < copied {
                assert(buf@[i] == before[i]);
            } else {
                let p = offset + i;
                assert(p / MEM_FILE_CHUNK_SIZE as int == index);
                assert(p % MEM_FILE_CHUNK_SIZE as int == off + (i - copied));
                assert(before[i] == 0);
            }
        }
        assert forall|i: int| copied + step <= i < n implies #[trigger] buf@[i] == 0 by {
            assert(buf@[i] == before[i]);
        }
        assert forall|i: int| n <= i < start.len() implies #[trigger] buf@[i] == start[i] by {
            assert(buf@[i] == before[i]);
        }
        copied = copied + step;
    }
    assert(buf@ =~= spliced(
        start,
        0,
        Seq::new(n as nat, |i: int| chunk_byte(chunks@, offset + i)),
    ));
}

fn write_chunks(chunks: &mut Vec<Option<Vec<u8>>>, len: usize, offset: usize, buf: &[u8])
    requires
        chunks_wf(old(chunks)@, len as int),
        offset + buf@.len() <= len,
    ensures
        chunks_wf(final(chunks)@, len as int),
        forall|p: int|
            0 <= p < len ==> #[trigger] chunk_byte(final(chunks)@, p) == (if offset <= p < offset
                + buf@.len() {
                buf@[p - offset]
            } else {
                chunk_byte(old(chunks)@, p)
            }),
{
    let ghost start = chunks@;
    let mut copied: usize = 0;
    while copied < buf.len()
        invariant
            offset + buf@.len() <= len,
            0 <= copied <= buf@.len(),
            chunks_wf(chunks@, len as int),
            forall|p: int|
                0 <= p < len ==> #[trigger] chunk_byte(chunks@, p) == (if offset <= p < offset
                    + copied {
                    buf@[p - offset]
                } else {
                    chunk_byte(start, p)
                }),
        decreases buf@.len() - copied,
    {
        let pos: usize = offset + copied;
        let index: usize = pos / MEM_FILE_CHUNK_SIZE;
        let off: usize = pos % MEM_FILE_CHUNK_SIZE;
        let step: usize = if buf.len() - copied < MEM_FILE_CHUNK_SIZE - off {
            buf.len() - copied
        } else {
            MEM_FILE_CHUNK_SIZE - off
        };
        let ghost before = chunks@;
        assert(index < chunks@.len());
        let slot: Option<Vec<u8>> = chunks[index].take();
        let mut chunk: Vec<u8> = match slot {
            Some(chunk) => chunk,
            None => Vec::new(),
        };
        let ghost held = chunk@;
        if chunk.len() < off + step {
            resize_bytes(&mut chunk, off + step);
        }
        copy_into(chunk.as_mut_slice(), off, buf, copied, step);
        let ghost now = chunk@;
        chunks[index] = Some(chunk);
        assert forall|p: int| 0 <= p < len implies #[trigger] chunk_byte(chunks@, p) == (if offset
            <= p < offset + copied + step {
            buf@[p - offset]
        } else {
            chunk_byte(start, p)
        }) by {
            let i = p / MEM_FILE_CHUNK_SIZE as int;
            let o = p % MEM_FILE_CHUNK_SIZE as int;
            assert(chunk_byte(before, p) == (if offset <= p < offset + copied {
                buf@[p - offset]
            } else {
                chunk_byte(start, p)
            }));
            if i == index {
                if off <= o < off + step {
                    assert(now[o] == buf@.subrange(copied as int, copied + step)[o - off]);
                } else if o < now.len() {
                    if o < held.len() {
                        assert(now[o] == held[o]);
                    } else {
                        assert(now[o] == 0);
                    }
                }
            }
        }
        copied = copied + step;
    }
}

impl MemFileContent {
    /// The chunks of a long file fit its length.
    pub open spec fn wf(&self) -> bool {
        match *self {
            MemFileContent::Inline(_) => true,
            MemFileContent::Chunked { len, chunks } => len <= MAX_FILE_OFFSET && chunks_wf(
                chunks@,
                len as int,
            ),
        }
    }

    /// An empty file.
    pub fn new() -> (r: Self)
        ensures
            r.wf(),
            r@ == Seq::<u8>::empty(),
    {
        MemFileContent::Inline(Vec::new())
    }

    /// A file with the given bytes.
    pub fn from_slice(content: &[u8]) -> (r: Self)
        requires
            content@.len() <= MAX_FILE_OFFSET,
        ensures
            r.wf(),
            r@ == content@,
    {
        if content.len() <= MEM_FILE_INLINE_LIMIT {
            return MemFileContent::Inline(copy_of(content));
        }
        let chunks = into_chunks(content);
        let r = MemFileContent::Chunked { len: content.len(), chunks };
        assert(r@ =~= content@);
        r
    }

    /// The length of the file.
    pub fn len(&self) -> (n: usize)
        ensures
            n == self@.len(),
    {
        match self {
            MemFileContent::Inline(content) => content.len(),
            MemFileContent::Chunked { len, .. } => *len,
        }
    }

    /// Empties the file.
    pub fn clear(&mut self)
        ensures
            final(self).wf(),
            final(self)@ == Seq::<u8>::empty(),
    {
        *self = MemFileContent::new();
    }

    /// Whether the file starts like an executable image.
    pub fn is_elf_image(&self) -> (r: bool)
        requires
            self.wf(),
        ensures
            r == is_elf(self@),
    {
        if self.len() < 4 {
            return false;
        }
        let mut magic = zero_bytes(4);
        let n: usize = self.read_at(0, magic.as_mut_slice());
        assert(magic@ =~= self@.take(4));
        let r = magic[0] == 0x7f && magic[1] == 0x45 && magic[2] == 0x4c && magic[3] == 0x46;
        assert(r == (magic@ =~= seq![0x7fu8, 0x45u8, 0x4cu8, 0x46u8]));
        r
    }

    /// Reads at `offset` into the front of `buf`.
    pub fn read_at(&self, offset: usize, buf: &mut [u8]) -> (n: usize)
        requires
            self.wf(),
        ensures
            n == read_len(self@.len(), offset as nat, old(buf)@.len()),
            final(buf)@ == read_into(self@, offset as nat, old(buf)@),
    {
        let len: usize = self.len();
        if offset >= len || buf.len() == 0 {
            return 0;
        }
        let n: usize = if len - offset < buf.len() {
            len - offset
        } else {
            buf.len()
        };
        let ghost start = buf@;
        match self {
            MemFileContent::Inline(content) => {
                copy_into(buf, 0, content.as_slice(), offset, n);
            },
            MemFileContent::Chunked { len, chunks } => {
                read_chunks(chunks, *len, offset, buf, n);
                assert(Seq::new(n as nat, |i: int| chunk_byte(chunks@, offset + i))
                    =~= self@.subrange(offset as int, offset + n));
            },
        }
        n
    }

    /// Sets the length, padding with zeros.
    pub fn resize(&mut self, new_len: usize)
        requires
            old(self).wf(),
            new_len <= MAX_FILE_OFFSET,
        ensures
            final(self).wf(),
            final(self)@ == resized(old(self)@, new_len as nat),
    {
        let ghost start = self@;
        match self {
            MemFileContent::Inline(content) => {
                if new_len <= MEM_FILE_INLINE_LIMIT {
                    resize_bytes(content, new_len);
                } else {
                    let len: usize = content.len();
                    let mut chunks = into_chunks(content.as_slice());
                    let ghost first = chunks@;
                    resize_chunks(&mut chunks, len, new_len);
                    assert forall|p: int| 0 <= p < new_len implies #[trigger] chunk_byte(chunks@, p)
                        == resized(start, new_len as nat)[p] by {
                        if p < len {
                            assert(chunk_byte(first, p) == start[p]);
                        }
                    }
                    *self = MemFileContent::Chunked { len: new_len, chunks };
                    assert(self@ =~= resized(start, new_len as nat));
                }
            },
            MemFileContent::Chunked { len, chunks } => {
                let ghost first = chunks@;
                resize_chunks(chunks, *len, new_len);
                *len = new_len;
                proof {
                    assert forall|p: int| 0 <= p < new_len implies #[trigger] chunk_byte(chunks@, p)
                        == resized(start, new_len as nat)[p] by {
                        if p < start.len() {
                            assert(chunk_byte(first, p) == start[p]);
                        }
                    }
                }
                assert(self@ =~= resized(start, new_len as nat));
                if new_len <= MEM_FILE_INLINE_LIMIT {
                    let flattened = self.to_vec();
                    *self = MemFileContent::Inline(flattened);
                }
            },
        }
    }

    /// Writes `buf` at `offset`; the file then ends where the write ends.
    pub fn write_at(&mut self, offset: usize, buf: &[u8]) -> (end: usize)
        requires
            old(self).wf(),
            offset + buf@.len() <= MAX_FILE_OFFSET,
        ensures
            final(self).wf(),
            end == offset + buf@.len(),
            final(self)@ == written(old(self)@, offset as nat, buf@),
    {
        let ghost start = self@;
        let end: usize = offset + buf.len();
        self.resize(end);
        let ghost grown = self@;
        assert(grown.len() == end);
        match self {
            MemFileContent::Inline(content) => {
                copy_into(content.as_mut_slice(), offset, buf, 0, buf.len());
                assert(buf@.subrange(0, buf@.len() as int) =~= buf@);
            },
            MemFileContent::Chunked { len, chunks } => {
                write_chunks(chunks, *len, offset, buf);
            },
        }
        assert(self@ =~= written(start, offset as nat, buf@)) by {
            assert forall|p: int| 0 <= p < end implies self@[p] == written(
                start,
                offset as nat,
                buf@,
            )[p] by {
                if p < offset {
                    assert(self@[p] == grown[p]);
                }
            }
        }
        end
    }

    /// The bytes of the file.
    pub fn to_vec(&self) -> (v: Vec<u8>)
        requires
            self.wf(),
        ensures
            v@ == self@,
    {
        let mut out = zero_bytes(self.len());
        let n: usize = self.read_at(0, out.as_mut_slice());
        assert(out@ =~= self@);
        out
    }
}

impl Clone for MemFileContent {
    /// A copy with the same bytes.
    fn clone(&self) -> (r: Self)
        ensures
            r@ == self@,
            self.wf() ==> r.wf(),
    {
        match self {
            MemFileContent::Inline(content) => MemFileContent::Inline(copy_of(content.as_slice())),
            MemFileContent::Chunked { len, chunks } => {
                let mut copy: Vec<Option<Vec<u8>>> = Vec::new();
                let mut i: usize = 0;
                while i < chunks.len()
                    invariant
                        0 <= i <= chunks@.len(),
                        copy@.len() == i,
                        forall|j: int|
                            0 <= j < i ==> (#[trigger] copy@[j] is Some <==> chunks@[j] is Some),
                        forall|j: int|
                            0 <= j < i && #[trigger] copy@[j] is Some ==> copy@[j]->0@
                                == chunks@[j]->0@,
                    decreases chunks@.len() - i,
                {
                    match &chunks[i] {
                        Some(chunk) => copy.push(Some(copy_of(chunk.as_slice()))),
                        None => copy.push(None),
                    }
                    i = i + 1;
                }
                let r = MemFileContent::Chunked { len: *len, chunks: copy };
                assert(r@ =~= self@);
                r
            },
        }
    }
}

/// A read at the place of the last write gives back what was written.
pub proof fn read_gives_back_write(content: Seq<u8>, offset: nat, buf: Seq<u8>, out: Seq<u8>)
    requires
        out.len() == buf.len(),
    ensures
        read_len(written(content, offset, buf).len(), offset, out.len()) == buf.len(),
        read_into(written(content, offset, buf), offset, out) == buf,
{
    let after = written(content, offset, buf);
    assert(after.len() == offset + buf.len());
    if buf.len() > 0 {
        assert(after.subrange(offset as int, (offset + buf.len()) as int) =~= buf);
        assert(spliced(out, 0, buf) =~= buf);
    } else {
        assert(out =~= buf);
    }
}

/// A write leaves the bytes before it as they were.
pub proof fn write_keeps_prefix(content: Seq<u8>, offset: nat, buf: Seq<u8>)
    ensures
        offset <= content.len() ==> written(content, offset, buf).take(offset as int)
            == content.take(offset as int),
        written(content, offset, buf).len() == offset + buf.len(),
{
    if offset <= content.len() {
        assert(written(content, offset, buf).take(offset as int) =~= content.take(offset as int));
    }
}

/// Growing a file and cutting it back changes nothing.
pub proof fn grow_then_shrink(content: Seq<u8>, longer: nat)
    requires
        content.len() <= longer,
    ensures
        resized(resized(content, longer), content.len()) == content,
{
    assert(resized(resized(content, longer), content.len()) =~= content);
}

} // verus!

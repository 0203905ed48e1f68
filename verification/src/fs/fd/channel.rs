//! Pipes, event counters and sockets.
use std::collections::VecDeque;

use vstd::prelude::*;

use crate::bytes::{copy_into, le_bytes, le_value, read_le, spliced, write_le};
use crate::errno::SysErrNo;

verus! {

/// How many bytes a pipe holds.
pub const PIPE_CAPACITY: usize = 65536;

/// The type of stream sockets.
pub const SOCK_STREAM: usize = 1;

/// The type of datagram sockets.
pub const SOCK_DGRAM: usize = 2;

/// A pipe: what was written and not read yet, and how many ends there are.
pub struct PipeState {
    pub buf: VecDeque<u8>,
    pub readers: usize,
    pub writers: usize,
}

/// The lesser of two numbers.
pub open spec fn lesser(a: int, b: int) -> int {
    if a < b {
        a
    } else {
        b
    }
}

impl PipeState {
    /// A pipe holds no more than it can.
    pub open spec fn wf(&self) -> bool {
        self.buf@.len() <= PIPE_CAPACITY
    }

    /// An empty pipe with one end of each kind.
    pub fn new() -> (r: Self)
        ensures
            r.wf(),
            r.buf@ == Seq::<u8>::empty(),
            r.readers == 1,
            r.writers == 1,
    {
        PipeState { buf: VecDeque::new(), readers: 1, writers: 1 }
    }

    /// Whether a reader has to wait.
    pub fn read_would_block(&self) -> (r: bool)
        ensures
            r == (self.buf@.len() == 0 && self.writers > 0),
    {
        self.buf.len() == 0 && self.writers > 0
    }

    /// Whether a writer has to wait.
    pub fn write_would_block(&self) -> (r: bool)
        ensures
            r == (self.readers > 0 && self.buf@.len() >= PIPE_CAPACITY),
    {
        self.readers > 0 && self.buf.len() >= PIPE_CAPACITY
    }

    fn pipe_read_buffer(&mut self, buf: &mut [u8]) -> (n: usize)
        ensures
            n == lesser(old(buf)@.len() as int, old(self).buf@.len() as int),
            final(self).buf@ == old(self).buf@.skip(n as int),
            final(self).readers == old(self).readers,
            final(self).writers == old(self).writers,
            final(buf)@ == spliced(old(buf)@, 0, old(self).buf@.take(n as int)),
    {
        let ghost all = self.buf@;
        let ghost start = buf@;
        let n: usize = if buf.len() < self.buf.len() {
            buf.len()
        } else {
            self.buf.len()
        };
        let mut i: usize = 0;
        assert(all.skip(0) =~= all);
        while i < n
            invariant
                0 <= i <= n,
                n <= all.len(),
                n <= buf@.len(),
                buf@.len() == start.len(),
                self.buf@ == all.skip(i as int),
                self.readers == old(self).readers,
                self.writers == old(self).writers,
                forall|j: int| 0 <= j < i ==> #[trigger] buf@[j] == all[j],
                forall|j: int| i <= j < start.len() ==> #[trigger] buf@[j] == start[j],
            decreases n - i,
        {
            match self.buf.pop_front() {
                Some(b) => {
                    buf[i] = b;
                },
                None => {},
            }
            assert(all.skip(i as int).drop_first() =~= all.skip(i + 1));
            i = i + 1;
        }
        assert(buf@ =~= spliced(start, 0, all.take(n as int)));
        n
    }

    fn pipe_write_buffer(&mut self, buf: &[u8], available: usize) -> (n: usize)
        ensures
            n == lesser(buf@.len() as int, available as int),
            final(self).buf@ == old(self).buf@ + buf@.take(n as int),
            final(self).readers == old(self).readers,
            final(self).writers == old(self).writers,
    {
        let ghost all = self.buf@;
        let n: usize = if buf.len() < available {
            buf.len()
        } else {
            available
        };
        let mut i: usize = 0;
        assert(all + buf@.take(0) =~= all);
        while i < n
            invariant
                0 <= i <= n <= buf@.len(),
                self.buf@ == all + buf@.take(i as int),
                self.readers == old(self).readers,
                self.writers == old(self).writers,
            decreases n - i,
        {
            self.buf.push_back(buf[i]);
            assert(self.buf@ =~= all + buf@.take(i + 1));
            i = i + 1;
        }
        n
    }

    /// What a read from a pipe does.
    pub open spec fn was_read(
        &self,
        was: &PipeState,
        before: Seq<u8>,
        after: Seq<u8>,
        r: (Result<usize, SysErrNo>, bool),
    ) -> bool {
        &&& (self.readers == was.readers)
        &&& (self.writers == was.writers)
        &&& (({
                let n = lesser(before.len() as int, was.buf@.len() as int);
                let blocked = before.len() > 0 && was.buf@.len() == 0 && was.writers
                    > 0;
                &&& r.0 == (if blocked {
                    Err::<usize, SysErrNo>(SysErrNo::EAGAIN)
                } else {
                    Ok(n as usize)
                })
                &&& self.buf@ == was.buf@.skip(n)
                &&& after == spliced(before, 0, was.buf@.take(n))
                &&& r.1 == (n > 0 && was.buf@.len() == PIPE_CAPACITY)
            }))
    }

    /// Reads what is there; an error if nothing is and something may come. The
    /// second part of the result is whether writers have to be woken.
    pub fn read(&mut self, buf: &mut [u8]) -> (r: (Result<usize, SysErrNo>, bool))
        requires
            old(self).wf(),
        ensures
            final(self).wf(),
            final(self).was_read(old(self), old(buf)@, final(buf)@, r),
    {
        let ghost all = self.buf@;
        let ghost start = buf@;
        proof {
            assert(all.skip(0) =~= all);
            assert(spliced(start, 0, all.take(0)) =~= start);
        }
        if buf.len() == 0 {
            return (Ok(0), false);
        }
        if self.buf.len() == 0 {
            if self.writers == 0 {
                return (Ok(0), false);
            }
            return (Err(SysErrNo::EAGAIN), false);
        }
        let was_full = self.buf.len() == PIPE_CAPACITY;
        let n: usize = self.pipe_read_buffer(buf);
        (Ok(n), was_full)
    }

    /// What a write into a pipe does.
    pub open spec fn was_written(
        &self,
        was: &PipeState,
        data: Seq<u8>,
        r: (Result<usize, SysErrNo>, bool),
    ) -> bool {
        &&& (self.readers == was.readers)
        &&& (self.writers == was.writers)
        &&& (({
                let room = PIPE_CAPACITY - was.buf@.len();
                let n = if was.readers == 0 {
                    0
                } else {
                    lesser(data.len() as int, room)
                };
                &&& r.0 == (if data.len() == 0 {
                    Ok::<usize, SysErrNo>(0)
                } else if was.readers == 0 {
                    Err(SysErrNo::EPIPE)
                } else if room == 0 {
                    Err(SysErrNo::EAGAIN)
                } else {
                    Ok(n as usize)
                })
                &&& self.buf@ == was.buf@ + data.take(n)
                &&& r.1 == (n > 0 && was.buf@.len() == 0)
            }))
    }

    /// Writes as much as there is room for; an error if nobody reads or there is
    /// no room. The second part of the result is whether readers have to be
    /// woken.
    pub fn write(&mut self, buf: &[u8]) -> (r: (Result<usize, SysErrNo>, bool))
        requires
            old(self).wf(),
        ensures
            final(self).wf(),
            final(self).was_written(old(self), buf@, r),
    {
        let ghost all = self.buf@;
        assert(all + buf@.take(0) =~= all);
        if buf.len() == 0 {
            return (Ok(0), false);
        }
        if self.readers == 0 {
            return (Err(SysErrNo::EPIPE), false);
        }
        let room: usize = PIPE_CAPACITY - self.buf.len();
        if room == 0 {
            return (Err(SysErrNo::EAGAIN), false);
        }
        let was_empty = self.buf.len() == 0;
        let n: usize = self.pipe_write_buffer(buf, room);
        (Ok(n), was_empty)
    }
}

/// What is written into a pipe comes out in order: reading after a write gives
/// first what was there, then what was written.
pub proof fn pipe_keeps_order(held: Seq<u8>, written: Seq<u8>, n: int)
    requires
        0 <= n <= held.len() + written.len(),
    ensures
        (held + written).take(n) + (held + written).skip(n) == held + written,
        n >= held.len() ==> (held + written).take(n) == held + written.take(n - held.len()),
        n <= held.len() ==> (held + written).take(n) == held.take(n),
{
    let all = held + written;
    assert(all.take(n) + all.skip(n) =~= all);
    if n >= held.len() {
        assert(all.take(n) =~= held + written.take(n - held.len()));
    }
    if n <= held.len() {
        assert(all.take(n) =~= held.take(n));
    }
}

/// An event counter.
#[derive(Clone, Copy, PartialEq, Eq, Structural, Debug)]
pub struct EventFdState {
    pub counter: u64,
    pub semaphore: bool,
    pub nonblock: bool,
}

impl EventFdState {
    /// An event counter.
    pub fn new(counter: u64, semaphore: bool, nonblock: bool) -> (r: Self)
        ensures
            r == (EventFdState { counter, semaphore, nonblock }),
    {
        EventFdState { counter, semaphore, nonblock }
    }

    /// What a read takes from the counter.
    pub open spec fn taken(self) -> u64 {
        if self.semaphore && self.counter > 0 {
            1
        } else {
            self.counter
        }
    }

    /// What a read of a counter does.
    pub open spec fn was_read(
        &self,
        was: &EventFdState,
        before: Seq<u8>,
        after: Seq<u8>,
        r: (Result<usize, SysErrNo>, bool),
    ) -> bool {
        &&& (({
                let short = before.len() < 8;
                &&& r.0 == (if short {
                    Err::<usize, SysErrNo>(SysErrNo::EINVAL)
                } else if was.counter == 0 {
                    Err(SysErrNo::EAGAIN)
                } else {
                    Ok(8)
                })
                &&& r.1 == (r.0 is Ok)
                &&& r.0 is Err ==> *self == *was && after == before
                &&& r.0 is Ok ==> *self == (EventFdState {
                    counter: (was.counter - was.taken()) as u64,
                    ..*was
                }) && after == spliced(before, 0, le_bytes(was.taken() as nat, 8))
            }))
    }

    /// Reads the counter: all of it, or one if it is a semaphore. The second
    /// part of the result is whether writers have to be woken.
    pub fn read(&mut self, buf: &mut [u8]) -> (r: (Result<usize, SysErrNo>, bool))
        ensures
            final(self).was_read(old(self), old(buf)@, final(buf)@, r),
    {
        if buf.len() < 8 {
            return (Err(SysErrNo::EINVAL), false);
        }
        if self.counter == 0 {
            return (Err(SysErrNo::EAGAIN), false);
        }
        let value: u64 = if self.semaphore {
            1
        } else {
            self.counter
        };
        self.counter = self.counter - value;
        write_le(buf, 0, value, 8);
        (Ok(8), true)
    }

    /// What a write to a counter does.
    pub open spec fn was_written(
        &self,
        was: &EventFdState,
        data: Seq<u8>,
        r: (Result<usize, SysErrNo>, bool),
    ) -> bool {
        &&& (({
                let value = le_value(data.take(8));
                &&& r.0 == (if data.len() < 8 || value == u64::MAX {
                    Err::<usize, SysErrNo>(SysErrNo::EINVAL)
                } else if was.counter + value > u64::MAX - 1 && value > 0 {
                    Err(SysErrNo::EAGAIN)
                } else {
                    Ok(8)
                })
                &&& r.1 == (r.0 is Ok && was.counter == 0 && value != 0)
                &&& r.0 is Err ==> *self == *was
                &&& r.0 is Ok ==> *self == (EventFdState {
                    counter: (was.counter + value) as u64,
                    ..*was
                })
            }))
    }

    /// Adds to the counter, if there is room. The second part of the result is
    /// whether readers have to be woken.
    pub fn write(&mut self, buf: &[u8]) -> (r: (Result<usize, SysErrNo>, bool))
        ensures
            final(self).was_written(old(self), buf@, r),
    {
        if buf.len() < 8 {
            return (Err(SysErrNo::EINVAL), false);
        }
        let value: u64 = read_le(buf, 0, 8);
        assert(buf@.subrange(0, 8) =~= buf@.take(8));
        if value == u64::MAX {
            return (Err(SysErrNo::EINVAL), false);
        }
        let available: u64 = (u64::MAX - 1).saturating_sub(self.counter);
        if value > available {
            return (Err(SysErrNo::EAGAIN), false);
        }
        let was_empty = self.counter == 0;
        self.counter = self.counter + value;
        (Ok(8), was_empty && value != 0)
    }
}

/// A semaphore read takes one, and other reads take all.
pub proof fn event_reads_take(e: EventFdState)
    requires
        e.counter > 0,
    ensures
        e.semaphore ==> e.taken() == 1,
        !e.semaphore ==> e.counter - e.taken() == 0,
{
}

/// A datagram and where it came from.
pub struct SocketPacket {
    pub data: Vec<u8>,
    pub addr: Vec<u8>,
}

/// A socket. Other sockets are named by their numbers.
pub struct SocketState {
    pub domain: i32,
    pub sock_type: usize,
    pub protocol: i32,
    pub nonblock: bool,
    pub bound: bool,
    pub listening: bool,
    pub connected: bool,
    pub shutdown_read: bool,
    pub shutdown_write: bool,
    pub local_addr: Option<Vec<u8>>,
    pub peer_addr: Option<Vec<u8>>,
    pub peer: Option<u64>,
    pub rx_buf: VecDeque<u8>,
    pub dgram_queue: VecDeque<SocketPacket>,
    pub pending: VecDeque<u64>,
    pub backlog: usize,
    pub reuse_addr: bool,
    pub reuse_port: bool,
    pub keepalive: bool,
    pub broadcast: bool,
    pub tcp_nodelay: bool,
    pub sndbuf: usize,
    pub rcvbuf: usize,
    pub send_timeout_us: Option<usize>,
    pub recv_timeout_us: Option<usize>,
    pub error: i32,
}

impl SocketState {
    /// A socket that is neither bound nor connected.
    pub fn new(domain: i32, sock_type: usize, protocol: i32, nonblock: bool) -> (r: Self)
        ensures
            r.domain == domain && r.sock_type == sock_type && r.protocol == protocol,
            r.nonblock == nonblock,
            !r.bound && !r.listening && !r.connected && !r.shutdown_read && !r.shutdown_write,
            r.local_addr is None && r.peer_addr is None && r.peer is None,
            r.rx_buf@.len() == 0 && r.dgram_queue@.len() == 0 && r.pending@.len() == 0,
            r.backlog == 0,
            !r.reuse_addr && !r.reuse_port && !r.keepalive && !r.broadcast && !r.tcp_nodelay,
            r.sndbuf == 65536 && r.rcvbuf == 65536,
            r.send_timeout_us is None && r.recv_timeout_us is None,
            r.error == 0,
    {
        SocketState {
            domain,
            sock_type,
            protocol,
            nonblock,
            bound: false,
            listening: false,
            connected: false,
            shutdown_read: false,
            shutdown_write: false,
            local_addr: None,
            peer_addr: None,
            peer: None,
            rx_buf: VecDeque::new(),
            dgram_queue: VecDeque::new(),
            pending: VecDeque::new(),
            backlog: 0,
            reuse_addr: false,
            reuse_port: false,
            keepalive: false,
            broadcast: false,
            tcp_nodelay: false,
            sndbuf: 65536,
            rcvbuf: 65536,
            send_timeout_us: None,
            recv_timeout_us: None,
            error: 0,
        }
    }

    /// Whether the socket carries a stream.
    pub fn is_stream(&self) -> (r: bool)
        ensures
            r == (self.sock_type == SOCK_STREAM),
    {
        self.sock_type == SOCK_STREAM
    }

    /// Whether the socket carries datagrams.
    pub fn is_datagram(&self) -> (r: bool)
        ensures
            r == (self.sock_type == SOCK_DGRAM),
    {
        self.sock_type == SOCK_DGRAM
    }

    /// What comes next out of the socket for a buffer of some length.
    pub open spec fn next_bytes(&self, cap: nat) -> Seq<u8> {
        if self.sock_type == SOCK_DGRAM {
            if self.dgram_queue@.len() == 0 {
                Seq::empty()
            } else {
                let data = self.dgram_queue@[0].data@;
                data.take(lesser(cap as int, data.len() as int))
            }
        } else {
            self.rx_buf@.take(lesser(cap as int, self.rx_buf@.len() as int))
        }
    }

    /// The result of a read into a buffer of some length.
    pub open spec fn read_result(&self, cap: nat) -> Result<usize, SysErrNo> {
        if cap == 0 || self.shutdown_read {
            Ok(0)
        } else if self.sock_type == SOCK_STREAM && !self.connected {
            Err(SysErrNo::ENOTCONN)
        } else if self.sock_type == SOCK_DGRAM && self.dgram_queue@.len() == 0 {
            Err(SysErrNo::EAGAIN)
        } else if self.sock_type != SOCK_DGRAM && self.rx_buf@.len() == 0 {
            Err(SysErrNo::EAGAIN)
        } else {
            Ok(self.next_bytes(cap).len() as usize)
        }
    }

    /// Whether a read takes something out.
    pub open spec fn read_takes(&self, cap: nat) -> bool {
        cap > 0 && !self.shutdown_read && self.read_result(cap) is Ok
    }

    fn take_stream(&mut self, buf: &mut [u8]) -> (n: usize)
        ensures
            n == lesser(old(buf)@.len() as int, old(self).rx_buf@.len() as int),
            final(self).rx_buf@ == old(self).rx_buf@.skip(n as int),
            *final(self) == (SocketState { rx_buf: final(self).rx_buf, ..*old(self) }),
            final(buf)@ == spliced(old(buf)@, 0, old(self).rx_buf@.take(n as int)),
    {
        let ghost all = self.rx_buf@;
        let ghost first = *self;
        let ghost start = buf@;
        let n: usize = if buf.len() < self.rx_buf.len() {
            buf.len()
        } else {
            self.rx_buf.len()
        };
        let mut i: usize = 0;
        assert(all.skip(0) =~= all);
        while i < n
            invariant
                0 <= i <= n,
                n <= all.len(),
                n <= buf@.len(),
                buf@.len() == start.len(),
                self.rx_buf@ == all.skip(i as int),
                *self == (SocketState { rx_buf: self.rx_buf, ..first }),
                forall|j: int| 0 <= j < i ==> #[trigger] buf@[j] == all[j],
                forall|j: int| i <= j < start.len() ==> #[trigger] buf@[j] == start[j],
            decreases n - i,
        {
            match self.rx_buf.pop_front() {
                Some(b) => {
                    buf[i] = b;
                },
                None => {},
            }
            assert(all.skip(i as int).drop_first() =~= all.skip(i + 1));
            i = i + 1;
        }
        assert(buf@ =~= spliced(start, 0, all.take(n as int)));
        n
    }

    /// What a read from a socket does.
    pub open spec fn was_read(
        &self,
        was: &SocketState,
        before: Seq<u8>,
        after: Seq<u8>,
        r: Result<usize, SysErrNo>,
    ) -> bool {
        &&& (r == was.read_result(before.len()))
        &&& (!was.read_takes(before.len()) ==> *self == *was && after
                == before)
        &&& (was.read_takes(before.len()) ==> {
                &&& after == spliced(before, 0, was.next_bytes(before.len()))
                &&& self.dgram_queue@ == (if was.sock_type == SOCK_DGRAM {
                    was.dgram_queue@.skip(1)
                } else {
                    was.dgram_queue@
                })
                &&& self.rx_buf@ == (if was.sock_type == SOCK_DGRAM {
                    was.rx_buf@
                } else {
                    was.rx_buf@.skip(r->Ok_0 as int)
                })
                &&& *self == (SocketState {
                    rx_buf: self.rx_buf,
                    dgram_queue: self.dgram_queue,
                    ..*was
                })
            })
    }

    /// Reads: the next datagram, cut to the buffer, or what is there of the
    /// stream.
    pub fn read(&mut self, buf: &mut [u8]) -> (r: Result<usize, SysErrNo>)
        ensures
            final(self).was_read(old(self), old(buf)@, final(buf)@, r),
    {
        let ghost start = buf@;
        if buf.len() == 0 || self.shutdown_read {
            return Ok(0);
        }
        if self.is_stream() && !self.connected {
            return Err(SysErrNo::ENOTCONN);
        }
        if self.is_datagram() {
            if self.dgram_queue.len() == 0 {
                return Err(SysErrNo::EAGAIN);
            }
            let ghost all = self.dgram_queue@;
            match self.dgram_queue.pop_front() {
                None => Err(SysErrNo::EAGAIN),
                Some(packet) => {
                    let n: usize = if buf.len() < packet.data.len() {
                        buf.len()
                    } else {
                        packet.data.len()
                    };
                    copy_into(buf, 0, packet.data.as_slice(), 0, n);
                    assert(packet.data@.subrange(0, n as int) =~= packet.data@.take(n as int));
                    assert(all.drop_first() =~= all.skip(1));
                    Ok(n)
                },
            }
        } else {
            if self.rx_buf.len() == 0 {
                return Err(SysErrNo::EAGAIN);
            }
            let n: usize = self.take_stream(buf);
            Ok(n)
        }
    }

    /// What a write into the stream of this socket from its other end does.
    pub fn receive(&mut self, buf: &[u8])
        ensures
            final(self).rx_buf@ == old(self).rx_buf@ + buf@,
            *final(self) == (SocketState { rx_buf: final(self).rx_buf, ..*old(self) }),
    {
        let ghost all = self.rx_buf@;
        let ghost first = *self;
        let mut i: usize = 0;
        assert(all + buf@.take(0) =~= all);
        while i < buf.len()
            invariant
                0 <= i <= buf@.len(),
                self.rx_buf@ == all + buf@.take(i as int),
                *self == (SocketState { rx_buf: self.rx_buf, ..first }),
            decreases buf@.len() - i,
        {
            self.rx_buf.push_back(buf[i]);
            assert(self.rx_buf@ =~= all + buf@.take(i + 1));
            i = i + 1;
        }
        assert(buf@.take(i as int) =~= buf@);
    }
}

} // verus!

//! Byte buffers: copying between them and little-endian numbers in them.
use vstd::prelude::*;

verus! {

/// A buffer in which `n` bytes from position `at` on are replaced by those of
/// `src`.
pub open spec fn spliced(dst: Seq<u8>, at: int, src: Seq<u8>) -> Seq<u8> {
    dst.take(at) + src + dst.skip(at + src.len())
}

/// `n` zero bytes.
pub open spec fn zeros(n: nat) -> Seq<u8> {
    Seq::new(n, |i: int| 0u8)
}

/// A sequence cut or padded with zeros to a length.
pub open spec fn resized(s: Seq<u8>, len: nat) -> Seq<u8> {
    if len <= s.len() {
        s.take(len as int)
    } else {
        s + zeros((len - s.len()) as nat)
    }
}

/// Copies `src[from..from + n]` over `dst[at..at + n]`.
pub fn copy_into(dst: &mut [u8], at: usize, src: &[u8], from: usize, n: usize)
    requires
        at + n <= old(dst)@.len(),
        from + n <= src@.len(),
    ensures
        final(dst)@ == spliced(old(dst)@, at as int, src@.subrange(from as int, from + n)),
{
    let ghost start = dst@;
    let mut i: usize = 0;
    assert(dst.len() == start.len() && src.len() == src@.len());
    assert(start =~= spliced(start, at as int, src@.subrange(from as int, from as int)));
    while i < n
        invariant
            0 <= i <= n,
            at + n <= start.len() <= usize::MAX,
            start.len() == dst@.len(),
            from + n <= src@.len() <= usize::MAX,
            dst@ == spliced(start, at as int, src@.subrange(from as int, from + i)),
        decreases n - i,
    {
        dst[at + i] = src[from + i];
        i = i + 1;
        assert(dst@ =~= spliced(start, at as int, src@.subrange(from as int, from + i)));
    }
}

/// Writes zeros over `dst[at..at + n]`.
pub fn fill_zero(dst: &mut [u8], at: usize, n: usize)
    requires
        at + n <= old(dst)@.len(),
    ensures
        final(dst)@ == spliced(old(dst)@, at as int, zeros(n as nat)),
{
    let ghost start = dst@;
    let mut i: usize = 0;
    assert(dst.len() == start.len());
    assert(start =~= spliced(start, at as int, zeros(0)));
    while i < n
        invariant
            0 <= i <= n,
            at + n <= start.len() <= usize::MAX,
            start.len() == dst@.len(),
            dst@ == spliced(start, at as int, zeros(i as nat)),
        decreases n - i,
    {
        dst[at + i] = 0;
        i = i + 1;
        assert(dst@ =~= spliced(start, at as int, zeros(i as nat)));
    }
}

/// A copy of `src[from..to]`.
pub fn copy_range(src: &[u8], from: usize, to: usize) -> (v: Vec<u8>)
    requires
        from <= to <= src@.len(),
    ensures
        v@ == src@.subrange(from as int, to as int),
{
    let mut v: Vec<u8> = Vec::new();
    let mut i: usize = from;
    while i < to
        invariant
            from <= i <= to <= src@.len(),
            v@ == src@.subrange(from as int, i as int),
        decreases to - i,
    {
        v.push(src[i]);
        i = i + 1;
        assert(v@ =~= src@.subrange(from as int, i as int));
    }
    v
}

/// A copy of a buffer.
pub fn copy_of(src: &[u8]) -> (v: Vec<u8>)
    ensures
        v@ == src@,
{
    let v = copy_range(src, 0, src.len());
    assert(v@ =~= src@);
    v
}

/// Appends a copy of a buffer.
pub fn append_bytes(dst: &mut Vec<u8>, src: &[u8])
    ensures
        final(dst)@ == old(dst)@ + src@,
{
    let ghost start = dst@;
    let mut i: usize = 0;
    while i < src.len()
        invariant
            0 <= i <= src@.len(),
            dst@ == start + src@.take(i as int),
        decreases src@.len() - i,
    {
        dst.push(src[i]);
        i = i + 1;
        assert(dst@ =~= start + src@.take(i as int));
    }
    assert(src@.take(i as int) =~= src@);
}

/// Cuts a buffer, or pads it with zeros, to a length.
pub fn resize_bytes(v: &mut Vec<u8>, len: usize)
    ensures
        final(v)@ == resized(old(v)@, len as nat),
{
    let ghost start = v@;
    if len <= v.len() {
        v.truncate(len);
        assert(v@ =~= resized(start, len as nat));
    } else {
        while v.len() < len
            invariant
                start.len() <= v@.len() <= len,
                v@ == start + zeros((v@.len() - start.len()) as nat),
            decreases len - v@.len(),
        {
            v.push(0);
            assert(v@ =~= start + zeros((v@.len() - start.len()) as nat));
        }
    }
}

/// `n` zero bytes.
pub fn zero_bytes(n: usize) -> (v: Vec<u8>)
    ensures
        v@ == zeros(n as nat),
{
    let mut v: Vec<u8> = Vec::new();
    resize_bytes(&mut v, n);
    assert(v@ =~= zeros(n as nat));
    v
}

/// Whether all bytes of `src[from..to]` are zero.
pub fn all_zero(src: &[u8], from: usize, to: usize) -> (r: bool)
    requires
        from <= to <= src@.len(),
    ensures
        r == (src@.subrange(from as int, to as int) == zeros((to - from) as nat)),
{
    let mut i: usize = from;
    while i < to
        invariant
            from <= i <= to <= src@.len(),
            forall|j: int| from <= j < i ==> src@[j] == 0,
        decreases to - i,
    {
        if src[i] != 0 {
            assert(src@.subrange(from as int, to as int)[i - from] != zeros((to - from) as nat)[i
                - from]);
            return false;
        }
        i = i + 1;
    }
    assert(src@.subrange(from as int, to as int) =~= zeros((to - from) as nat));
    true
}

/// The number written in `s`, least significant byte first.
pub open spec fn le_value(s: Seq<u8>) -> nat
    decreases s.len(),
{
    if s.len() == 0 {
        0
    } else {
        s[0] as nat + 256 * le_value(s.drop_first())
    }
}

/// The `k` low bytes of a number, least significant first.
pub open spec fn le_bytes(n: nat, k: nat) -> Seq<u8>
    decreases k,
{
    if k == 0 {
        Seq::empty()
    } else {
        seq![(n % 256) as u8] + le_bytes(n / 256, (k - 1) as nat)
    }
}

/// 256 to the power of `k`.
pub open spec fn radix(k: nat) -> nat
    decreases k,
{
    if k == 0 {
        1
    } else {
        256 * radix((k - 1) as nat)
    }
}

/// Reading the bytes of a number gives the number back, as far as they reach.
pub proof fn le_round_trip(n: nat, k: nat)
    ensures
        le_bytes(n, k).len() == k,
        n < radix(k) ==> le_value(le_bytes(n, k)) == n,
    decreases k,
{
    if k > 0 {
        le_round_trip(n / 256, (k - 1) as nat);
        let s = le_bytes(n, k);
        assert(s.drop_first() =~= le_bytes(n / 256, (k - 1) as nat));
        assert(s[0] == (n % 256) as u8);
        assert(s[0] as nat == n % 256);
        if n < radix(k) {
            assert(n / 256 < radix((k - 1) as nat));
        }
    }
}

/// Writing the number that some bytes stand for gives the bytes back.
pub proof fn le_value_round_trip(s: Seq<u8>)
    ensures
        le_bytes(le_value(s), s.len()) == s,
        le_value(s) < radix(s.len()),
    decreases s.len(),
{
    if s.len() > 0 {
        let rest = s.drop_first();
        le_value_round_trip(rest);
        let v = le_value(s);
        assert(v % 256 == s[0] as nat && v / 256 == le_value(rest)) by (nonlinear_arith)
            requires
                v == s[0] as nat + 256 * le_value(rest),
                0 <= s[0] < 256,
        ;
        assert(seq![(v % 256) as u8] + rest =~= s);
    } else {
        assert(s =~= le_bytes(0, 0));
    }
}

/// The little-endian number in the `k` bytes from `at` on, for `k` up to eight.
pub fn read_le(src: &[u8], at: usize, k: usize) -> (n: u64)
    requires
        k <= 8,
        at + k <= src@.len(),
    ensures
        n == le_value(src@.subrange(at as int, at + k)),
{
    let mut n: u64 = 0;
    let mut i: usize = k;
    assert(src.len() == src@.len());
    assert(src@.subrange(at + k, at + k) =~= Seq::empty());
    while i > 0
        invariant
            0 <= i <= k <= 8,
            at + k <= src@.len() <= usize::MAX,
            n == le_value(src@.subrange(at + i, at + k)),
        decreases i,
    {
        proof {
            let tail = src@.subrange(at + i, at + k);
            le_value_round_trip(tail);
            reveal_with_fuel(radix, 9);
            assert(tail.len() == k - i);
            assert(radix(tail.len()) <= radix(7));
            let longer = src@.subrange(at + i - 1, at + k);
            assert(longer.drop_first() =~= tail);
        }
        n = n * 256 + src[at + i - 1] as u64;
        i = i - 1;
    }
    n
}

/// Writes the low `k` bytes of a number at `at`, least significant first.
pub fn write_le(dst: &mut [u8], at: usize, value: u64, k: usize)
    requires
        at + k <= old(dst)@.len(),
    ensures
        final(dst)@ == spliced(old(dst)@, at as int, le_bytes(value as nat, k as nat)),
{
    let ghost start = dst@;
    let mut n: u64 = value;
    let mut i: usize = 0;
    assert(dst.len() == start.len());
    proof {
        le_round_trip(value as nat, k as nat);
    }
    while i < k
        invariant
            0 <= i <= k,
            at + k <= start.len() <= usize::MAX,
            dst@.len() == start.len(),
            le_bytes(value as nat, k as nat).len() == k,
            forall|j: int|
                0 <= j < start.len() && !(at <= j < at + i) ==> dst@[j] == #[trigger] start[j],
            forall|j: int|
                0 <= j < i ==> dst@[at + j] == #[trigger] le_bytes(value as nat, k as nat)[j],
            le_bytes(value as nat, k as nat).skip(i as int) == le_bytes(n as nat, (k - i) as nat),
        decreases k - i,
    {
        let ghost rest = le_bytes(n as nat, (k - i) as nat);
        proof {
            assert(rest[0] == (n as nat % 256) as u8);
            assert(le_bytes(value as nat, k as nat).skip(i as int)[0] == le_bytes(
                value as nat,
                k as nat,
            )[i as int]);
            assert(rest.drop_first() =~= le_bytes((n / 256) as nat, (k - i - 1) as nat));
            assert(le_bytes(value as nat, k as nat).skip(i as int).drop_first() =~= le_bytes(
                value as nat,
                k as nat,
            ).skip(i + 1));
        }
        dst[at + i] = (n % 256) as u8;
        n = n / 256;
        i = i + 1;
    }
    assert(dst@ =~= spliced(start, at as int, le_bytes(value as nat, k as nat)));
}

} // verus!

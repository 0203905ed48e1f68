//! Directory entries as they are handed to programs.
use vstd::prelude::*;
use vstd::utf8::encode_utf8;

use crate::bytes::{append_bytes, copy_into, le_bytes, spliced, write_le, zero_bytes, zeros};

verus! {

/// An entry to be handed out.
pub struct OutEntry {
    pub ino: u64,
    pub name: String,
    pub is_dir: bool,
}

/// An entry to be handed out, as a mathematical value.
pub struct OutModel {
    pub ino: u64,
    pub name: Seq<char>,
    pub is_dir: bool,
}

impl View for OutEntry {
    type V = OutModel;

    open spec fn view(&self) -> OutModel {
        OutModel { ino: self.ino, name: self.name@, is_dir: self.is_dir }
    }
}

/// The views of entries to be handed out.
pub open spec fn out_views(entries: Seq<OutEntry>) -> Seq<OutModel> {
    entries.map_values(|e: OutEntry| e@)
}

/// How long a record with a name of some bytes is: a multiple of eight.
pub open spec fn record_len(name_len: int) -> int {
    (27 + name_len) / 8 * 8
}

/// The record of an entry at a place in its directory.
pub open spec fn record_bytes(e: OutModel, place: nat) -> Seq<u8> {
    let name = encode_utf8(e.name);
    let len = record_len(name.len() as int);
    le_bytes(e.ino as nat, 8) + le_bytes(place + 1, 8) + le_bytes(len as nat, 2) + seq![
        if e.is_dir {
            4u8
        } else {
            8u8
        },
    ] + name + zeros((len - 19 - name.len()) as nat)
}

/// The records of as many entries as fit, from a place on, and the place behind
/// them.
pub open spec fn packed(entries: Seq<OutModel>, place: nat, room: int) -> (Seq<u8>, nat)
    decreases entries.len() - place,
{
    if place >= entries.len() || record_len(encode_utf8(entries[place as int].name).len() as int)
        > room {
        (Seq::empty(), place)
    } else {
        let first = record_bytes(entries[place as int], place);
        let (rest, next) = packed(
            entries,
            place + 1,
            room - record_len(encode_utf8(entries[place as int].name).len() as int),
        );
        (first + rest, next)
    }
}

/// A record is as long as it says.
pub proof fn record_has_its_length(e: OutModel, place: nat)
    ensures
        record_bytes(e, place).len() == record_len(encode_utf8(e.name).len() as int),
        record_bytes(e, place).len() % 8 == 0,
{
    crate::bytes::le_round_trip(e.ino as nat, 8);
    crate::bytes::le_round_trip(place + 1, 8);
    crate::bytes::le_round_trip(record_len(encode_utf8(e.name).len() as int) as nat, 2);
}

fn append_number(out: &mut Vec<u8>, value: u64, k: usize)
    ensures
        final(out)@ == old(out)@ + le_bytes(value as nat, k as nat),
{
    let mut part = zero_bytes(k);
    let ghost blank = part@;
    write_le(part.as_mut_slice(), 0, value, k);
    proof {
        crate::bytes::le_round_trip(value as nat, k as nat);
        assert(spliced(blank, 0, le_bytes(value as nat, k as nat)) =~= le_bytes(
            value as nat,
            k as nat,
        ));
    }
    append_bytes(out, part.as_slice());
}

fn make_record(e: &OutEntry, place: usize, name: &[u8], len: usize) -> (rec: Vec<u8>)
    requires
        name@ == encode_utf8(e.name@),
        len == record_len(name@.len() as int),
        place < usize::MAX,
    ensures
        rec@ == record_bytes(e@, place as nat),
{
    let mut rec: Vec<u8> = Vec::new();
    append_number(&mut rec, e.ino, 8);
    append_number(&mut rec, (place + 1) as u64, 8);
    append_number(&mut rec, len as u64, 2);
    assert(rec@ =~= le_bytes(e.ino as nat, 8) + le_bytes((place + 1) as nat, 8) + le_bytes(
        len as nat,
        2,
    ));
    let ghost head = rec@;
    let kind: u8 = if e.is_dir {
        4
    } else {
        8
    };
    rec.push(kind);
    assert(rec@ =~= head + seq![kind]);
    append_bytes(&mut rec, name);
    let pad = zero_bytes(len - 19 - name.len());
    append_bytes(&mut rec, pad.as_slice());
    rec
}

/// Hands out as many entries as fit, from a place on: how many bytes they take,
/// and the place behind them.
pub fn put_records(buf: &mut [u8], entries: &Vec<OutEntry>, place: usize) -> (r: (usize, usize))
    ensures
        ({
            let (bytes, next) = packed(out_views(entries@), place as nat, old(buf)@.len() as int);
            &&& r.0 == bytes.len()
            &&& r.1 == next
            &&& final(buf)@ == spliced(old(buf)@, 0, bytes)
        }),
{
    let ghost start = buf@;
    let ghost all = out_views(entries@);
    let ghost goal = packed(all, place as nat, start.len() as int);
    let mut written: usize = 0;
    let mut at: usize = place;
    let ghost mut done = Seq::<u8>::empty();
    assert(done + goal.0 =~= goal.0);
    assert(spliced(start, 0, done) =~= start);
    assert(buf.len() == buf@.len());
    loop
        invariant
            all == out_views(entries@),
            buf@.len() == start.len(),
            start.len() <= usize::MAX,
            place <= at,
            written == done.len(),
            written <= start.len(),
            buf@ == spliced(start, 0, done),
            goal == packed(all, place as nat, start.len() as int),
            goal == (
                done + packed(all, at as nat, start.len() - written).0,
                packed(all, at as nat, start.len() - written).1,
            ),
        ensures
            goal == (done, at as nat),
            written == done.len(),
            buf@ == spliced(start, 0, done),
        decreases entries@.len() - at,
    {
        if at >= entries.len() {
            assert(done + Seq::<u8>::empty() =~= done);
            break;
        }
        let e = &entries[at];
        assert(all[at as int] == entries@[at as int]@);
        let name = e.name.as_str().as_bytes();
        let n: usize = name.len();
        if n > usize::MAX - 27 {
            proof {
                assert(record_len(n as int) > start.len() - written);
                assert(done + Seq::<u8>::empty() =~= done);
            }
            break;
        }
        let len: usize = (27 + n) / 8 * 8;
        if len > buf.len() - written {
            assert(done + Seq::<u8>::empty() =~= done);
            break;
        }
        let ghost before = buf@;
        let record = make_record(e, at, name, len);
        proof {
            record_has_its_length(e@, at as nat);
            assert(record@.subrange(0, len as int) =~= record@);
        }
        copy_into(buf, written, record.as_slice(), 0, len);
        proof {
            let rec = record_bytes(e@, at as nat);
            let rest = packed(all, (at + 1) as nat, start.len() - written - len);
            assert(done + (rec + rest.0) =~= (done + rec) + rest.0);
            assert(buf@ =~= spliced(start, 0, done + rec));
            done = done + rec;
        }
        written = written + len;
        at = at + 1;
    }
    (written, at)
}

} // verus!

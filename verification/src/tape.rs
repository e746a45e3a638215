//! The mathematical model of a seekable byte stream.
use vstd::prelude::*;

verus! {

/// A sequence of bytes together with the position of its cursor.
///
/// The cursor may stand anywhere, also past the end of the data.
#[verifier::ext_equal]
pub struct Tape {
    pub data: Seq<u8>,
    pub pos: nat,
}

/// `data`, continued with zeroes to a length of at least `len`.
pub open spec fn zero_filled(data: Seq<u8>, len: nat) -> Seq<u8> {
    if len <= data.len() {
        data
    } else {
        data + Seq::new((len - data.len()) as nat, |i: int| 0u8)
    }
}

/// The smaller of two naturals.
pub open spec fn min_nat(a: nat, b: nat) -> nat {
    if a <= b {
        a
    } else {
        b
    }
}

/// The larger of two naturals.
pub open spec fn max_nat(a: nat, b: nat) -> nat {
    if a <= b {
        b
    } else {
        a
    }
}

impl Tape {
    /// What a write of `buf` at the cursor leaves: the data up to the cursor
    /// (zero-filled if the cursor stood past the end), `buf`, and whatever the
    /// write did not reach. The cursor stands behind `buf`.
    pub open spec fn written(self, buf: Seq<u8>) -> Tape {
        let base = zero_filled(self.data, self.pos);
        let end = self.pos + buf.len();
        Tape {
            data: base.take(self.pos as int) + buf + base.skip(min_nat(end, base.len()) as int),
            pos: end,
        }
    }

    /// The bytes between the cursor and the end.
    pub open spec fn rest(self) -> Seq<u8> {
        if self.pos <= self.data.len() {
            self.data.skip(self.pos as int)
        } else {
            Seq::empty()
        }
    }

    /// The bytes that a read of at most `max` bytes hands out.
    pub open spec fn next(self, max: nat) -> Seq<u8> {
        self.rest().take(min_nat(max, self.rest().len()) as int)
    }

    /// The tape after `n` bytes were read.
    pub open spec fn advanced(self, n: nat) -> Tape {
        Tape { data: self.data, pos: self.pos + n }
    }

    /// The tape with its cursor at `pos`.
    pub open spec fn at(self, pos: nat) -> Tape {
        Tape { data: self.data, pos }
    }

    /// The length that the data has after a write of `n` bytes at the cursor.
    pub open spec fn len_after_write(self, n: nat) -> nat {
        max_nat(self.data.len(), self.pos + n)
    }
}

/// Writes `buf` into `data` at `pos`, filling a gap before it with zeroes.
pub fn write_at(data: &mut Vec<u8>, pos: usize, buf: &[u8])
    requires
        pos + buf@.len() <= usize::MAX,
    ensures
        final(data)@ == (Tape { data: old(data)@, pos: pos as nat }).written(buf@).data,
{
    let ghost before = Tape { data: data@, pos: pos as nat };
    if data.len() < pos {
        data.resize(pos, 0u8);
    }
    assert(data@ =~= before.written(buf@.take(0)).data);
    let mut i: usize = 0;
    while i < buf.len()
        invariant
            before == (Tape { data: old(data)@, pos: pos as nat }),
            i <= buf@.len(),
            pos + buf@.len() <= usize::MAX,
            data@ == before.written(buf@.take(i as int)).data,
        decreases buf@.len() - i,
    {
        let at: usize = pos + i;
        if at < data.len() {
            data[at] = buf[i];
        } else {
            data.push(buf[i]);
        }
        assert(data@ =~= before.written(buf@.take(i + 1)).data);
        i = i + 1;
    }
    assert(buf@.take(i as int) =~= buf@);
}

/// Copies at most `max` bytes of `data`, from `pos` on.
pub fn read_at(data: &[u8], pos: u64, max: usize) -> (part: Vec<u8>)
    ensures
        part@ == (Tape { data: data@, pos: pos as nat }).next(max as nat),
{
    let ghost tape = Tape { data: data@, pos: pos as nat };
    if pos >= data.len() as u64 {
        assert(tape.next(max as nat) =~= Seq::empty());
        return Vec::new();
    }
    let from: usize = pos as usize;
    let room: usize = data.len() - from;
    let count: usize = if max < room {
        max
    } else {
        room
    };
    let part = vstd::slice::slice_to_vec(vstd::slice::slice_subrange(data, from, from + count));
    assert(part@ =~= tape.next(max as nat));
    part
}

/// A position to seek to.
#[derive(Clone, Copy, PartialEq, Eq, Debug, Structural)]
pub enum SeekFrom {
    /// Counted from the start.
    Start(u64),
    /// Counted from the end of the data.
    End(i64),
    /// Counted from the cursor.
    Current(i64),
}

impl SeekFrom {
    /// The position meant, in data of length `len` whose cursor stands at `pos`.
    pub open spec fn target(self, pos: int, len: int) -> int {
        match self {
            SeekFrom::Start(n) => n as int,
            SeekFrom::End(n) => len + n,
            SeekFrom::Current(n) => pos + n,
        }
    }

    /// The position meant, unless it lies before the start or needs more than
    /// 64 bits.
    pub fn resolve(self, pos: u64, len: u64) -> (target: Option<u64>)
        ensures
            target == if 0 <= self.target(pos as int, len as int) <= u64::MAX {
                Some(self.target(pos as int, len as int) as u64)
            } else {
                None
            },
    {
        match self {
            SeekFrom::Start(n) => Some(n),
            SeekFrom::End(n) => len.checked_add_signed(n),
            SeekFrom::Current(n) => pos.checked_add_signed(n),
        }
    }
}

/// A write makes the data as long as it has to be to hold the write, and never
/// shorter.
pub proof fn law_written_len(tape: Tape, buf: Seq<u8>)
    ensures
        tape.written(buf).data.len() == tape.len_after_write(buf.len()),
        tape.written(buf).pos == tape.pos + buf.len(),
{
}

/// Reading at the place of a write gives back what was written.
pub proof fn law_read_back(tape: Tape, buf: Seq<u8>)
    ensures
        tape.written(buf).at(tape.pos).next(buf.len()) == buf,
{
    let after = tape.written(buf).at(tape.pos);
    assert(after.rest().take(buf.len() as int) =~= buf);
    assert(min_nat(buf.len(), after.rest().len()) == buf.len());
}

/// A write leaves every byte outside its own place as it was.
pub proof fn law_write_is_local(tape: Tape, buf: Seq<u8>, i: int)
    requires
        0 <= i < tape.data.len(),
        i < tape.pos || tape.pos + buf.len() <= i,
    ensures
        tape.written(buf).data[i] == tape.data[i],
{
}

/// Two writes in a row leave what one write of the joined bytes leaves.
pub proof fn law_writes_join(tape: Tape, a: Seq<u8>, b: Seq<u8>)
    ensures
        tape.written(a).written(b) == tape.written(a + b),
{
    let once = tape.written(a + b);
    let twice = tape.written(a).written(b);
    assert(once.pos == twice.pos);
    assert(once.data.len() == twice.data.len());
    assert forall|i: int| 0 <= i < once.data.len() implies once.data[i] == twice.data[i] by {
        if i < tape.pos {
        } else if i < tape.pos + a.len() {
        } else if i < tape.pos + a.len() + b.len() {
        } else {
        }
    }
    assert(once.data =~= twice.data);
}

/// Writing to the end of a tape whose cursor stands there appends.
pub proof fn law_append(tape: Tape, buf: Seq<u8>)
    requires
        tape.pos == tape.data.len(),
    ensures
        tape.written(buf).data == tape.data + buf,
{
    assert(tape.written(buf).data =~= tape.data + buf);
}

/// The smaller of two numbers is one of them and not larger than either, and the larger
/// one of them and not smaller.
pub proof fn law_min_and_max(a: nat, b: nat)
    ensures
        min_nat(a, b) == a || min_nat(a, b) == b,
        min_nat(a, b) <= a && min_nat(a, b) <= b,
        max_nat(a, b) == a || max_nat(a, b) == b,
        max_nat(a, b) >= a && max_nat(a, b) >= b,
{
}

/// A write reaches just as far as it has to: the data ends behind the write, or where it
/// ended before if that is farther, and the gap before a write behind the end is zero.
pub proof fn law_write_extends(tape: Tape, buf: Seq<u8>, i: int)
    ensures
        tape.pos + buf.len() <= tape.data.len() ==> tape.written(buf).data.len()
            == tape.data.len(),
        tape.pos + buf.len() >= tape.data.len() ==> tape.written(buf).data.len() == tape.pos
            + buf.len(),
        0 <= i < buf.len() ==> tape.written(buf).data[tape.pos + i] == buf[i],
        tape.data.len() <= i < tape.pos ==> tape.written(buf).data[i] == 0,
{
}

/// A read hands out the bytes at the cursor, in order: as many as were asked for, or all
/// up to the end where there are fewer.
pub proof fn law_read_is_next(tape: Tape, max: nat, i: int)
    ensures
        0 <= i < tape.next(max).len() ==> tape.pos + i < tape.data.len() && tape.next(max)[i]
            == tape.data[tape.pos + i],
        tape.pos + max <= tape.data.len() ==> tape.next(max).len() == max,
        tape.pos <= tape.data.len() <= tape.pos + max ==> tape.next(max).len() == tape.data.len()
            - tape.pos,
        tape.pos >= tape.data.len() ==> tape.next(max).len() == 0,
{
}

/// A seek counts from the start, from the end of the data, or from the cursor, and from
/// nowhere else.
pub proof fn law_seek_counts_from(n: u64, offset: i64, pos: int, len: int)
    ensures
        SeekFrom::Start(n).target(pos, len) == n,
        SeekFrom::End(offset).target(pos, len) - len == offset,
        SeekFrom::Current(offset).target(pos, len) - pos == offset,
{
}

} // verus!

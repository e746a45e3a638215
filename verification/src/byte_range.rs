//! Half-open ranges of byte positions, and what they select.
use vstd::prelude::*;
use crate::tape;

verus! {

/// The bytes of `data` whose positions lie in `start..end`.
pub open spec fn clip(data: Seq<u8>, start: nat, end: nat) -> Seq<u8> {
    let to = tape::min_nat(end, data.len());
    if start < to {
        data.subrange(start as int, to as int)
    } else {
        Seq::empty()
    }
}

/// A range of byte positions. An `end` of `u64::MAX` reaches to the end of the
/// data, whatever its length.
#[derive(Clone, Copy, PartialEq, Eq, Debug, Structural)]
pub struct ByteRange {
    pub start: u64,
    pub end: u64,
}

impl ByteRange {
    /// The range from `start` up to, but without, `end`.
    pub fn new(start: u64, end: u64) -> (range: ByteRange)
        ensures
            range.start == start,
            range.end == end,
    {
        ByteRange { start, end }
    }

    /// The range that selects everything.
    pub fn full() -> (range: ByteRange)
        ensures
            range.start == 0,
            range.end == u64::MAX,
    {
        ByteRange { start: 0, end: u64::MAX }
    }

    /// Whether the range selects everything.
    pub open spec fn spec_is_full(self) -> bool {
        self.start == 0 && self.end == u64::MAX
    }

    /// Whether the range selects everything.
    pub fn is_full(&self) -> (full: bool)
        ensures
            full == self.spec_is_full(),
    {
        self.start == 0 && self.end == u64::MAX
    }

    /// The number of positions in the range.
    pub open spec fn spec_len(self) -> nat {
        if self.start <= self.end {
            (self.end - self.start) as nat
        } else {
            0
        }
    }

    /// The number of positions in the range.
    pub fn len(&self) -> (len: u64)
        ensures
            len == self.spec_len(),
    {
        self.end.saturating_sub(self.start)
    }

    /// The bytes of `data` that the range selects.
    pub open spec fn select(self, data: Seq<u8>) -> Seq<u8> {
        clip(data, self.start as nat, self.end as nat)
    }
}

/// Copies the bytes of `data` in `start..end`, as far as they exist.
pub fn copy_clip(data: &[u8], start: usize, end: usize) -> (part: Vec<u8>)
    ensures
        part@ == clip(data@, start as nat, end as nat),
{
    let mut part: Vec<u8> = Vec::new();
    let to: usize = if end < data.len() {
        end
    } else {
        data.len()
    };
    let mut i: usize = start;
    while i < to
        invariant
            start <= i,
            to == tape::min_nat(end as nat, data@.len()),
            to <= data@.len(),
            i <= to || i == start,
            start < to ==> part@ == data@.subrange(start as int, i as int),
            start >= to ==> part@.len() == 0,
        decreases to - i,
    {
        part.push(data[i]);
        assert(data@.subrange(start as int, i as int).push(data@[i as int]) =~= data@.subrange(
            start as int,
            i + 1,
        ));
        i = i + 1;
    }
    part
}

/// Reading a range of a range is reading the part that both select.
pub proof fn law_clip_of_clip(data: Seq<u8>, a: nat, b: nat, c: nat, d: nat)
    ensures
        clip(clip(data, a, b), c, d) == clip(data, a + c, tape::min_nat(b, a + d)),
{
    assert(clip(clip(data, a, b), c, d) =~= clip(data, a + c, tape::min_nat(b, a + d)));
}

/// Two adjacent ranges select what their union selects.
pub proof fn law_clips_join(data: Seq<u8>, a: nat, b: nat, c: nat)
    requires
        a <= b <= c,
    ensures
        clip(data, a, b) + clip(data, b, c) == clip(data, a, c),
{
    assert(clip(data, a, b) + clip(data, b, c) =~= clip(data, a, c));
}

/// The full range selects the data itself, as long as a position can be
/// written down in 64 bits.
pub proof fn law_full_range(data: Seq<u8>)
    requires
        data.len() <= u64::MAX,
    ensures
        clip(data, 0, u64::MAX as nat) == data,
{
    assert(clip(data, 0, u64::MAX as nat) =~= data);
}

/// A range selects the bytes at its positions, in order, and no others: the byte at a
/// position of the range is found as far behind the first as the position lies behind
/// the start, and every byte that is selected has its position in the range.
pub proof fn law_range_selects_positions(range: ByteRange, data: Seq<u8>, i: int)
    requires
        0 <= i < data.len(),
    ensures
        range.start <= i < range.end ==> i - range.start < range.select(data).len()
            && range.select(data)[i - range.start] == data[i],
        0 <= i < range.select(data).len() ==> range.start + i < range.end && range.start + i
            < data.len(),
        range.select(data).len() <= data.len(),
{
}

/// A range that ends within the data selects as many bytes as it has positions, and none
/// selects more. A range that ends before it starts has no positions.
pub proof fn law_range_len(range: ByteRange, data: Seq<u8>)
    ensures
        range.start <= range.end ==> range.spec_len() == range.end - range.start,
        range.start >= range.end ==> range.spec_len() == 0,
        range.select(data).len() <= range.spec_len(),
        range.end <= data.len() ==> range.select(data).len() == range.spec_len(),
        data.len() <= range.end && range.start <= data.len() ==> range.select(data).len()
            == data.len() - range.start,
{
}

/// A range is full just if it leaves out no byte of any data whose positions can be
/// written down in 64 bits.
pub proof fn law_full_range_is_everything(range: ByteRange)
    ensures
        range.spec_is_full() <==> forall|data: Seq<u8>|
            data.len() <= u64::MAX ==> #[trigger] range.select(data) == data,
{
    if range.spec_is_full() {
        assert forall|data: Seq<u8>| data.len() <= u64::MAX implies #[trigger] range.select(data)
            == data by {
            law_full_range(data);
        }
    } else {
        let data = Seq::new(u64::MAX as nat, |i: int| 0u8);
        assert(range.select(data).len() < data.len());
    }
}

} // verus!

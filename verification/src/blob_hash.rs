//! The hash under which a blob is stored.
use vstd::prelude::*;
use crate::foreign::arrays::to_array;
use crate::foreign::digests;
use crate::foreign::digests::{blake3_finish, blake3_hash, blake3_start, blake3_update};
use crate::text;
use crate::text::to_hex_pairs;

verus! {

/// The number of bytes of a hash.
pub const BLOB_HASH_LEN: usize = 32;

/// The number of bytes that are read at a time to be hashed.
pub const HASH_CHUNK_LEN: usize = 8192;

/// The BLAKE3 digest of a blob.
#[derive(Clone, Copy, Debug, PartialEq, Eq, Hash, PartialOrd, Ord)]
pub struct BlobHash(pub [u8; 32]);

impl View for BlobHash {
    type V = Seq<u8>;

    open spec fn view(&self) -> Seq<u8> {
        self.0@
    }
}

impl Default for BlobHash {
    fn default() -> (hash: BlobHash)
        ensures
            hash@ == Seq::new(32, |i: int| 0u8),
    {
        let hash = BlobHash([0u8; 32]);
        assert(hash@ =~= Seq::new(32, |i: int| 0u8));
        hash
    }
}

/// The hash of some contents.
pub open spec fn content_hash(value: Seq<u8>) -> Seq<u8> {
    digests::blake3_digest(value)
}

/// A stream that is being hashed.
pub struct StreamHasher {
    hasher: blake3::Hasher,
}

/// What has to be done next to hash a stream.
#[derive(Debug)]
pub enum HashStep {
    /// Read at most so many bytes, and hand them over.
    Read(usize),
    /// Rewind the stream: this is the hash of what it holds.
    Rewind(BlobHash),
}

impl BlobHash {
    /// The largest hash.
    pub fn new_max() -> (hash: BlobHash)
        ensures
            hash@ == Seq::new(32, |i: int| u8::MAX),
    {
        let hash = BlobHash([255u8; 32]);
        assert(hash@ =~= Seq::new(32, |i: int| u8::MAX));
        hash
    }

    /// The hash of `value`.
    pub fn generate(value: &[u8]) -> (hash: BlobHash)
        ensures
            hash@ == content_hash(value@),
    {
        BlobHash(blake3_hash(value))
    }

    /// Begins to hash a stream, which has to be rewound.
    pub fn generate_from_stream() -> (hasher: StreamHasher)
        ensures
            hasher.taken_in() == Seq::<u8>::empty(),
    {
        StreamHasher { hasher: blake3_start() }
    }

    /// The hash that a slice holds, if it is as long as one.
    pub fn try_from_hash_slice(value: &[u8]) -> (hash: Result<
        BlobHash,
        std::array::TryFromSliceError,
    >)
        ensures
            hash is Ok <==> value@.len() == BLOB_HASH_LEN,
            hash matches Ok(hash) ==> hash@ == value@,
    {
        match to_array(value) {
            Ok(array) => Ok(BlobHash(array)),
            Err(error) => Err(error),
        }
    }

    /// The bytes of the hash.
    pub fn as_slice(&self) -> (bytes: &[u8])
        ensures
            bytes@ == self@,
    {
        vstd::array::array_as_slice(&self.0)
    }

    /// The hash in hexadecimal.
    pub fn to_hex(&self) -> (hex: String)
        ensures
            hex@ == text::hex_pairs(self@),
            hex@.len() == 2 * BLOB_HASH_LEN,
    {
        to_hex_pairs(self.as_slice())
    }

    /// Whether all bytes are zero, as in the hash that stands for none.
    pub fn is_empty(&self) -> (empty: bool)
        ensures
            empty == (self@ == Seq::new(32, |i: int| 0u8)),
    {
        let bytes = self.as_slice();
        let mut i: usize = 0;
        while i < bytes.len()
            invariant
                bytes@ == self@,
                i <= bytes@.len(),
                forall|j: int| 0 <= j < i ==> bytes@[j] == 0,
            decreases bytes@.len() - i,
        {
            if bytes[i] != 0 {
                assert(self@[i as int] != Seq::new(32, |i: int| 0u8)[i as int]);
                return false;
            }
            i = i + 1;
        }
        assert(self@ =~= Seq::new(32, |i: int| 0u8));
        true
    }

    /// The bytes of the hash, in a vector.
    pub fn into_vec(self) -> (bytes: Vec<u8>)
        ensures
            bytes@ == self@,
    {
        vstd::slice::slice_to_vec(self.as_slice())
    }
}

/// What becomes of a stream that is hashed when bytes of it were read.
pub open spec fn hasher_reads(
    before: StreamHasher,
    after: StreamHasher,
    bytes: Seq<u8>,
    step: HashStep,
) -> bool {
    &&& bytes.len() > 0 ==> {
        &&& step == HashStep::Read(HASH_CHUNK_LEN)
        &&& after.taken_in() == before.taken_in() + bytes
    }
    &&& bytes.len() == 0 ==> {
        &&& step matches HashStep::Rewind(hash)
        &&& hash@ == content_hash(before.taken_in())
        &&& after == before
    }
}

impl StreamHasher {
    /// The bytes that were read so far.
    pub closed spec fn taken_in(self) -> Seq<u8> {
        digests::blake3_absorbed(self.hasher)
    }

    /// Begins to read.
    pub fn rewound(&self) -> (step: HashStep)
        ensures
            step == HashStep::Read(HASH_CHUNK_LEN),
    {
        HashStep::Read(HASH_CHUNK_LEN)
    }

    /// Takes in what was read; where that is nothing, the stream has ended.
    pub fn chunk_read(&mut self, bytes: &[u8]) -> (step: HashStep)
        ensures
            hasher_reads(*old(self), *final(self), bytes@, step),
    {
        if bytes.len() == 0 {
            HashStep::Rewind(BlobHash(blake3_finish(&self.hasher)))
        } else {
            blake3_update(&mut self.hasher, bytes);
            HashStep::Read(HASH_CHUNK_LEN)
        }
    }
}

/// Different hashes have different hexadecimal forms.
pub proof fn law_hex_injective(a: BlobHash, b: BlobHash)
    requires
        text::hex_pairs(a@) == text::hex_pairs(b@),
    ensures
        a@ == b@,
{
    assert forall|i: int| 0 <= i < 32 implies a@[i] == b@[i] by {
        text::law_hex_pair_injective(a@, b@, i);
    }
    assert(a@ =~= b@);
}

/// Whether a stream is hashed piece by piece, up to its end.
pub open spec fn hash_run(
    states: Seq<StreamHasher>,
    pieces: Seq<Seq<u8>>,
    steps: Seq<HashStep>,
) -> bool {
    &&& states.len() == pieces.len() + 1
    &&& steps.len() == pieces.len()
    &&& states[0].taken_in().len() == 0
    &&& forall|k: int|
        0 <= k < pieces.len() ==> hasher_reads(
            states[k],
            states[k + 1],
            #[trigger] pieces[k],
            steps[k],
        )
    &&& forall|k: int| 0 <= k < pieces.len() ==> ((#[trigger] pieces[k]).len() == 0 <==> k
        == pieces.len() - 1)
}

/// The hash of a stream is that of all its bytes, in whatever pieces they were read: it is
/// the one that they have at once. More is read until a read gives nothing.
pub proof fn law_stream_is_hashed_as_a_whole(
    states: Seq<StreamHasher>,
    pieces: Seq<Seq<u8>>,
    steps: Seq<HashStep>,
)
    requires
        hash_run(states, pieces, steps),
        pieces.len() > 0,
    ensures
        steps.last() matches HashStep::Rewind(hash) && hash@ == content_hash(pieces.flatten())
            && hash@ == digests::blake3_digest(pieces.flatten()),
        forall|k: int|
            0 <= k < pieces.len() - 1 ==> (#[trigger] steps[k]) == HashStep::Read(HASH_CHUNK_LEN),
{
    let n = pieces.len() - 1;
    lemma_hash_run(states, pieces, steps, n as nat);
    assert(pieces =~= pieces.take(n).push(pieces[n]));
    pieces.take(n).lemma_flatten_push(pieces[n]);
    assert(pieces.flatten() =~= pieces.take(n).flatten());
    assert forall|k: int| 0 <= k < pieces.len() - 1 implies (#[trigger] steps[k])
        == HashStep::Read(HASH_CHUNK_LEN) by {
        assert(pieces[k].len() > 0);
    }
}

/// What was taken in is what was read.
proof fn lemma_hash_run(
    states: Seq<StreamHasher>,
    pieces: Seq<Seq<u8>>,
    steps: Seq<HashStep>,
    n: nat,
)
    requires
        hash_run(states, pieces, steps),
        n < pieces.len(),
    ensures
        states[n as int].taken_in() == pieces.take(n as int).flatten(),
    decreases n,
{
    if n == 0 {
        assert(pieces.take(0) =~= Seq::<Seq<u8>>::empty());
        assert(states[0].taken_in() =~= Seq::<u8>::empty());
    } else {
        let k = n - 1;
        lemma_hash_run(states, pieces, steps, k as nat);
        assert(pieces[k].len() > 0);
        assert(pieces.take(n as int) =~= pieces.take(k).push(pieces[k]));
        pieces.take(k).lemma_flatten_push(pieces[k]);
    }
}

/// The hash of some contents is their BLAKE3 digest, whatever they are.
pub proof fn law_hash_is_the_digest(value: Seq<u8>)
    ensures
        content_hash(value) == digests::blake3_digest(value),
{
}

} // verus!

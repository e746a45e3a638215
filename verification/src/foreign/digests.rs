//! Cryptographic digests: BLAKE3, SHA-1 and SHA-2.
use vstd::prelude::*;
use sha1::Digest;

verus! {

/// The BLAKE3 digest of `data`.
pub uninterp spec fn blake3_digest(data: Seq<u8>) -> Seq<u8>;

/// `blake3::hash`: the 32-byte BLAKE3 digest of its argument.
#[verifier::external_body]
pub(crate) fn blake3_hash(data: &[u8]) -> (digest: [u8; 32])
    ensures
        digest@ == blake3_digest(data@),
{
    blake3::hash(data).into()
}

/// `blake3::Hasher`, the incremental form of the same digest.
#[verifier::external_type_specification]
#[verifier::external_body]
pub struct ExBlake3Hasher(blake3::Hasher);

/// The bytes that a hasher has taken in, in order.
pub uninterp spec fn blake3_absorbed(hasher: blake3::Hasher) -> Seq<u8>;

/// `blake3::Hasher::new`: a hasher that has taken in nothing.
#[verifier::external_body]
pub(crate) fn blake3_start() -> (hasher: blake3::Hasher)
    ensures
        blake3_absorbed(hasher) == Seq::<u8>::empty(),
{
    blake3::Hasher::new()
}

/// `blake3::Hasher::update`: takes in further bytes.
#[verifier::external_body]
pub(crate) fn blake3_update(hasher: &mut blake3::Hasher, data: &[u8])
    ensures
        blake3_absorbed(*final(hasher)) == blake3_absorbed(*old(hasher)) + data@,
{
    hasher.update(data);
}

/// `blake3::Hasher::finalize`: the digest of everything taken in so far.
#[verifier::external_body]
pub(crate) fn blake3_finish(hasher: &blake3::Hasher) -> (digest: [u8; 32])
    ensures
        digest@ == blake3_digest(blake3_absorbed(*hasher)),
{
    hasher.finalize().into()
}

/// The SHA-1 digest of `data`.
pub uninterp spec fn sha1_digest(data: Seq<u8>) -> Seq<u8>;

/// `sha1::Sha1`, the incremental form of the same digest.
#[verifier::external_body]
pub struct Sha1State {
    inner: sha1::Sha1,
}

/// The bytes that a hasher has taken in, in order.
pub uninterp spec fn sha1_absorbed(state: Sha1State) -> Seq<u8>;

/// `sha1::Sha1::new`: a hasher that has taken in nothing.
#[verifier::external_body]
pub(crate) fn sha1_start() -> (state: Sha1State)
    ensures
        sha1_absorbed(state) == Seq::<u8>::empty(),
{
    Sha1State { inner: sha1::Sha1::new() }
}

/// `sha1::Sha1::update`: takes in further bytes.
#[verifier::external_body]
pub(crate) fn sha1_update(state: &mut Sha1State, data: &[u8])
    ensures
        sha1_absorbed(*final(state)) == sha1_absorbed(*old(state)) + data@,
{
    state.inner.update(data);
}

/// `sha1::Sha1::finalize` of a copy: the 20 bytes of the digest of everything taken in so
/// far.
#[verifier::external_body]
pub(crate) fn sha1_finish(state: &Sha1State) -> (digest: Vec<u8>)
    ensures
        digest@ == sha1_digest(sha1_absorbed(*state)),
        digest@.len() == 20,
{
    state.inner.clone().finalize().to_vec()
}

/// The SHA-256 digest of `data`.
pub uninterp spec fn sha256_digest(data: Seq<u8>) -> Seq<u8>;

/// `sha2::Sha256`, the incremental form of the same digest.
#[verifier::external_body]
pub struct Sha256State {
    inner: sha2::Sha256,
}

/// The bytes that a hasher has taken in, in order.
pub uninterp spec fn sha256_absorbed(state: Sha256State) -> Seq<u8>;

/// `sha2::Sha256::new`: a hasher that has taken in nothing.
#[verifier::external_body]
pub(crate) fn sha256_start() -> (state: Sha256State)
    ensures
        sha256_absorbed(state) == Seq::<u8>::empty(),
{
    Sha256State { inner: sha2::Sha256::new() }
}

/// `sha2::Sha256::update`: takes in further bytes.
#[verifier::external_body]
pub(crate) fn sha256_update(state: &mut Sha256State, data: &[u8])
    ensures
        sha256_absorbed(*final(state)) == sha256_absorbed(*old(state)) + data@,
{
    state.inner.update(data);
}

/// `sha2::Sha256::finalize` of a copy: the 32 bytes of the digest of everything taken in so
/// far.
#[verifier::external_body]
pub(crate) fn sha256_finish(state: &Sha256State) -> (digest: Vec<u8>)
    ensures
        digest@ == sha256_digest(sha256_absorbed(*state)),
        digest@.len() == 32,
{
    state.inner.clone().finalize().to_vec()
}

/// The SHA-512 digest of `data`.
pub uninterp spec fn sha512_digest(data: Seq<u8>) -> Seq<u8>;

/// `sha2::Sha512`, the incremental form of the same digest.
#[verifier::external_body]
pub struct Sha512State {
    inner: sha2::Sha512,
}

/// The bytes that a hasher has taken in, in order.
pub uninterp spec fn sha512_absorbed(state: Sha512State) -> Seq<u8>;

/// `sha2::Sha512::new`: a hasher that has taken in nothing.
#[verifier::external_body]
pub(crate) fn sha512_start() -> (state: Sha512State)
    ensures
        sha512_absorbed(state) == Seq::<u8>::empty(),
{
    Sha512State { inner: sha2::Sha512::new() }
}

/// `sha2::Sha512::update`: takes in further bytes.
#[verifier::external_body]
pub(crate) fn sha512_update(state: &mut Sha512State, data: &[u8])
    ensures
        sha512_absorbed(*final(state)) == sha512_absorbed(*old(state)) + data@,
{
    state.inner.update(data);
}

/// `sha2::Sha512::finalize` of a copy: the 64 bytes of the digest of everything taken in so
/// far.
#[verifier::external_body]
pub(crate) fn sha512_finish(state: &Sha512State) -> (digest: Vec<u8>)
    ensures
        digest@ == sha512_digest(sha512_absorbed(*state)),
        digest@.len() == 64,
{
    state.inner.clone().finalize().to_vec()
}

} // verus!

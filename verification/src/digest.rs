//! The digest engine: one-shot and streaming digests for every algorithm.
//!
//! The five hash functions come from their own crates; the engine holds
//! each hasher behind a state type whose specification tracks exactly the
//! bytes absorbed so far.  A digest is named, not spelled out: for each
//! algorithm an uninterpreted function maps the absorbed byte string to
//! the digest bytes, so the contracts can say that buffered and chunked
//! feeding of the same bytes yield the same output.

use vstd::prelude::*;
use crate::algo::Algorithm;
use crate::hexfmt::{hex_chars_of, lemma_hex_chars_len, bytes_to_hex};
use md5::Digest;

verus! {

#[verifier::external_type_specification]
#[verifier::external_body]
pub struct ExMd5(md5::Md5);

#[verifier::external_type_specification]
#[verifier::external_body]
pub struct ExSha1(sha1::Sha1);

#[verifier::external_type_specification]
#[verifier::external_body]
pub struct ExSha256(sha2::Sha256);

#[verifier::external_type_specification]
#[verifier::external_body]
pub struct ExSha512(sha2::Sha512);

#[verifier::external_type_specification]
#[verifier::external_body]
pub struct ExBlake3(blake3::Hasher);

/// The bytes an MD5 hasher has absorbed so far.
pub uninterp spec fn md5_fed(h: md5::Md5) -> Seq<u8>;

/// The MD5 digest of a byte string.
pub uninterp spec fn md5_digest_of(input: Seq<u8>) -> Seq<u8>;

/// The bytes a SHA-1 hasher has absorbed so far.
pub uninterp spec fn sha1_fed(h: sha1::Sha1) -> Seq<u8>;

/// The SHA-1 digest of a byte string.
pub uninterp spec fn sha1_digest_of(input: Seq<u8>) -> Seq<u8>;

/// The bytes a SHA-256 hasher has absorbed so far.
pub uninterp spec fn sha256_fed(h: sha2::Sha256) -> Seq<u8>;

/// The SHA-256 digest of a byte string.
pub uninterp spec fn sha256_digest_of(input: Seq<u8>) -> Seq<u8>;

/// The bytes a SHA-512 hasher has absorbed so far.
pub uninterp spec fn sha512_fed(h: sha2::Sha512) -> Seq<u8>;

/// The SHA-512 digest of a byte string.
pub uninterp spec fn sha512_digest_of(input: Seq<u8>) -> Seq<u8>;

/// The bytes a BLAKE3 hasher has absorbed so far.
pub uninterp spec fn blake3_fed(h: blake3::Hasher) -> Seq<u8>;

/// The BLAKE3 digest of a byte string.
pub uninterp spec fn blake3_digest_of(input: Seq<u8>) -> Seq<u8>;

/// Relies on md5::Md5::new (digest's Digest trait): a fresh hasher has
/// absorbed nothing.
#[verifier::external_body]
fn md5_init() -> (h: md5::Md5)
    ensures
        md5_fed(h) == Seq::<u8>::empty(),
{
    md5::Md5::new()
}

/// Relies on md5::Md5::update: appends the chunk to the absorbed bytes.
#[verifier::external_body]
fn md5_absorb(h: &mut md5::Md5, chunk: &[u8])
    ensures
        md5_fed(*final(h)) == md5_fed(*old(h)) + chunk@,
{
    h.update(chunk);
}

/// Relies on md5::Md5::finalize: the 16-byte MD5 digest of exactly the
/// absorbed bytes.
#[verifier::external_body]
fn md5_emit(h: md5::Md5) -> (r: Vec<u8>)
    ensures
        r@ == md5_digest_of(md5_fed(h)),
        r@.len() == 16,
{
    h.finalize().as_slice().to_vec()
}

/// Relies on sha1::Sha1::new (digest's Digest trait): a fresh hasher has
/// absorbed nothing.
#[verifier::external_body]
fn sha1_init() -> (h: sha1::Sha1)
    ensures
        sha1_fed(h) == Seq::<u8>::empty(),
{
    sha1::Sha1::new()
}

/// Relies on sha1::Sha1::update: appends the chunk to the absorbed bytes.
#[verifier::external_body]
fn sha1_absorb(h: &mut sha1::Sha1, chunk: &[u8])
    ensures
        sha1_fed(*final(h)) == sha1_fed(*old(h)) + chunk@,
{
    h.update(chunk);
}

/// Relies on sha1::Sha1::finalize: the 20-byte SHA-1 digest of exactly
/// the absorbed bytes.
#[verifier::external_body]
fn sha1_emit(h: sha1::Sha1) -> (r: Vec<u8>)
    ensures
        r@ == sha1_digest_of(sha1_fed(h)),
        r@.len() == 20,
{
    h.finalize().as_slice().to_vec()
}

/// Relies on sha2::Sha256::new (digest's Digest trait): a fresh hasher
/// has absorbed nothing.
#[verifier::external_body]
fn sha256_init() -> (h: sha2::Sha256)
    ensures
        sha256_fed(h) == Seq::<u8>::empty(),
{
    sha2::Sha256::new()
}

/// Relies on sha2::Sha256::update: appends the chunk to the absorbed
/// bytes.
#[verifier::external_body]
fn sha256_absorb(h: &mut sha2::Sha256, chunk: &[u8])
    ensures
        sha256_fed(*final(h)) == sha256_fed(*old(h)) + chunk@,
{
    h.update(chunk);
}

/// Relies on sha2::Sha256::finalize: the 32-byte SHA-256 digest of
/// exactly the absorbed bytes.
#[verifier::external_body]
fn sha256_emit(h: sha2::Sha256) -> (r: Vec<u8>)
    ensures
        r@ == sha256_digest_of(sha256_fed(h)),
        r@.len() == 32,
{
    h.finalize().as_slice().to_vec()
}

/// Relies on sha2::Sha512::new (digest's Digest trait): a fresh hasher
/// has absorbed nothing.
#[verifier::external_body]
fn sha512_init() -> (h: sha2::Sha512)
    ensures
        sha512_fed(h) == Seq::<u8>::empty(),
{
    sha2::Sha512::new()
}

/// Relies on sha2::Sha512::update: appends the chunk to the absorbed
/// bytes.
#[verifier::external_body]
fn sha512_absorb(h: &mut sha2::Sha512, chunk: &[u8])
    ensures
        sha512_fed(*final(h)) == sha512_fed(*old(h)) + chunk@,
{
    h.update(chunk);
}

/// Relies on sha2::Sha512::finalize: the 64-byte SHA-512 digest of
/// exactly the absorbed bytes.
#[verifier::external_body]
fn sha512_emit(h: sha2::Sha512) -> (r: Vec<u8>)
    ensures
        r@ == sha512_digest_of(sha512_fed(h)),
        r@.len() == 64,
{
    h.finalize().as_slice().to_vec()
}

/// Relies on blake3::Hasher::new: a fresh hasher has absorbed nothing.
#[verifier::external_body]
fn blake3_init() -> (h: blake3::Hasher)
    ensures
        blake3_fed(h) == Seq::<u8>::empty(),
{
    blake3::Hasher::new()
}

/// Relies on blake3::Hasher::update: appends the chunk to the absorbed
/// bytes.
#[verifier::external_body]
fn blake3_absorb(h: &mut blake3::Hasher, chunk: &[u8])
    ensures
        blake3_fed(*final(h)) == blake3_fed(*old(h)) + chunk@,
{
    h.update(chunk);
}

/// Relies on blake3::Hasher::finalize and blake3::Hash::as_bytes: the
/// 32-byte BLAKE3 digest of exactly the absorbed bytes.
#[verifier::external_body]
fn blake3_emit(h: blake3::Hasher) -> (r: Vec<u8>)
    ensures
        r@ == blake3_digest_of(blake3_fed(h)),
        r@.len() == 32,
{
    h.finalize().as_bytes().to_vec()
}

/// The digest bytes of `input` under `algo`.
pub open spec fn spec_digest(algo: Algorithm, input: Seq<u8>) -> Seq<u8> {
    match algo {
        Algorithm::Md5 => md5_digest_of(input),
        Algorithm::Sha1 => sha1_digest_of(input),
        Algorithm::Sha256 => sha256_digest_of(input),
        Algorithm::Sha512 => sha512_digest_of(input),
        Algorithm::Blake3 => blake3_digest_of(input),
    }
}

/// The lowercase hex rendering of the digest of `input` under `algo`.
pub open spec fn spec_digest_hex(algo: Algorithm, input: Seq<u8>) -> Seq<char> {
    hex_chars_of(spec_digest(algo, input))
}

enum HasherState {
    Md5(md5::Md5),
    Sha1(sha1::Sha1),
    Sha256(sha2::Sha256),
    Sha512(sha2::Sha512),
    Blake3(blake3::Hasher),
}

/// A streaming digest computation.
///
/// Feed bytes in any number of chunks; the specification records exactly
/// the concatenation of everything fed, and finishing yields the digest
/// of that byte string, so chunk boundaries cannot change the result.
pub struct StreamHasher {
    inner: HasherState,
}

impl StreamHasher {
    /// The algorithm this stream computes.
    pub closed spec fn algorithm(self) -> Algorithm {
        match self.inner {
            HasherState::Md5(_) => Algorithm::Md5,
            HasherState::Sha1(_) => Algorithm::Sha1,
            HasherState::Sha256(_) => Algorithm::Sha256,
            HasherState::Sha512(_) => Algorithm::Sha512,
            HasherState::Blake3(_) => Algorithm::Blake3,
        }
    }

    /// The bytes fed so far.
    pub closed spec fn fed(self) -> Seq<u8> {
        match self.inner {
            HasherState::Md5(h) => md5_fed(h),
            HasherState::Sha1(h) => sha1_fed(h),
            HasherState::Sha256(h) => sha256_fed(h),
            HasherState::Sha512(h) => sha512_fed(h),
            HasherState::Blake3(h) => blake3_fed(h),
        }
    }

    pub fn new(algo: &Algorithm) -> (s: Self)
        ensures
            s.algorithm() == *algo,
            s.fed() == Seq::<u8>::empty(),
    {
        let inner = match algo {
            Algorithm::Md5 => HasherState::Md5(md5_init()),
            Algorithm::Sha1 => HasherState::Sha1(sha1_init()),
            Algorithm::Sha256 => HasherState::Sha256(sha256_init()),
            Algorithm::Sha512 => HasherState::Sha512(sha512_init()),
            Algorithm::Blake3 => HasherState::Blake3(blake3_init()),
        };
        StreamHasher { inner }
    }

    pub fn update(&mut self, chunk: &[u8])
        ensures
            final(self).algorithm() == old(self).algorithm(),
            final(self).fed() == old(self).fed() + chunk@,
    {
        match &mut self.inner {
            HasherState::Md5(h) => md5_absorb(h, chunk),
            HasherState::Sha1(h) => sha1_absorb(h, chunk),
            HasherState::Sha256(h) => sha256_absorb(h, chunk),
            HasherState::Sha512(h) => sha512_absorb(h, chunk),
            HasherState::Blake3(h) => blake3_absorb(h, chunk),
        }
    }

    /// Finish the stream: the lowercase hex digest of everything fed.
    pub fn finalize(self) -> (r: String)
        ensures
            r@ == spec_digest_hex(self.algorithm(), self.fed()),
            r@.len() == self.algorithm().spec_hex_len(),
    {
        let digest: Vec<u8> = match self.inner {
            HasherState::Md5(h) => md5_emit(h),
            HasherState::Sha1(h) => sha1_emit(h),
            HasherState::Sha256(h) => sha256_emit(h),
            HasherState::Sha512(h) => sha512_emit(h),
            HasherState::Blake3(h) => blake3_emit(h),
        };
        proof {
            lemma_hex_chars_len(digest@);
        }
        bytes_to_hex(digest.as_slice())
    }
}

/// One-shot digest of an in-memory byte buffer.
pub fn digest_bytes(data: &[u8], algo: &Algorithm) -> (r: String)
    ensures
        r@ == spec_digest_hex(*algo, data@),
        r@.len() == algo.spec_hex_len(),
{
    let mut h = StreamHasher::new(algo);
    h.update(data);
    proof {
        assert(Seq::<u8>::empty() + data@ =~= data@);
    }
    h.finalize()
}

/// The concatenation of a sequence of chunks.
pub open spec fn concat_chunks(cs: Seq<Seq<u8>>) -> Seq<u8>
    decreases cs.len(),
{
    if cs.len() == 0 {
        Seq::empty()
    } else {
        concat_chunks(cs.drop_last()) + cs.last()
    }
}

/// Digest of a byte string presented as a sequence of chunks.
pub fn digest_chunks(chunks: &Vec<Vec<u8>>, algo: &Algorithm) -> (r: String)
    ensures
        r@ == spec_digest_hex(*algo, concat_chunks(chunks.deep_view())),
        r@.len() == algo.spec_hex_len(),
{
    let ghost cs: Seq<Seq<u8>> = chunks.deep_view();
    let mut h = StreamHasher::new(algo);
    let mut i: usize = 0;
    proof {
        assert(cs.subrange(0, 0) =~= Seq::<Seq<u8>>::empty());
    }
    while i < chunks.len()
        invariant
            i <= chunks.len(),
            cs == chunks.deep_view(),
            cs.len() == chunks.len(),
            h.algorithm() == *algo,
            h.fed() == concat_chunks(cs.subrange(0, i as int)),
        decreases chunks.len() - i,
    {
        h.update(chunks[i].as_slice());
        proof {
            let pre = cs.subrange(0, i as int);
            let post = cs.subrange(0, i + 1);
            assert(post.drop_last() =~= pre);
            assert(post.last() == cs[i as int]);
            assert(cs[i as int] == chunks@[i as int]@);
        }
        i += 1;
    }
    proof {
        assert(cs.subrange(0, cs.len() as int) =~= cs);
    }
    h.finalize()
}

/// Law: the digest is a function of the byte string alone, so feeding the
/// same bytes as one buffer or as any sequence of chunks yields the same
/// hex output.
pub proof fn lemma_chunked_eq_buffered(algo: Algorithm, chunks: Seq<Seq<u8>>, b: Seq<u8>)
    requires
        concat_chunks(chunks) == b,
    ensures
        spec_digest_hex(algo, concat_chunks(chunks)) == spec_digest_hex(algo, b),
{
}

/// Law: hashing is deterministic; equal inputs yield equal hex output.
pub proof fn lemma_digest_deterministic(algo: Algorithm, b1: Seq<u8>, b2: Seq<u8>)
    requires
        b1 == b2,
    ensures
        spec_digest_hex(algo, b1) == spec_digest_hex(algo, b2),
{
}

} // verus!

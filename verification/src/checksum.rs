//! Streaming checksums (BLAKE3, SHA-256, XXH3) and their comparison.

use vstd::prelude::*;
use crate::text::{eq_ignore_ascii_case, eq_ignore_ascii_case_exec};
use crate::types::ChecksumAlgorithm;

verus! {

// ---------------------------------------------------------------------------
// The hashing engines
// ---------------------------------------------------------------------------

#[verifier::external_type_specification]
#[verifier::external_body]
pub struct ExBlake3Hasher(blake3::Hasher);

/// A SHA-256 hasher of `sha2`. Its type is an alias of nested generic
/// wrappers, so it is held here as an opaque field.
#[verifier::external_body]
pub struct Sha256State {
    inner: sha2::Sha256,
}

#[verifier::external_type_specification]
#[verifier::external_body]
pub struct ExXxh3(xxhash_rust::xxh3::Xxh3);

/// The bytes a BLAKE3 hasher has absorbed so far.
pub uninterp spec fn blake3_input(h: blake3::Hasher) -> Seq<u8>;

/// The bytes a SHA-256 hasher has absorbed so far.
pub uninterp spec fn sha256_input(h: Sha256State) -> Seq<u8>;

/// The bytes an XXH3 hasher has absorbed so far.
pub uninterp spec fn xxh3_input(h: xxhash_rust::xxh3::Xxh3) -> Seq<u8>;

/// The 32-byte BLAKE3 hash of `data`.
pub uninterp spec fn blake3_digest(data: Seq<u8>) -> Seq<u8>;

/// The 32-byte SHA-256 digest of `data`.
pub uninterp spec fn sha256_digest(data: Seq<u8>) -> Seq<u8>;

/// The 64-bit XXH3 hash (default secret, seed 0) of `data`.
pub uninterp spec fn xxh3_hash(data: Seq<u8>) -> u64;

/// `blake3::Hasher::new`: a hasher that has absorbed nothing.
#[verifier::external_body]
fn blake3_new() -> (h: blake3::Hasher)
    ensures
        blake3_input(h) == Seq::<u8>::empty(),
{
    blake3::Hasher::new()
}

/// `blake3::Hasher::update`: absorbs `data` after what came before.
#[verifier::external_body]
fn blake3_update(h: &mut blake3::Hasher, data: &[u8])
    ensures
        blake3_input(*final(h)) == blake3_input(*old(h)) + data@,
{
    h.update(data);
}

/// `blake3::Hasher::finalize`: the hash of everything absorbed (32 bytes);
/// the hasher itself is left as it was.
#[verifier::external_body]
fn blake3_finalize(h: &blake3::Hasher) -> (r: Vec<u8>)
    ensures
        r@ == blake3_digest(blake3_input(*h)),
        r@.len() == 32,
{
    h.finalize().as_bytes().to_vec()
}

/// `Sha256::new` (from `sha2`): a hasher that has absorbed nothing.
#[verifier::external_body]
fn sha256_new() -> (h: Sha256State)
    ensures
        sha256_input(h) == Seq::<u8>::empty(),
{
    Sha256State { inner: <sha2::Sha256 as sha2::Digest>::new() }
}

/// `Digest::update` on SHA-256: absorbs `data` after what came before.
#[verifier::external_body]
fn sha256_update(h: &mut Sha256State, data: &[u8])
    ensures
        sha256_input(*final(h)) == sha256_input(*old(h)) + data@,
{
    sha2::Digest::update(&mut h.inner, data);
}

/// `Digest::finalize` on SHA-256 (consumes the hasher): the 32-byte digest
/// of everything absorbed.
#[verifier::external_body]
fn sha256_finalize(h: Sha256State) -> (r: Vec<u8>)
    ensures
        r@ == sha256_digest(sha256_input(h)),
        r@.len() == 32,
{
    sha2::Digest::finalize(h.inner).to_vec()
}

/// `Xxh3::new`: a hasher that has absorbed nothing.
#[verifier::external_body]
fn xxh3_new() -> (h: xxhash_rust::xxh3::Xxh3)
    ensures
        xxh3_input(h) == Seq::<u8>::empty(),
{
    xxhash_rust::xxh3::Xxh3::new()
}

/// `Xxh3::update`: absorbs `data` after what came before.
#[verifier::external_body]
fn xxh3_update(h: &mut xxhash_rust::xxh3::Xxh3, data: &[u8])
    ensures
        xxh3_input(*final(h)) == xxh3_input(*old(h)) + data@,
{
    h.update(data);
}

/// `Xxh3::digest`: the 64-bit hash of everything absorbed; the hasher is
/// left as it was.
#[verifier::external_body]
fn xxh3_digest(h: &xxhash_rust::xxh3::Xxh3) -> (r: u64)
    ensures
        r == xxh3_hash(xxh3_input(*h)),
{
    h.digest()
}

// ---------------------------------------------------------------------------
// Hex
// ---------------------------------------------------------------------------

pub open spec fn hex_digit(n: u8) -> char {
    if n < 10 {
        ('0' as u8 + n) as char
    } else {
        ('a' as u8 + (n - 10)) as char
    }
}

/// Lower-case hex text of `bytes`, two digits per byte, high nibble first.
pub open spec fn hex_lower(bytes: Seq<u8>) -> Seq<char>
    decreases bytes.len(),
{
    if bytes.len() == 0 {
        Seq::empty()
    } else {
        hex_lower(bytes.drop_last()) + seq![
            hex_digit(bytes.last() / 16),
            hex_digit(bytes.last() % 16),
        ]
    }
}

/// `hex::encode`: lower-case hex, two digits per byte.
#[verifier::external_body]
fn hex_encode(data: &[u8]) -> (r: String)
    ensures
        r@ == hex_lower(data@),
{
    hex::encode(data)
}

// ---------------------------------------------------------------------------
// Streaming hasher
// ---------------------------------------------------------------------------

/// The byte encoding of a 64-bit value, least significant byte first.
pub open spec fn le_bytes(v: u64) -> Seq<u8> {
    Seq::new(8, |i: int| ((v as nat / pow256(i)) % 256) as u8)
}

pub open spec fn pow256(i: int) -> nat
    decreases i,
{
    if i <= 0 {
        1
    } else {
        256 * pow256(i - 1)
    }
}

fn le_bytes_exec(v: u64) -> (r: Vec<u8>)
    ensures
        r@ == le_bytes(v),
{
    let mut r: Vec<u8> = Vec::new();
    let mut x = v;
    let mut i: usize = 0;
    assert(pow256(0) == 1);
    while i < 8
        invariant
            i <= 8,
            r@.len() == i,
            x as nat == v as nat / pow256(i as int),
            forall|k: int| 0 <= k < i ==> r@[k] == ((v as nat / pow256(k)) % 256) as u8,
        decreases 8 - i,
    {
        r.push((x % 256) as u8);
        proof {
            assert(pow256(i + 1) == 256 * pow256(i as int));
            assert(pow256(i as int) > 0) by {
                lemma_pow256_pos(i as int);
            }
            vstd::arithmetic::div_mod::lemma_div_denominator(v as int, pow256(i as int) as int, 256);
        }
        x = x / 256;
        i = i + 1;
    }
    assert(r@ =~= le_bytes(v));
    r
}

proof fn lemma_pow256_pos(i: int)
    ensures
        pow256(i) > 0,
    decreases i,
{
    if i > 0 {
        lemma_pow256_pos(i - 1);
    }
}

/// The hashing engine behind a [`StreamingHasher`].
pub enum HashEngine {
    Blake3(blake3::Hasher),
    Sha256(Sha256State),
    Xxh3(xxhash_rust::xxh3::Xxh3),
}

/// The digest bytes of `algorithm` over `data` (XXH3 as 8 little-endian
/// bytes).
pub open spec fn digest_of(algorithm: ChecksumAlgorithm, data: Seq<u8>) -> Seq<u8> {
    match algorithm {
        ChecksumAlgorithm::Blake3 => blake3_digest(data),
        ChecksumAlgorithm::Sha256 => sha256_digest(data),
        ChecksumAlgorithm::Xxh3 => le_bytes(xxh3_hash(data)),
    }
}

/// Hashes data fed in chunks, counting the bytes.
pub struct StreamingHasher {
    algorithm: ChecksumAlgorithm,
    engine: HashEngine,
    bytes_processed: u64,
}

impl StreamingHasher {
    /// The algorithm in use.
    pub closed spec fn algorithm_spec(&self) -> ChecksumAlgorithm {
        self.algorithm
    }

    /// The bytes the engine will digest: everything fed since creation (for
    /// SHA-256, since the last finalize).
    pub closed spec fn pending(&self) -> Seq<u8> {
        match self.engine {
            HashEngine::Blake3(h) => blake3_input(h),
            HashEngine::Sha256(h) => sha256_input(h),
            HashEngine::Xxh3(h) => xxh3_input(h),
        }
    }

    pub closed spec fn processed_spec(&self) -> u64 {
        self.bytes_processed
    }

    /// The engine matches the algorithm.
    pub closed spec fn wf(&self) -> bool {
        match self.engine {
            HashEngine::Blake3(_) => self.algorithm == ChecksumAlgorithm::Blake3,
            HashEngine::Sha256(_) => self.algorithm == ChecksumAlgorithm::Sha256,
            HashEngine::Xxh3(_) => self.algorithm == ChecksumAlgorithm::Xxh3,
        }
    }

    /// A hasher for `algorithm` that has seen nothing.
    pub fn new(algorithm: ChecksumAlgorithm) -> (h: Self)
        ensures
            h.wf(),
            h.algorithm_spec() == algorithm,
            h.pending() == Seq::<u8>::empty(),
            h.processed_spec() == 0,
    {
        let engine = match algorithm {
            ChecksumAlgorithm::Blake3 => HashEngine::Blake3(blake3_new()),
            ChecksumAlgorithm::Sha256 => HashEngine::Sha256(sha256_new()),
            ChecksumAlgorithm::Xxh3 => HashEngine::Xxh3(xxh3_new()),
        };
        StreamingHasher { algorithm, engine, bytes_processed: 0 }
    }

    pub fn algorithm(&self) -> (r: ChecksumAlgorithm)
        ensures
            r == self.algorithm_spec(),
    {
        self.algorithm
    }

    /// Bytes fed so far.
    pub fn bytes_processed(&self) -> (r: u64)
        ensures
            r == self.processed_spec(),
    {
        self.bytes_processed
    }

    /// Feeds a chunk.
    pub fn update(&mut self, data: &[u8])
        requires
            old(self).wf(),
            old(self).processed_spec() + data@.len() <= u64::MAX,
        ensures
            final(self).wf(),
            final(self).algorithm_spec() == old(self).algorithm_spec(),
            final(self).pending() == old(self).pending() + data@,
            final(self).processed_spec() == old(self).processed_spec() + data@.len(),
    {
        match &mut self.engine {
            HashEngine::Blake3(h) => blake3_update(h, data),
            HashEngine::Sha256(h) => sha256_update(h, data),
            HashEngine::Xxh3(h) => xxh3_update(h, data),
        }
        self.bytes_processed = self.bytes_processed + data.len() as u64;
    }

    /// The digest of the pending bytes. SHA-256 starts over afterwards
    /// (nothing pending); BLAKE3 and XXH3 keep their input.
    pub fn finalize(&mut self) -> (r: Vec<u8>)
        requires
            old(self).wf(),
        ensures
            final(self).wf(),
            r@ == digest_of(old(self).algorithm_spec(), old(self).pending()),
            final(self).algorithm_spec() == old(self).algorithm_spec(),
            final(self).processed_spec() == old(self).processed_spec(),
            final(self).pending() == (if old(self).algorithm_spec() == ChecksumAlgorithm::Sha256 {
                Seq::<u8>::empty()
            } else {
                old(self).pending()
            }),
    {
        match &mut self.engine {
            HashEngine::Blake3(h) => blake3_finalize(h),
            HashEngine::Sha256(h) => {
                let mut done = sha256_new();
                std::mem::swap(h, &mut done);
                sha256_finalize(done)
            },
            HashEngine::Xxh3(h) => {
                let v = xxh3_digest(h);
                le_bytes_exec(v)
            },
        }
    }

    /// The digest of the pending bytes as lower-case hex.
    pub fn finalize_hex(&mut self) -> (r: String)
        requires
            old(self).wf(),
        ensures
            final(self).wf(),
            r@ == hex_lower(digest_of(old(self).algorithm_spec(), old(self).pending())),
            final(self).algorithm_spec() == old(self).algorithm_spec(),
            final(self).processed_spec() == old(self).processed_spec(),
            final(self).pending() == (if old(self).algorithm_spec() == ChecksumAlgorithm::Sha256 {
                Seq::<u8>::empty()
            } else {
                old(self).pending()
            }),
    {
        let digest = self.finalize();
        hex_encode(digest.as_slice())
    }
}

/// Whether a computed checksum matches the expected one (hex compared
/// ignoring ASCII case).
pub fn checksum_matches(actual: &str, expected: &str) -> (r: bool)
    ensures
        r == eq_ignore_ascii_case(actual@, expected@),
{
    eq_ignore_ascii_case_exec(actual, expected)
}

/// Outcome of an integrity verification: without an expected checksum the
/// archive passes once hashed; otherwise the checksums must match.
pub fn integrity_verdict(actual: &str, expected: Option<&str>) -> (r: bool)
    ensures
        r == match expected {
            Some(e) => eq_ignore_ascii_case(actual@, e@),
            None => true,
        },
{
    match expected {
        Some(e) => checksum_matches(actual, e),
        None => true,
    }
}

} // verus!

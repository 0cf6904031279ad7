//! SHA-256 digests.
use crate::text;
use sha2::Digest;
use vstd::prelude::*;

verus! {

/// The SHA-256 digest of `bytes`.
pub uninterp spec fn sha256(bytes: Seq<u8>) -> Seq<u8>;

/// `sha2::Sha256::digest`: the SHA-256 digest of the bytes, which has 32 bytes.
#[verifier::external_body]
fn digest_of(bytes: &[u8]) -> (r: Vec<u8>)
    ensures
        r@ == sha256(bytes@),
        r@.len() == 32,
{
    sha2::Sha256::digest(bytes).to_vec()
}

/// The SHA-256 digest of `bytes` in hexadecimal.
pub fn sha256_hex(bytes: &[u8]) -> (r: String)
    ensures
        r@ == text::hex_text(sha256(bytes@)),
        r@.len() == 64,
{
    let digest = digest_of(bytes);
    proof {
        text::lemma_hex_text_len(digest@);
    }
    text::bytes_to_hex(digest.as_slice())
}

/// `sha2::Sha256` at work: it takes bytes piece by piece.
#[verifier::external_body]
pub struct Hasher {
    inner: sha2::Sha256,
}

/// The bytes that a hasher has taken so far.
pub uninterp spec fn absorbed(hasher: Hasher) -> Seq<u8>;

/// `sha2::Sha256::new`: a hasher that has taken nothing.
#[verifier::external_body]
fn fresh_hasher() -> (r: Hasher)
    ensures
        absorbed(r) == Seq::<u8>::empty(),
{
    Hasher { inner: sha2::Sha256::new() }
}

/// `sha2::Sha256::update`: the piece follows on what was taken before.
#[verifier::external_body]
fn absorb(hasher: &mut Hasher, piece: &[u8])
    ensures
        absorbed(*final(hasher)) == absorbed(*old(hasher)) + piece@,
{
    hasher.inner.update(piece)
}

/// `sha2::Sha256::finalize`: the SHA-256 digest of all that was taken, which has 32 bytes.
#[verifier::external_body]
fn digest_of_absorbed(hasher: Hasher) -> (r: Vec<u8>)
    ensures
        r@ == sha256(absorbed(hasher)),
        r@.len() == 32,
{
    hasher.inner.finalize().to_vec()
}

/// The hash of contents that come piece by piece, such as those of a file of any length.
pub struct ContentHash {
    hasher: Hasher,
}

impl View for ContentHash {
    type V = Seq<u8>;

    /// The contents so far.
    closed spec fn view(&self) -> Seq<u8> {
        absorbed(self.hasher)
    }
}

impl ContentHash {
    /// No contents yet.
    pub fn new() -> (r: Self)
        ensures
            r@ == Seq::<u8>::empty(),
    {
        ContentHash { hasher: fresh_hasher() }
    }

    /// The contents go on.
    pub fn update(&mut self, piece: &[u8])
        ensures
            final(self)@ == old(self)@ + piece@,
    {
        absorb(&mut self.hasher, piece);
    }

    /// The SHA-256 digest of the contents in hexadecimal.
    pub fn finish(self) -> (r: String)
        ensures
            r@ == text::hex_text(sha256(self@)),
            r@.len() == 64,
    {
        let digest = digest_of_absorbed(self.hasher);
        proof {
            text::lemma_hex_text_len(digest@);
        }
        text::bytes_to_hex(digest.as_slice())
    }
}

}

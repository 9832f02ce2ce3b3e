//! The supported hash algorithms.

use crate::hexcode::{encode, hex_encoding};
use md5::Md5;
use sha1::{Digest, Sha1};
use vstd::prelude::*;

verus! {

/// The SHA-1 hash of `data`, as the `sha1` crate computes it.
pub uninterp spec fn sha1_of(data: Seq<u8>) -> Seq<u8>;

/// The MD5 hash of `data`, as the `md-5` crate computes it.
pub uninterp spec fn md5_of(data: Seq<u8>) -> Seq<u8>;

/// Calls `Sha1::digest` of the `sha1` crate.
///
/// Trusted: the hash depends on `data` alone, and is 20 bytes long.
#[verifier::external_body]
pub(crate) fn sha1_digest(data: &[u8]) -> (out: Vec<u8>)
    ensures
        out@ == sha1_of(data@),
        out@.len() == 20,
{
    Sha1::digest(data).to_vec()
}

/// Calls `Md5::digest` of the `md-5` crate.
///
/// Trusted: the hash depends on `data` alone, and is 16 bytes long.
#[verifier::external_body]
pub(crate) fn md5_digest(data: &[u8]) -> (out: Vec<u8>)
    ensures
        out@ == md5_of(data@),
        out@.len() == 16,
{
    Md5::digest(data).to_vec()
}

/// A hash algorithm that a target digest can be given in.
#[derive(Clone, Copy, Debug, PartialEq, Eq, Structural)]
pub enum Algorithm {
    Sha1,
    Md5,
}

impl Algorithm {
    /// The number of bytes in a digest.
    pub open spec fn spec_digest_length(self) -> nat {
        match self {
            Algorithm::Sha1 => 20,
            Algorithm::Md5 => 16,
        }
    }

    /// The number of hex digits in a digest: two for each byte.
    pub open spec fn spec_hex_length(self) -> nat {
        2 * self.spec_digest_length()
    }

    /// What the hash function returns for `data`.
    pub open spec fn raw_digest(self, data: Seq<u8>) -> Seq<u8> {
        match self {
            Algorithm::Sha1 => sha1_of(data),
            Algorithm::Md5 => md5_of(data),
        }
    }

    /// The digest of `data`: the hash function's output, read as exactly
    /// `spec_digest_length()` bytes. The hash functions return that many, so
    /// this is all of their output; reading it by length makes a digest's
    /// length known wherever one is spoken of.
    pub open spec fn spec_digest(self, data: Seq<u8>) -> Seq<u8> {
        Seq::new(self.spec_digest_length(), |i: int| self.raw_digest(data)[i])
    }

    /// The digest of `data` in lower-case hex notation.
    pub open spec fn spec_hex_digest(self, data: Seq<u8>) -> Seq<char> {
        hex_encoding(self.spec_digest(data))
    }

    /// The number of bytes in a digest.
    pub fn digest_length(self) -> (n: usize)
        ensures
            n == self.spec_digest_length(),
    {
        match self {
            Algorithm::Sha1 => 20,
            Algorithm::Md5 => 16,
        }
    }

    /// The number of hex digits in a digest.
    pub fn hex_length(self) -> (n: usize)
        ensures
            n == self.spec_hex_length(),
    {
        2 * self.digest_length()
    }

    /// Hashes `data`.
    pub fn digest(self, data: &[u8]) -> (out: Vec<u8>)
        ensures
            out@ == self.spec_digest(data@),
            out@.len() == self.spec_digest_length(),
    {
        let out = match self {
            Algorithm::Sha1 => sha1_digest(data),
            Algorithm::Md5 => md5_digest(data),
        };
        assert(out@ =~= self.spec_digest(data@));
        out
    }

    /// Hashes `data` and writes the digest in lower-case hex digits.
    pub fn hex_digest(self, data: &[u8]) -> (s: String)
        ensures
            s@ == self.spec_hex_digest(data@),
            s@.len() == self.spec_hex_length(),
    {
        let out = self.digest(data);
        encode(out.as_slice())
    }
}

} // verus!

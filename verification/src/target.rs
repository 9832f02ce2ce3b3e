//! The digest that is searched for.

use crate::algorithm::Algorithm;
use crate::hexcode::{decode, hex_decoding, is_hex_string};
use crate::outcome::{CrackError, Failure};
use crate::text::{trim, trimmed};
use vstd::prelude::*;
use vstd::string::StrSliceExecFns;
use vstd::utf8::encode_utf8;

verus! {

/// Whether `target_hex` is the hex notation of a digest of `algorithm`: two
/// hex digits, of either case, for each byte of a digest, and nothing else.
pub open spec fn is_valid_target(algorithm: Algorithm, target_hex: Seq<char>) -> bool {
    &&& target_hex.len() == algorithm.spec_hex_length()
    &&& is_hex_string(target_hex)
}

/// The candidate that the wordlist line `line` holds: the line without
/// leading and trailing whitespace.
pub open spec fn candidate_of(line: Seq<char>) -> Seq<char> {
    trimmed(line)
}

/// Whether the candidate of `line` hashes to `target` under `algorithm`. The
/// candidate is hashed as the bytes of its UTF-8 encoding; an empty candidate
/// is hashed as the empty byte string.
pub open spec fn line_matches(algorithm: Algorithm, target: Seq<u8>, line: Seq<char>) -> bool {
    algorithm.spec_digest(encode_utf8(candidate_of(line))) == target
}

/// A digest to find a preimage of, with the algorithm that it was made by.
pub struct TargetDigest {
    algorithm: Algorithm,
    bytes: Vec<u8>,
}

impl View for TargetDigest {
    type V = Seq<u8>;

    /// The bytes of the digest.
    closed spec fn view(&self) -> Seq<u8> {
        self.bytes@
    }
}

impl TargetDigest {
    /// A digest has as many bytes as its algorithm gives to every digest.
    #[verifier::type_invariant]
    spec fn sized(&self) -> bool {
        self.bytes@.len() == self.algorithm.spec_digest_length()
    }

    /// The algorithm that the digest was made by.
    pub closed spec fn spec_algorithm(&self) -> Algorithm {
        self.algorithm
    }

    /// Reads a digest of `algorithm` from its hex notation.
    ///
    /// The length is tested first, then the digits; either way a string that
    /// is no digest of `algorithm` is refused as `InvalidDigestFormat`.
    pub fn parse(algorithm: Algorithm, target_hex: &str) -> (r: Result<TargetDigest, CrackError>)
        ensures
            match r {
                Ok(target) => {
                    &&& is_valid_target(algorithm, target_hex@)
                    &&& target.spec_algorithm() == algorithm
                    &&& target@ == hex_decoding(target_hex@)
                    &&& target@.len() == algorithm.spec_digest_length()
                },
                Err(error) => {
                    &&& !is_valid_target(algorithm, target_hex@)
                    &&& error@ == Failure::InvalidDigestFormat
                },
            },
    {
        if target_hex.unicode_len() != algorithm.hex_length() {
            return Err(CrackError::InvalidDigestFormat);
        }
        match decode(target_hex) {
            Ok(bytes) => Ok(TargetDigest { algorithm, bytes }),
            Err(_) => Err(CrackError::InvalidDigestFormat),
        }
    }

    /// The algorithm that the digest was made by.
    pub fn algorithm(&self) -> (a: Algorithm)
        ensures
            a == self.spec_algorithm(),
    {
        self.algorithm
    }

    /// The bytes of the digest.
    pub fn as_bytes(&self) -> (bytes: &[u8])
        ensures
            bytes@ == self@,
            bytes@.len() == self.spec_algorithm().spec_digest_length(),
    {
        proof {
            use_type_invariant(self);
        }
        self.bytes.as_slice()
    }

    /// Whether `digest` is the target, byte for byte.
    pub fn accepts(&self, digest: &[u8]) -> (equal: bool)
        ensures
            equal == (digest@ == self@),
    {
        same_bytes(digest, self.bytes.as_slice())
    }

    /// Tests one line of the wordlist: trims it, hashes what is left and
    /// compares the digest with the target. Returns the candidate where they
    /// are equal.
    pub fn try_line(&self, line: &str) -> (found: Option<String>)
        ensures
            match found {
                Some(candidate) => {
                    &&& line_matches(self.spec_algorithm(), self@, line@)
                    &&& candidate@ == candidate_of(line@)
                },
                None => !line_matches(self.spec_algorithm(), self@, line@),
            },
    {
        let candidate = trim(line);
        let digest = self.algorithm.digest(candidate.as_bytes());
        if self.accepts(digest.as_slice()) {
            Some(candidate.to_owned())
        } else {
            None
        }
    }
}

/// Whether `a` and `b` hold the same bytes.
pub fn same_bytes(a: &[u8], b: &[u8]) -> (equal: bool)
    ensures
        equal == (a@ == b@),
{
    if a.len() != b.len() {
        return false;
    }
    let mut i: usize = 0;
    while i < a.len()
        invariant
            a@.len() == b@.len(),
            i <= a@.len(),
            forall|j: int| 0 <= j < i ==> a@[j] == b@[j],
        decreases a@.len() - i,
    {
        if a[i] != b[i] {
            return false;
        }
        i = i + 1;
    }
    assert(a@ =~= b@);
    true
}

} // verus!

//! The closed set of digest algorithms and their fixed parameters.

use vstd::prelude::*;

verus! {

/// A digest algorithm the engine can run.
///
/// The set is closed: every dispatch over it is an exhaustive match, and
/// each variant fixes a digest byte length and a weakness classification.
#[derive(Clone, Copy, Debug, PartialEq, Eq, Structural)]
pub enum Algorithm {
    Md5,
    Sha1,
    Sha256,
    Sha512,
    Blake3,
}

impl Algorithm {
    /// Number of bytes in a digest under this algorithm.
    pub open spec fn spec_digest_byte_len(self) -> nat {
        match self {
            Algorithm::Md5 => 16,
            Algorithm::Sha1 => 20,
            Algorithm::Sha256 => 32,
            Algorithm::Sha512 => 64,
            Algorithm::Blake3 => 32,
        }
    }

    /// Number of characters in the lowercase hex rendering of a digest.
    pub open spec fn spec_hex_len(self) -> nat {
        2 * self.spec_digest_byte_len()
    }

    /// An algorithm with known collision weaknesses, gated behind opt-in.
    pub open spec fn spec_is_weak(self) -> bool {
        self == Algorithm::Md5 || self == Algorithm::Sha1
    }

    pub fn digest_byte_len(&self) -> (n: usize)
        ensures
            n == self.spec_digest_byte_len(),
    {
        match self {
            Algorithm::Md5 => 16,
            Algorithm::Sha1 => 20,
            Algorithm::Sha256 => 32,
            Algorithm::Sha512 => 64,
            Algorithm::Blake3 => 32,
        }
    }

    pub fn expected_hex_len(&self) -> (n: usize)
        ensures
            n == self.spec_hex_len(),
    {
        let bytes = self.digest_byte_len();
        2 * bytes
    }

    pub fn is_weak(&self) -> (r: bool)
        ensures
            r == self.spec_is_weak(),
    {
        match self {
            Algorithm::Md5 => true,
            Algorithm::Sha1 => true,
            _ => false,
        }
    }
}

} // verus!

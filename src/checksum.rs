//! Checking fetched bytes against an artifact's expected digest.

use crate::digest::{bytes_equal, decode_hex, encode_hex, sha1_digest};
use crate::digest::{hex_decoded, hex_encoded, is_hex_text, sha1_of};
use crate::resource::Artifact;
use vstd::prelude::*;

verus! {

/// A digest mismatch, with the expected digest and the computed one as hex.
#[derive(Debug, Clone)]
pub struct ChecksumVerificationError {
    pub expected: String,
    pub actual: String,
}

/// Why fetched bytes were not accepted.
#[derive(Debug, Clone)]
pub enum ChecksumError {
    /// The expected digest is not hex text.
    InvalidDigest,
    /// The bytes have another digest.
    Mismatch(ChecksumVerificationError),
}

/// The expected digest, as hex text, decodes to the computed digest.
pub open spec fn digest_matches(expected_hex: Seq<char>, computed: Seq<u8>) -> bool {
    is_hex_text(expected_hex) && hex_decoded(expected_hex) == computed
}

/// Compares a computed digest with the expected one written as hex text.
pub fn check_digest(expected: &str, computed: &Vec<u8>) -> (r: Result<(), ChecksumError>)
    ensures
        r is Ok <==> digest_matches(expected@, computed@),
        r matches Err(ChecksumError::InvalidDigest) <==> !is_hex_text(expected@),
        r matches Err(ChecksumError::Mismatch(e)) ==> e.expected@ == expected@ && e.actual@
            == hex_encoded(computed@),
{
    match decode_hex(expected) {
        Err(_) => Err(ChecksumError::InvalidDigest),
        Ok(want) => {
            if bytes_equal(&want, computed) {
                Ok(())
            } else {
                let actual = encode_hex(computed.as_slice());
                Err(
                    ChecksumError::Mismatch(
                        ChecksumVerificationError { expected: expected.to_owned(), actual },
                    ),
                )
            }
        },
    }
}

impl Artifact {
    /// Accepts the bytes exactly when their SHA-1 digest is the one this
    /// artifact expects.
    pub fn verify_checksum(&self, v: &[u8]) -> (r: Result<(), ChecksumError>)
        ensures
            r is Ok <==> digest_matches(self.sha1@, sha1_of(v@)),
            r matches Err(ChecksumError::InvalidDigest) <==> !is_hex_text(self.sha1@),
            r matches Err(ChecksumError::Mismatch(e)) ==> e.expected@ == self.sha1@ && e.actual@
                == hex_encoded(sha1_of(v@)),
    {
        let computed = sha1_digest(v);
        check_digest(self.sha1.as_str(), &computed)
    }
}

} // verus!

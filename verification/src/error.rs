//! The closed set of stable error kinds that this gateway reports.
//!
//! Every failure of decoding, structural validation or per-request
//! verification is mapped to exactly one of these kinds; no lower-level
//! diagnostic crosses the library boundary. Downstream billing and receipt
//! logic keys its behaviour off the numeric codes, so the codes are
//! contractually stable.

use vstd::prelude::*;

verus! {

/// One of the stable failure kinds of the deposit gateway.
#[derive(Clone, Copy, Debug, PartialEq, Eq, Structural)]
pub enum Error {
    /// The wire payload is malformed or mistyped, or a field failed its
    /// numeric conversion (an amount wider than 128 bits falls here).
    ParseDataFailed,
    /// The six decoded sequences of the batch do not share one length.
    WrongLengthOfArguments,
    /// An asset identifier did not resolve to a valid asset descriptor.
    AssetDecodeFailed,
    /// Proof bytes did not deserialize into a proof object.
    ProofDecodeFailed,
    /// The proof deserialized but the cryptographic oracle rejected it,
    /// or the oracle faulted internally.
    ProofVerificationFailed,
}

impl Error {
    /// The stable numeric code of this error kind.
    pub fn code(&self) -> (c: u64)
        ensures
            c == self.spec_code(),
    {
        match self {
            Error::ParseDataFailed => 1,
            Error::WrongLengthOfArguments => 2,
            Error::AssetDecodeFailed => 3,
            Error::ProofDecodeFailed => 4,
            Error::ProofVerificationFailed => 5,
        }
    }

    /// The numeric code, as a mathematical function of the kind. Distinct
    /// kinds carry distinct codes.
    pub open spec fn spec_code(&self) -> u64 {
        match self {
            Error::ParseDataFailed => 1,
            Error::WrongLengthOfArguments => 2,
            Error::AssetDecodeFailed => 3,
            Error::ProofDecodeFailed => 4,
            Error::ProofVerificationFailed => 5,
        }
    }
}

} // verus!

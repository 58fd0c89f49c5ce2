use vstd::prelude::*;

verus! {

/// The ways in which building or opening a message can fail.
#[derive(Clone, Copy, Debug, PartialEq, Eq, Structural)]
pub enum JoseError {
    /// The input is not a well-formed message: bad base64url, bad JSON, a
    /// missing member, or the wrong number of compact segments.
    MalformedInput,
    /// The headers contradict each other or lack a mandatory claim.
    HeaderConflict,
    /// A named algorithm is not one this library knows.
    UnsupportedAlgorithm,
    /// The key material does not fit the named algorithm.
    KeyMismatch,
    /// Unwrapping, agreement or tag verification failed.
    DecryptionFailed,
    /// No encrypter or decrypter applies to the message.
    NoApplicableAlgorithm,
    /// The platform's source of random bytes gave none.
    RandomSourceFailed,
}

} // verus!

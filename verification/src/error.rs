//! Failures that abort the processing of one container.

use vstd::prelude::*;

verus! {

/// Why a container could not be turned into audio.
#[derive(Clone, Copy, Debug, PartialEq, Eq, Structural)]
pub enum DumpError {
    /// The first eight bytes are not the magic signature.
    InvalidFormat,
    /// A read or a skip would move past the end of the container.
    TruncatedInput,
    /// The block cipher rejected a ciphertext.
    DecryptionFailed,
    /// The decrypted key block carries no seed bytes after its prefix.
    InvalidKeyMaterial,
    /// The metadata block is not the expected text encoding of a record.
    MalformedMetadata,
    /// The metadata record names no audio format.
    MissingField,
}

} // verus!

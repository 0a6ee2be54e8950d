//! The block cipher: AES-128 in ECB mode, performed by OpenSSL.

use crate::error::DumpError;
use openssl::error::ErrorStack;
use openssl::symm::Cipher;
use vstd::prelude::*;
use vstd::std_specs::convert::FromSpecImpl;

verus! {

/// The error that OpenSSL reports; nothing is read from it.
#[verifier::external_type_specification]
#[verifier::external_body]
pub struct ExErrorStack(ErrorStack);

/// Key under which a container's key block is encrypted.
pub const CORE_KEY: [u8; 16] = [
    0x68, 0x7a, 0x48, 0x52, 0x41, 0x6d, 0x73, 0x6f,
    0x35, 0x6b, 0x49, 0x6e, 0x62, 0x61, 0x78, 0x57,
];

/// Key under which a container's metadata is encrypted.
pub const META_KEY: [u8; 16] = [
    0x23, 0x31, 0x34, 0x6c, 0x6a, 0x6b, 0x5f, 0x21,
    0x5c, 0x5d, 0x26, 0x30, 0x55, 0x3c, 0x27, 0x28,
];

/// Longest ciphertext that is handed to the cipher in one call.
pub const MAX_CIPHERTEXT_LEN: usize = 0x7fff_ffff;

/// The plaintext that `openssl::symm::decrypt` returns for AES-128 in ECB
/// mode, without an initialisation vector and with OpenSSL's padding
/// enabled, under a 16-byte `key`; `None` where it reports an error.
pub uninterp spec fn aes_128_ecb_plaintext(key: Seq<u8>, ciphertext: Seq<u8>) -> Option<Seq<u8>>;

/// Calls `openssl::symm::decrypt` with the cipher `Cipher::aes_128_ecb()` and
/// no initialisation vector.
///
/// Trusted: the result is the one that [`aes_128_ecb_plaintext`] names. The
/// call panics for a key shorter than the cipher's 16 bytes and for an input
/// whose length does not fit OpenSSL's `int`; it is made with neither.
#[verifier::external_body]
fn aes_128_ecb_decrypt(key: &[u8], ciphertext: &[u8]) -> (res: Result<Vec<u8>, ErrorStack>)
    requires
        key@.len() == 16,
        ciphertext@.len() <= MAX_CIPHERTEXT_LEN,
    ensures
        match res {
            Ok(plaintext) => aes_128_ecb_plaintext(key@, ciphertext@) == Some(plaintext@),
            Err(_) => aes_128_ecb_plaintext(key@, ciphertext@) is None,
        },
{
    openssl::symm::decrypt(Cipher::aes_128_ecb(), key, None, ciphertext)
}

impl From<ErrorStack> for DumpError {
    /// Whatever OpenSSL reports, the container's ciphertext was rejected.
    fn from(error: ErrorStack) -> (e: DumpError)
        ensures
            e == DumpError::DecryptionFailed,
    {
        DumpError::DecryptionFailed
    }
}

impl FromSpecImpl<ErrorStack> for DumpError {
    open spec fn obeys_from_spec() -> bool {
        true
    }

    open spec fn from_spec(error: ErrorStack) -> DumpError {
        DumpError::DecryptionFailed
    }
}

/// The plaintext of `ciphertext` under `key`, or `None` where the cipher
/// rejects it or it is longer than [`MAX_CIPHERTEXT_LEN`].
pub open spec fn decrypted(key: Seq<u8>, ciphertext: Seq<u8>) -> Option<Seq<u8>> {
    if ciphertext.len() <= MAX_CIPHERTEXT_LEN {
        aes_128_ecb_plaintext(key, ciphertext)
    } else {
        None
    }
}

/// Decrypts `ciphertext` with AES-128 in ECB mode under `key`.
pub fn decrypt_block(key: &[u8; 16], ciphertext: &[u8]) -> (res: Result<Vec<u8>, DumpError>)
    ensures
        match res {
            Ok(plaintext) => decrypted(key@, ciphertext@) == Some(plaintext@),
            Err(e) => decrypted(key@, ciphertext@) is None && e == DumpError::DecryptionFailed,
        },
{
    if ciphertext.len() > MAX_CIPHERTEXT_LEN {
        return Err(DumpError::DecryptionFailed);
    }
    match aes_128_ecb_decrypt(key.as_slice(), ciphertext) {
        Ok(plaintext) => Ok(plaintext),
        Err(error) => Err(DumpError::from(error)),
    }
}

} // verus!

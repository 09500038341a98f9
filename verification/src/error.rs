use crate::hex_codec::HexError;
use vstd::prelude::*;

verus! {

/// Everything that can go wrong in the library's own logic.
#[derive(Debug, Clone, Copy, PartialEq, Eq)]
pub enum CryptSplitError {
    /// The key file is shorter than the 32-byte salt.
    KeyFileTooShort,
    /// The key file holds a salt but not the 32-byte verification tag after it.
    VerificationTagMissing,
    /// The key derived from the password does not reproduce the stored tag.
    WrongPassword,
    /// Wrapping the data-encryption key failed.
    KeyWrapFailed,
    /// Unwrapping the data-encryption key failed (bad size or integrity check).
    KeyUnwrapFailed,
    /// The unwrapped key is not 32 bytes long (the command line stops there).
    UnwrappedKeyLength,
    /// The metadata records no wrapped key (the command line stops there).
    MissingWrappedKey,
    /// The stored nonce is hexadecimal but not 12 bytes long (the command line stops there).
    NonceLength,
    /// The stored nonce is not hexadecimal.
    InvalidNonce(HexError),
    /// The stored associated data is not hexadecimal.
    InvalidAad(HexError),
    /// The stored wrapped key is not hexadecimal.
    InvalidWrappedKey(HexError),
    /// The ciphertext does not authenticate under the key, nonce and associated data.
    DecryptionFailed,
    /// The cloud configuration lists no folder.
    NoCloudPaths,
}

} // verus!

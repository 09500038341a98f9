//! Encrypted file splitting: a file is encrypted with AES-GCM-SIV, cut into
//! 4 KiB chunks that are chained by their hashes, and the data-encryption key
//! is wrapped with a key-encryption key derived from a password.

pub mod cli;
pub mod cloud;
pub mod crypto;
pub mod error;
pub mod hex_codec;
pub mod key_management;
pub mod metadata;
pub mod split;
pub mod text;

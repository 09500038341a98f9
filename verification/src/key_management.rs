//! Key-encryption key (KEK) derived from a password with scrypt, checked
//! against a stored HMAC tag, and used to wrap per-file data-encryption keys.

use crate::crypto::{
    aes_kw_unwrap, aes_kw_unwrap_vec, aes_kw_wrap, aes_kw_wrap_vec, ct_eq_32, draw_bytes, fill_random,
    hmac_sha256, Drawn, hmac_sha256_tag, scrypt_derive, scrypt_output, sha256, sha256_digest,
};
use crate::error::CryptSplitError;
use vstd::prelude::*;
use vstd::utf8::encode_utf8;

verus! {

/// The message whose HMAC under the KEK is stored beside the salt.
pub const HMAC_VERIFIER_MESSAGE: [u8; 16] = [
    107, 101, 107, 95, 118, 101, 114, 105, 102, 105, 99, 97, 116, 105, 111, 110,
];

/// log2 of the scrypt cost parameter N.
pub const SCRYPT_N: u8 = 15;

/// The scrypt block size parameter r.
pub const SCRYPT_R: u32 = 8;

/// The scrypt parallelism parameter p.
pub const SCRYPT_P: u32 = 1;

/// The nominal key length given to scrypt's parameters.
pub const SCRYPT_LEN: usize = 64;

/// Length of the salt at the start of the key file.
pub const SALT_LEN: usize = 32;

/// Length of the key file: salt followed by verification tag.
pub const KEY_FILE_LEN: usize = 64;

/// The verification message as a byte sequence ("kek_verification").
pub open spec fn verifier_message() -> Seq<u8> {
    seq![107u8, 101, 107, 95, 118, 101, 114, 105, 102, 105, 99, 97, 116, 105, 111, 110]
}

/// The KEK that scrypt derives from a password and a salt.
pub open spec fn derive_kek(password: Seq<u8>, salt: Seq<u8>) -> Seq<u8> {
    scrypt_output(password, salt, SCRYPT_N, SCRYPT_R, SCRYPT_P, SCRYPT_LEN)
}

/// The tag that proves knowledge of a KEK.
pub open spec fn verifier_tag(kek: Seq<u8>) -> Seq<u8> {
    hmac_sha256(kek, verifier_message())
}

/// The content of the key file: the salt, then the KEK's verification tag.
pub open spec fn key_file_content(salt: Seq<u8>, kek: Seq<u8>) -> Seq<u8> {
    salt + verifier_tag(kek)
}

/// What unlocking a key file with a password gives: the first 32 bytes are
/// the salt, the next 32 the tag; bytes after those are ignored.
pub open spec fn unlocked_kek(password: Seq<u8>, content: Seq<u8>) -> Result<
    Seq<u8>,
    CryptSplitError,
> {
    if content.len() < SALT_LEN {
        Err(CryptSplitError::KeyFileTooShort)
    } else if content.len() < KEY_FILE_LEN {
        Err(CryptSplitError::VerificationTagMissing)
    } else {
        let kek = derive_kek(password, content.subrange(0, 32));
        if verifier_tag(kek) == content.subrange(32, 64) {
            Ok(kek)
        } else {
            Err(CryptSplitError::WrongPassword)
        }
    }
}

/// A key result viewed as a byte sequence result.
pub open spec fn key_view(res: Result<[u8; 32], CryptSplitError>) -> Result<
    Seq<u8>,
    CryptSplitError,
> {
    match res {
        Ok(k) => Ok(k@),
        Err(e) => Err(e),
    }
}

/// What unwrapping a wrapped data-encryption key gives.
pub open spec fn unwrapped_dek(kek: Seq<u8>, wrapped: Seq<u8>) -> Result<Seq<u8>, CryptSplitError> {
    match aes_kw_unwrap(kek, wrapped) {
        Some(k) => Ok(k),
        None => Err(CryptSplitError::KeyUnwrapFailed),
    }
}

/// Whether unwrapping under `kek` either fails or yields exactly 32 bytes
/// (the only outcomes that a 32-byte key buffer can take).
pub open spec fn unwrap_fits_key(kek: Seq<u8>, wrapped: Seq<u8>) -> bool {
    aes_kw_unwrap(kek, wrapped) matches Some(k) ==> k.len() == 32
}

/// Copies 32 bytes of a slice, starting at `start`, into an array.
pub(crate) fn copy_32(src: &[u8], start: usize) -> (res: [u8; 32])
    requires
        start + 32 <= src@.len(),
    ensures
        res@ == src@.subrange(start as int, start + 32),
{
    let n = src.len();
    let mut out = [0u8; 32];
    let mut i: usize = 0;
    while i < 32
        invariant
            i <= 32,
            start + 32 <= src@.len(),
            n == src@.len(),
            forall|j: int| 0 <= j < i ==> out@[j] == src@[start + j],
        decreases 32 - i,
    {
        out[i] = src[start + i];
        i = i + 1;
    }
    assert(out@ =~= src@.subrange(start as int, start + 32));
    out
}

/// Derives the 32-byte KEK from a password and salt with scrypt
/// (log2 N = 15, r = 8, p = 1).
pub fn scrypt_kek_key_derivation(password: &str, salt: [u8; 32]) -> (kek: [u8; 32])
    ensures
        kek@ == derive_kek(encode_utf8(password@), salt@),
{
    scrypt_derive(password.as_bytes(), &salt, SCRYPT_N, SCRYPT_R, SCRYPT_P, SCRYPT_LEN)
}

/// A fresh random 32-byte salt.
pub fn generate_salt() -> (salt: [u8; 32]) {
    let mut salt = [0u8; 32];
    fill_random(&mut salt);
    salt
}

/// A fresh random 32-byte data-encryption key.
pub fn generate_dek() -> (dek: [u8; 32]) {
    let mut dek = [0u8; 32];
    fill_random(&mut dek);
    dek
}

/// The HMAC-SHA256 tag of the verification message under the KEK.
pub fn kek_verifier(kek: &[u8; 32]) -> (tag: [u8; 32])
    ensures
        tag@ == verifier_tag(kek@),
{
    let msg = HMAC_VERIFIER_MESSAGE;
    assert(msg@ =~= verifier_message());
    hmac_sha256_tag(kek, &msg)
}

/// The bytes to store in the key file: the salt followed by the KEK's tag.
pub fn kek_salt_storage(salt: [u8; 32], kek: &[u8; 32]) -> (content: Vec<u8>)
    ensures
        content@ == key_file_content(salt@, kek@),
        content@.len() == KEY_FILE_LEN,
{
    let tag = kek_verifier(kek);
    let mut content: Vec<u8> = Vec::new();
    content.extend_from_slice(&salt);
    content.extend_from_slice(&tag);
    assert(content@ =~= salt@ + tag@);
    content
}

/// Unlocks the KEK from the key file's content: derives the KEK from the
/// password and the stored salt, and accepts it only if its tag matches the
/// stored tag (compared in constant time).
pub fn load_kek_salt(password: &str, content: &[u8]) -> (res: Result<[u8; 32], CryptSplitError>)
    ensures
        key_view(res) == unlocked_kek(encode_utf8(password@), content@),
{
    if content.len() < SALT_LEN {
        return Err(CryptSplitError::KeyFileTooShort);
    }
    if content.len() < KEY_FILE_LEN {
        return Err(CryptSplitError::VerificationTagMissing);
    }
    let salt = copy_32(content, 0);
    let stored_tag = copy_32(content, 32);
    let kek = scrypt_kek_key_derivation(password, salt);
    let verifier = kek_verifier(&kek);
    if !ct_eq_32(&verifier, &stored_tag) {
        return Err(CryptSplitError::WrongPassword);
    }
    Ok(kek)
}

/// A new key file: the salt that the random source drew for it, the KEK
/// derived from the password under that salt, and the content to store.
pub struct KeyFileInit {
    pub salt: Drawn<[u8; 32]>,
    pub kek: [u8; 32],
    pub content: Vec<u8>,
}

/// Whether `init` holds the KEK of `password` under its drawn salt and the
/// key file that stores that salt and the KEK's tag.
pub open spec fn is_key_file_init(password: Seq<u8>, init: KeyFileInit) -> bool {
    &&& init.kek@ == derive_kek(password, init.salt.drawn()@)
    &&& init.content@ == key_file_content(init.salt.drawn()@, init.kek@)
    &&& init.content@.len() == KEY_FILE_LEN
}

/// Creates a new KEK for a password under a salt freshly drawn from the
/// operating system's generator, with the key file content to store.
pub fn init_key_file(password: &str) -> (init: KeyFileInit)
    ensures
        is_key_file_init(encode_utf8(password@), init),
        unlocked_kek(encode_utf8(password@), init.content@) == Ok::<Seq<u8>, CryptSplitError>(
            init.kek@,
        ),
{
    let salt = draw_bytes::<32>();
    let kek = scrypt_kek_key_derivation(password, *salt.value());
    let content = kek_salt_storage(*salt.value(), &kek);
    proof {
        lemma_unlock_after_init(encode_utf8(password@), salt.drawn(), kek, content@);
    }
    KeyFileInit { salt, kek, content }
}

/// Creates a new KEK for a password under a fresh random salt (that of
/// `init_key_file`); returns the KEK and the key file content to store.
pub fn init_kek_salt(password: &str) -> (res: ([u8; 32], Vec<u8>))
    ensures
        res.1@.len() == KEY_FILE_LEN,
        res.0@ == derive_kek(encode_utf8(password@), res.1@.subrange(0, 32)),
        res.1@ == key_file_content(res.1@.subrange(0, 32), res.0@),
        unlocked_kek(encode_utf8(password@), res.1@) == Ok::<Seq<u8>, CryptSplitError>(res.0@),
{
    let init = init_key_file(password);
    proof {
        lemma_key_file_stores_drawn_salt(encode_utf8(password@), init);
    }
    (init.kek, init.content)
}

/// The salt at the start of a new key file is the one the random source
/// drew for it, and the KEK is derived under exactly that salt; so two key
/// files made from different draws differ, whatever the passwords.
pub proof fn lemma_key_file_stores_drawn_salt(password: Seq<u8>, init: KeyFileInit)
    requires
        is_key_file_init(password, init),
    ensures
        init.content@.subrange(0, 32) == init.salt.drawn()@,
        init.kek@ == derive_kek(password, init.content@.subrange(0, 32)),
        init.content@.subrange(32, 64) == verifier_tag(init.kek@),
{
    assert(init.content@.subrange(0, 32) =~= init.salt.drawn()@);
    assert(init.content@.subrange(32, 64) =~= verifier_tag(init.kek@));
}

/// Two key files made under different drawn salts differ, whatever the
/// passwords: the salt is what the random source gave, not a function of
/// the password.
pub proof fn lemma_distinct_salts_distinct_key_files(
    password1: Seq<u8>,
    password2: Seq<u8>,
    a: KeyFileInit,
    b: KeyFileInit,
)
    requires
        is_key_file_init(password1, a),
        is_key_file_init(password2, b),
        a.salt.drawn()@ != b.salt.drawn()@,
    ensures
        a.content@ != b.content@,
{
    lemma_key_file_stores_drawn_salt(password1, a);
    lemma_key_file_stores_drawn_salt(password2, b);
}

/// SHA-256 of the password's UTF-8 bytes.
pub fn sha256_hash_password(password: &str) -> (hash: [u8; 32])
    ensures
        hash@ == sha256(encode_utf8(password@)),
{
    sha256_digest(password.as_bytes())
}

/// Wraps a data-encryption key under the KEK (AES key wrap, RFC 3394).
/// A 32-byte key always wraps, into 40 bytes.
pub fn wrap_dek_key(kek: &[u8; 32], dek: &[u8; 32]) -> (res: Result<Vec<u8>, CryptSplitError>)
    ensures
        res is Ok,
        res.unwrap()@ == aes_kw_wrap(kek@, dek@),
        res.unwrap()@.len() == 40,
        unwrap_fits_key(kek@, res.unwrap()@),
        unwrapped_dek(kek@, res.unwrap()@) == Ok::<Seq<u8>, CryptSplitError>(dek@),
{
    match aes_kw_wrap_vec(kek, dek) {
        Some(w) => Ok(w),
        None => Err(CryptSplitError::KeyWrapFailed),
    }
}

/// Unwraps a data-encryption key with the KEK. The caller guarantees that a
/// successful unwrap yields 32 bytes (see `unwrap_key_checked`).
pub fn unwrap_key(kek: &[u8; 32], wrapped_dek: &[u8]) -> (res: Result<[u8; 32], CryptSplitError>)
    requires
        unwrap_fits_key(kek@, wrapped_dek@),
    ensures
        key_view(res) == unwrapped_dek(kek@, wrapped_dek@),
{
    match aes_kw_unwrap_vec(kek, wrapped_dek) {
        Some(unwrapped) => {
            let dek = copy_32(unwrapped.as_slice(), 0);
            assert(dek@ =~= unwrapped@);
            Ok(dek)
        },
        None => Err(CryptSplitError::KeyUnwrapFailed),
    }
}

/// Unwraps a data-encryption key where a successful unwrap may yield a
/// length other than 32: that case gives `None`, every other case gives what
/// `unwrap_key` gives.
pub fn unwrap_key_checked(kek: &[u8; 32], wrapped_dek: &[u8]) -> (res: Option<
    Result<[u8; 32], CryptSplitError>,
>)
    ensures
        res is None <==> !unwrap_fits_key(kek@, wrapped_dek@),
        res matches Some(r) ==> key_view(r) == unwrapped_dek(kek@, wrapped_dek@),
{
    match aes_kw_unwrap_vec(kek, wrapped_dek) {
        Some(unwrapped) => {
            if unwrapped.len() != 32 {
                None
            } else {
                Some(unwrap_key(kek, wrapped_dek))
            }
        },
        None => Some(unwrap_key(kek, wrapped_dek)),
    }
}

/// A key file made for a password unlocks with that password and gives the
/// KEK that was derived for it.
pub proof fn lemma_unlock_after_init(password: Seq<u8>, salt: [u8; 32], kek: [u8; 32], content: Seq<u8>)
    requires
        kek@ == derive_kek(password, salt@),
        content == key_file_content(salt@, kek@),
        content.len() == KEY_FILE_LEN,
    ensures
        unlocked_kek(password, content) == Ok::<Seq<u8>, CryptSplitError>(kek@),
{
    assert(content.subrange(0, 32) =~= salt@);
    assert(content.subrange(32, 64) =~= verifier_tag(kek@));
}

} // verus!

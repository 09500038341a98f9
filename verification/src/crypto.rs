//! The cryptographic primitives and sources of randomness that the library
//! calls. Each function here is trusted: its contract is read off the outside
//! crate's source and documentation, not proved.

use aes_gcm_siv::aead::{Aead, KeyInit, OsRng, Payload};
use aes_gcm_siv::{Aes256GcmSiv, Nonce};
use aes_kw::KekAes256;
use hmac::{Hmac, Mac};
use password_hash::rand_core::RngCore;
use rand::Rng;
use sha2::{Digest, Sha256};
use subtle::ConstantTimeEq;
use vstd::prelude::*;
use zeroize::Zeroize;

verus! {

/// Largest plaintext or associated data that AES-GCM-SIV accepts (2^36 bytes).
pub const AEAD_MAX_LEN: u64 = 0x10_0000_0000;

/// Length of the authentication tag that AES-GCM-SIV appends.
pub const AEAD_TAG_LEN: usize = 16;

/// SHA-256 digest of a byte string.
pub uninterp spec fn sha256(data: Seq<u8>) -> Seq<u8>;

/// HMAC-SHA256 tag of a message under a key.
pub uninterp spec fn hmac_sha256(key: Seq<u8>, message: Seq<u8>) -> Seq<u8>;

/// The 32-byte scrypt output for a password and salt under the cost
/// parameters `log_n`, `r`, `p` and the nominal length `len`.
pub uninterp spec fn scrypt_output(
    password: Seq<u8>,
    salt: Seq<u8>,
    log_n: u8,
    r: u32,
    p: u32,
    len: usize,
) -> Seq<u8>;

/// AES-256-GCM-SIV ciphertext (with its tag appended) of a message.
pub uninterp spec fn aes_gcm_siv_encrypt(
    key: Seq<u8>,
    nonce: Seq<u8>,
    aad: Seq<u8>,
    message: Seq<u8>,
) -> Seq<u8>;

/// AES-256-GCM-SIV decryption: the message, or `None` when the tag does not verify.
pub uninterp spec fn aes_gcm_siv_decrypt(
    key: Seq<u8>,
    nonce: Seq<u8>,
    aad: Seq<u8>,
    ciphertext: Seq<u8>,
) -> Option<Seq<u8>>;

/// AES-256 key wrap (RFC 3394) of key material under a key-encryption key.
pub uninterp spec fn aes_kw_wrap(kek: Seq<u8>, data: Seq<u8>) -> Seq<u8>;

/// AES-256 key unwrap (RFC 3394): the key material, or `None` when the
/// integrity check or the size check fails.
pub uninterp spec fn aes_kw_unwrap(kek: Seq<u8>, wrapped: Seq<u8>) -> Option<Seq<u8>>;

/// A byte vector option viewed as a byte sequence option.
pub open spec fn bytes_option(o: Option<Vec<u8>>) -> Option<Seq<u8>> {
    match o {
        Some(v) => Some(v@),
        None => None,
    }
}

/// Whether a text has the shape of a hyphenated UUID: 36 characters,
/// hyphens at positions 8, 13, 18 and 23, lower-case hex digits elsewhere.
pub open spec fn is_hyphenated_uuid(text: Seq<char>) -> bool {
    &&& text.len() == 36
    &&& forall|i: int|
        0 <= i < 36 ==> if i == 8 || i == 13 || i == 18 || i == 23 {
            text[i] == '-'
        } else {
            ('0' <= #[trigger] text[i] <= '9') || ('a' <= text[i] <= 'f')
        }
}

/// `sha2::Sha256::digest`: the claim is that the 32 bytes returned are `sha256` of the input.
#[verifier::external_body]
pub(crate) fn sha256_digest(data: &[u8]) -> (res: [u8; 32])
    ensures
        res@ == sha256(data@),
{
    Sha256::digest(data).into()
}

/// `hmac::Hmac<Sha256>` (`new_from_slice`, `update`, `finalize`): HMAC takes
/// keys of any length, so construction does not fail; the claim is that the
/// 32 bytes returned are `hmac_sha256` of key and message.
#[verifier::external_body]
pub(crate) fn hmac_sha256_tag(key: &[u8], message: &[u8]) -> (res: [u8; 32])
    ensures
        res@ == hmac_sha256(key@, message@),
{
    let mut mac = <Hmac<Sha256> as Mac>::new_from_slice(key).expect("HMAC accepts any key size");
    mac.update(message);
    mac.finalize().into_bytes().into()
}

/// `scrypt::Params::new` and `scrypt::scrypt` into a 32-byte output. The
/// `requires` keeps the parameters inside what `Params::new` accepts (so
/// neither call fails); the claim is that the output is `scrypt_output` of
/// all arguments.
#[verifier::external_body]
pub(crate) fn scrypt_derive(
    password: &[u8],
    salt: &[u8],
    log_n: u8,
    r: u32,
    p: u32,
    len: usize,
) -> (res: [u8; 32])
    requires
        1 <= r <= 8,
        1 <= p <= 8,
        log_n <= 20,
        log_n < 16 * r,
        10 <= len <= 64,
    ensures
        res@ == scrypt_output(password@, salt@, log_n, r, p, len),
{
    let params = scrypt::Params::new(log_n, r, p, len).expect("Invalid scrypt params");
    let mut out = [0u8; 32];
    scrypt::scrypt(password, salt, &params, &mut out).expect("scrypt derivation failed");
    out
}

/// `aes_gcm_siv::Aes256GcmSiv::encrypt` with a 32-byte key, a 12-byte nonce and
/// associated data. It fails only for a message or associated data longer than
/// 2^36 bytes, which `requires` leaves out. Claims: the result is
/// `aes_gcm_siv_encrypt`, it is 16 bytes longer than the message, and
/// decrypting it with the same key, nonce and associated data gives the message
/// back (the AEAD correctness that the `aead` documentation promises).
#[verifier::external_body]
pub(crate) fn encrypt_with_aes_gcm_siv(
    plain_data: &[u8],
    nonce: &[u8; 12],
    key: &[u8; 32],
    aad: &[u8],
) -> (res: Vec<u8>)
    requires
        plain_data@.len() <= AEAD_MAX_LEN,
        aad@.len() <= AEAD_MAX_LEN,
    ensures
        res@ == aes_gcm_siv_encrypt(key@, nonce@, aad@, plain_data@),
        res@.len() == plain_data@.len() + AEAD_TAG_LEN,
        aes_gcm_siv_decrypt(key@, nonce@, aad@, res@) == Some(plain_data@),
{
    let cipher = Aes256GcmSiv::new_from_slice(key).expect("Falsche Länge des Keys");
    let payload = Payload { msg: plain_data, aad };
    cipher.encrypt(Nonce::from_slice(nonce), payload).expect("encryption failure!")
}

/// `aes_gcm_siv::Aes256GcmSiv::decrypt` with a 32-byte key and a nonce of 12
/// bytes (`Nonce::from_slice` panics on any other length, which `requires`
/// leaves out). The claim is that the result is `aes_gcm_siv_decrypt`.
#[verifier::external_body]
pub(crate) fn decrypt_with_aes_gcm_siv(
    encrypted_data: &[u8],
    nonce: &[u8],
    key: &[u8; 32],
    aad: &[u8],
) -> (res: Option<Vec<u8>>)
    requires
        nonce@.len() == 12,
    ensures
        bytes_option(res) == aes_gcm_siv_decrypt(key@, nonce@, aad@, encrypted_data@),
{
    let cipher = Aes256GcmSiv::new_from_slice(key).expect("Invalid key length");
    let payload = Payload { msg: encrypted_data, aad };
    cipher.decrypt(Nonce::from_slice(nonce), payload).ok()
}

/// `aes_kw::Kek::wrap_vec` under a 32-byte key on 32 bytes of key material.
/// The source fails only for data whose length is not a multiple of 8, so the
/// result is always `Some`; it is 8 bytes longer than the data; and unwrapping
/// it under the same key gives the data back (RFC 3394 key unwrap inverts key wrap).
#[verifier::external_body]
pub(crate) fn aes_kw_wrap_vec(kek: &[u8; 32], data: &[u8; 32]) -> (res: Option<Vec<u8>>)
    ensures
        res is Some,
        res.unwrap()@ == aes_kw_wrap(kek@, data@),
        res.unwrap()@.len() == 40,
        aes_kw_unwrap(kek@, res.unwrap()@) == Some(data@),
{
    KekAes256::from(*kek).wrap_vec(data).ok()
}

/// `aes_kw::Kek::unwrap_vec` under a 32-byte key. Claims: the result is
/// `aes_kw_unwrap`, and when it succeeds its output is 8 bytes shorter than
/// the input (the source allocates exactly that much).
#[verifier::external_body]
pub(crate) fn aes_kw_unwrap_vec(kek: &[u8; 32], wrapped: &[u8]) -> (res: Option<Vec<u8>>)
    ensures
        bytes_option(res) == aes_kw_unwrap(kek@, wrapped@),
        res matches Some(k) ==> k@.len() + 8 == wrapped@.len(),
{
    KekAes256::from(*kek).unwrap_vec(wrapped).ok()
}

/// `subtle::ConstantTimeEq::ct_eq` on two 32-byte arrays, read with
/// `unwrap_u8`: the claim is that it is 1 exactly when the arrays are equal.
#[verifier::external_body]
pub(crate) fn ct_eq_32(a: &[u8; 32], b: &[u8; 32]) -> (res: bool)
    ensures
        res == (a@ == b@),
{
    a.ct_eq(b).unwrap_u8() == 1
}

/// `zeroize::Zeroize::zeroize` on a 32-byte array: every byte becomes 0.
#[verifier::external_body]
pub(crate) fn wipe_key(key: &mut [u8; 32])
    ensures
        final(key)@ == Seq::new(32, |i: int| 0u8),
{
    key.zeroize();
}

/// `RngCore::fill_bytes` of the operating system's generator (`OsRng`).
/// The bytes are random, so nothing is claimed of them. (The call panics only
/// when the operating system cannot supply randomness.)
#[verifier::external_body]
pub(crate) fn fill_random<const N: usize>(buf: &mut [u8; N]) {
    OsRng.fill_bytes(buf);
}

/// `rand::Rng::gen_range(0..n)` on the thread-local generator: the claim is
/// only that the index is below `n` (`gen_range` panics on an empty range,
/// which `requires` leaves out).
#[verifier::external_body]
pub(crate) fn random_below(n: usize) -> (res: usize)
    requires
        n > 0,
    ensures
        res < n,
{
    rand::thread_rng().gen_range(0..n)
}

/// `uuid::Uuid::new_v4` rendered with `to_string`: random, but its shape is
/// the hyphenated lower-case form that the crate's `Display` produces.
#[verifier::external_body]
pub(crate) fn new_uuid_text() -> (res: String)
    ensures
        is_hyphenated_uuid(res@),
{
    uuid::Uuid::new_v4().to_string()
}

/// A value as a random source gave it. Only this module makes one, from
/// what the random source returned, so holding one shows where the value
/// came from.
pub struct Drawn<T> {
    value: T,
}

impl<T> Drawn<T> {
    /// The drawn value.
    pub closed spec fn drawn(&self) -> T {
        self.value
    }

    /// The drawn value.
    pub fn value(&self) -> (v: &T)
        ensures
            *v == self.drawn(),
    {
        &self.value
    }
}

/// A fresh UUID text from `new_uuid_text`.
pub fn draw_uuid_text() -> (d: Drawn<String>)
    ensures
        is_hyphenated_uuid(d.drawn()@),
{
    Drawn { value: new_uuid_text() }
}

/// Fresh random bytes from `fill_random`.
pub fn draw_bytes<const N: usize>() -> (d: Drawn<[u8; N]>) {
    let mut bytes = [0u8; N];
    fill_random(&mut bytes);
    Drawn { value: bytes }
}

/// A 32-byte key that a random source gave and whose bytes were since
/// wiped: which key it was is kept for proofs only.
pub struct DrawnKey {
    key: Ghost<[u8; 32]>,
}

impl DrawnKey {
    /// The key that was drawn.
    pub closed spec fn drawn(&self) -> [u8; 32] {
        self.key@
    }
}

/// Wipes a drawn key's bytes, keeping for proofs which key was drawn.
pub fn wipe_drawn_key(d: Drawn<[u8; 32]>) -> (k: DrawnKey)
    ensures
        k.drawn() == d.drawn(),
{
    let ghost drawn = d.value;
    let Drawn { value } = d;
    let mut bytes = value;
    wipe_key(&mut bytes);
    DrawnKey { key: Ghost(drawn) }
}

/// An index that the random generator drew below `bound`.
pub struct DrawnIndex {
    index: usize,
    bound: usize,
}

impl DrawnIndex {
    /// The drawn index.
    pub closed spec fn drawn_index(&self) -> usize {
        self.index
    }

    /// The bound the index was drawn below.
    pub closed spec fn drawn_bound(&self) -> usize {
        self.bound
    }

    /// The drawn index.
    pub fn index(&self) -> (i: usize)
        ensures
            i == self.drawn_index(),
    {
        self.index
    }
}

/// An index drawn by `random_below` over the whole range `0..n`.
pub fn draw_index(n: usize) -> (d: DrawnIndex)
    requires
        n > 0,
    ensures
        d.drawn_bound() == n,
        d.drawn_index() < n,
{
    DrawnIndex { index: random_below(n), bound: n }
}

} // verus!

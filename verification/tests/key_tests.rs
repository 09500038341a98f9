use crypt_split::error::CryptSplitError;
use crypt_split::key_management::{
    generate_dek, generate_salt, init_kek_salt, kek_salt_storage, kek_verifier, load_kek_salt,
    scrypt_kek_key_derivation, sha256_hash_password, unwrap_key, unwrap_key_checked,
    wrap_dek_key,
};

fn to_hex(b: &[u8]) -> String {
    b.iter().map(|x| format!("{:02x}", x)).collect()
}

fn from_hex(s: &str) -> Vec<u8> {
    (0..s.len() / 2)
        .map(|i| u8::from_str_radix(&s[2 * i..2 * i + 2], 16).unwrap())
        .collect()
}

fn counting_salt() -> [u8; 32] {
    let mut s = [0u8; 32];
    for (i, b) in s.iter_mut().enumerate() {
        *b = i as u8;
    }
    s
}

#[test]
fn sha256_password_known_answer() {
    assert_eq!(
        to_hex(&sha256_hash_password("abc")),
        "ba7816bf8f01cfea414140de5dae2223b00361a396177a9cb410ff61f20015ad"
    );
}

#[test]
fn kek_verifier_known_answer() {
    assert_eq!(
        to_hex(&kek_verifier(&[0u8; 32])),
        "2f9aa56ec85bee002687e4d3053795767979bf7a6ef7bc566ad1a1f521ada420"
    );
    assert_eq!(
        to_hex(&kek_verifier(&[7u8; 32])),
        "8c82d071b0171151c7f412b9e415271a41878510e02b8f88098dbe3e0eb40892"
    );
}

#[test]
fn scrypt_known_answer() {
    let kek = scrypt_kek_key_derivation("secret", counting_salt());
    assert_eq!(to_hex(&kek), "eca71f73ab0369bf9ccac4fc5e31a5cda4c70b64bd27f7a1d0588851bbea6845");
}

#[test]
fn storage_is_salt_then_tag() {
    let salt = counting_salt();
    let kek = [7u8; 32];
    let content = kek_salt_storage(salt, &kek);
    assert_eq!(content.len(), 64);
    assert_eq!(&content[..32], &salt[..]);
    assert_eq!(content[32..].to_vec(), kek_verifier(&kek).to_vec());
}

#[test]
fn init_then_load_roundtrip() {
    let (kek, content) = init_kek_salt("pw\n");
    assert_eq!(content.len(), 64);
    assert_eq!(load_kek_salt("pw\n", &content), Ok(kek));
}

#[test]
fn load_known_key_file_and_wrong_password() {
    let mut content = counting_salt().to_vec();
    content.extend_from_slice(&from_hex(
        "e58e7bf14371ebb274692588cb248f4e6ff176bd94fd3f757a147cf79d4d35cb",
    ));
    assert_eq!(load_kek_salt("other", &content), Err(CryptSplitError::WrongPassword));
}

#[test]
fn load_known_key_file() {
    let mut content = counting_salt().to_vec();
    content.extend_from_slice(&from_hex(
        "e58e7bf14371ebb274692588cb248f4e6ff176bd94fd3f757a147cf79d4d35cb",
    ));
    let kek = load_kek_salt("pw", &content).unwrap();
    assert_eq!(to_hex(&kek), "0de1c9ad274d1a8ec17474a9eebf4deb82a19f4f1f238445873d30fdbd34b814");
}

#[test]
fn load_rejects_short_files() {
    assert_eq!(load_kek_salt("pw", &[0u8; 31]), Err(CryptSplitError::KeyFileTooShort));
    assert_eq!(load_kek_salt("pw", &[0u8; 40]), Err(CryptSplitError::VerificationTagMissing));
}

#[test]
fn load_ignores_trailing_bytes() {
    let salt = counting_salt();
    let kek = scrypt_kek_key_derivation("pw", salt);
    let mut content = kek_salt_storage(salt, &kek);
    content.extend_from_slice(b"trailing");
    assert_eq!(load_kek_salt("pw", &content), Ok(kek));
}

#[test]
fn wrap_known_answer_and_unwrap() {
    let kek = [7u8; 32];
    let dek = counting_salt();
    let wrapped = wrap_dek_key(&kek, &dek).unwrap();
    assert_eq!(
        to_hex(&wrapped),
        "29921336a932e6ab467b5a3cf018447ae2d188f2962d5ec7631aad527a285334b26316c75aeb697b"
    );
    assert_eq!(unwrap_key(&kek, &wrapped), Ok(dek));
    assert_eq!(unwrap_key_checked(&kek, &wrapped), Some(Ok(dek)));
}

#[test]
fn unwrap_failures() {
    let kek = [7u8; 32];
    let wrapped = wrap_dek_key(&kek, &counting_salt()).unwrap();
    assert_eq!(unwrap_key(&[8u8; 32], &wrapped), Err(CryptSplitError::KeyUnwrapFailed));
    assert_eq!(unwrap_key(&kek, &wrapped[..39]), Err(CryptSplitError::KeyUnwrapFailed));
    assert_eq!(unwrap_key_checked(&kek, &[1u8; 48]), Some(Err(CryptSplitError::KeyUnwrapFailed)));
}

#[test]
fn unwrap_checked_flags_other_key_lengths() {
    // A correctly wrapped 16-byte key unwraps to 16 bytes, which a 32-byte key cannot hold.
    let kek = [7u8; 32];
    let wrapped16 = aes_kw::KekAes256::from(kek).wrap_vec(&[5u8; 16]).unwrap();
    assert_eq!(unwrap_key_checked(&kek, &wrapped16), None);
}

#[test]
fn random_keys_differ() {
    assert_ne!(generate_salt(), generate_salt());
    assert_ne!(generate_dek(), generate_dek());
}

use crypt_split::cli::{
    cli_encrypt_and_distribute, cli_encrypt_and_split, cli_encrypt_and_split_checked, cli_reconstruct,
};
use crypt_split::cloud::LocalCloudConfig;
use crypt_split::error::CryptSplitError;
use crypt_split::split::chunk_file_name;

/// Key file for the password "pw": salt 0, 1, ..., 31 followed by the tag of the derived key.
fn key_file_for_pw() -> Vec<u8> {
    let hex = "000102030405060708090a0b0c0d0e0f101112131415161718191a1b1c1d1e1f\
               e58e7bf14371ebb274692588cb248f4e6ff176bd94fd3f757a147cf79d4d35cb";
    let hex: String = hex.split_whitespace().collect();
    (0..hex.len() / 2)
        .map(|i| u8::from_str_radix(&hex[2 * i..2 * i + 2], 16).unwrap())
        .collect()
}

#[test]
fn encrypt_then_reconstruct_gives_input() {
    let key_file = key_file_for_pw();
    let input: Vec<u8> = (0..9000u32).map(|i| (i * 7 % 256) as u8).collect();
    let out = cli_encrypt_and_split("pw", &key_file, &input, "data.bin".to_string(), "chunks").unwrap();
    let wrapped = out.file_data.wrapped_dek.clone().unwrap();
    assert_eq!(wrapped.len(), 80);
    assert_eq!(out.chunk_contents.len(), 3);
    let back = cli_reconstruct("pw", &key_file, &out.file_data, &out.chunk_contents);
    assert_eq!(back, Ok(input));
}

#[test]
fn encrypt_with_wrong_password_fails() {
    let key_file = key_file_for_pw();
    assert!(matches!(
        cli_encrypt_and_split("nope", &key_file, b"x", "x".to_string(), "chunks"),
        Err(CryptSplitError::WrongPassword)
    ));
    assert!(matches!(
        cli_encrypt_and_split("pw", &key_file[..10], b"x", "x".to_string(), "chunks"),
        Err(CryptSplitError::KeyFileTooShort)
    ));
}

#[test]
fn reconstruct_with_bad_wrapped_key() {
    let key_file = key_file_for_pw();
    let mut out = cli_encrypt_and_split("pw", &key_file, b"hello", "h".to_string(), "chunks").unwrap();
    out.file_data.wrapped_dek = Some("xyz".to_string());
    assert_eq!(
        cli_reconstruct("pw", &key_file, &out.file_data, &out.chunk_contents),
        Err(CryptSplitError::InvalidWrappedKey(crypt_split::hex_codec::HexError::OddLength))
    );
}

#[test]
fn reconstruct_with_foreign_wrapped_key() {
    let key_file = key_file_for_pw();
    let mut out = cli_encrypt_and_split("pw", &key_file, b"hello", "h".to_string(), "chunks").unwrap();
    out.file_data.wrapped_dek = Some("00".repeat(40));
    assert_eq!(
        cli_reconstruct("pw", &key_file, &out.file_data, &out.chunk_contents),
        Err(CryptSplitError::KeyUnwrapFailed)
    );
}

#[test]
fn encrypt_and_distribute_places_every_chunk() {
    let key_file = key_file_for_pw();
    let config = LocalCloudConfig { local_cloud_paths: vec!["/a".to_string(), "/b".to_string()] };
    let input = vec![42u8; 5000];
    let up = cli_encrypt_and_distribute("pw", &key_file, &input, "f".to_string(), "chunks", &config)
        .unwrap()
        .unwrap();
    assert_eq!(up.moves.len(), 2);
    assert_eq!(up.distributed.chunks.len(), 2);
    for (i, c) in up.distributed.chunks.iter().enumerate() {
        assert!(c.cloud_path.as_deref() == Some("/a") || c.cloud_path.as_deref() == Some("/b"));
        assert_eq!(c.cloud_path.as_ref(), Some(&up.moves[i].target_folder));
        assert_eq!(up.split.file_data.chunks[i].cloud_path, None);
        assert_eq!(
            up.moves[i].source_name,
            chunk_file_name(&up.split.file_data.chunks[i], &up.split.chunks_dir)
        );
        assert_eq!(up.moves[i].target_name, chunk_file_name(c, &up.moves[i].target_folder));
    }
    assert_eq!(up.distributed.wrapped_dek, up.split.file_data.wrapped_dek);
    let back = cli_reconstruct("pw", &key_file, &up.distributed, &up.split.chunk_contents);
    assert_eq!(back, Ok(input));
}

#[test]
fn encrypt_and_distribute_without_folders() {
    let key_file = key_file_for_pw();
    let empty = LocalCloudConfig { local_cloud_paths: Vec::new() };
    assert!(matches!(
        cli_encrypt_and_distribute("pw", &key_file, b"x", "f".to_string(), "chunks", &empty),
        Some(Err(CryptSplitError::NoCloudPaths))
    ));
}

#[test]
fn reconstruct_without_wrapped_key_or_with_short_nonce() {
    let key_file = key_file_for_pw();
    let mut out = cli_encrypt_and_split("pw", &key_file, b"hello", "h".to_string(), "chunks").unwrap();
    let wrapped = out.file_data.wrapped_dek.take();
    assert_eq!(
        cli_reconstruct("pw", &key_file, &out.file_data, &out.chunk_contents),
        Err(CryptSplitError::MissingWrappedKey)
    );
    out.file_data.wrapped_dek = wrapped;
    out.file_data.nonce = "0001".to_string();
    assert_eq!(
        cli_reconstruct("pw", &key_file, &out.file_data, &out.chunk_contents),
        Err(CryptSplitError::NonceLength)
    );
}

#[test]
fn reconstruct_with_wrong_password_reports_it_first() {
    let key_file = key_file_for_pw();
    let fd = crypt_split::split::FileData {
        file_name: "f".to_string(),
        chunks: Vec::new(),
        hash_first_block: None,
        nonce: "0001".to_string(),
        wrapped_dek: None,
        aad: String::new(),
    };
    assert_eq!(
        cli_reconstruct("wrong", &key_file, &fd, &Vec::new()),
        Err(CryptSplitError::WrongPassword)
    );
}

#[test]
fn checked_encryption_of_small_file() {
    let key_file = key_file_for_pw();
    assert!(matches!(
        cli_encrypt_and_split_checked("nope", &key_file, b"x", "x".to_string(), "chunks"),
        Some(Err(CryptSplitError::WrongPassword))
    ));
}

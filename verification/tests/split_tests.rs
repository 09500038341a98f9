use crypt_split::error::CryptSplitError;
use crypt_split::hex_codec::HexError;
use crypt_split::split::{
    chunk_encrypted_data, chunk_file_name, hash_encrypted_data, join_path, nonce_length_ok,
    reconstruct_file, split_file, split_file_with, storage_path_hash, FileChunkMetaData, FileData,
};

fn from_hex(s: &str) -> Vec<u8> {
    (0..s.len() / 2)
        .map(|i| u8::from_str_radix(&s[2 * i..2 * i + 2], 16).unwrap())
        .collect()
}

fn is_lower_hex(s: &str) -> bool {
    s.chars().all(|c| c.is_ascii_digit() || ('a'..='f').contains(&c))
}

fn known_file_data() -> FileData {
    FileData {
        file_name: "name.txt".to_string(),
        chunks: Vec::new(),
        hash_first_block: None,
        nonce: "000102030405060708090a0b".to_string(),
        wrapped_dek: None,
        aad: "666f6c6465723a6e616d652e747874".to_string(),
    }
}

fn known_ciphertext() -> Vec<u8> {
    vec![
        44, 92, 115, 132, 116, 248, 40, 65, 213, 1, 110, 249, 68, 62, 229, 183, 20, 89, 155, 95,
        10, 89, 28, 71, 162, 56,
    ]
}

fn counting_key() -> [u8; 32] {
    let mut key = [0u8; 32];
    for (i, b) in key.iter_mut().enumerate() {
        *b = i as u8;
    }
    key
}

#[test]
fn test_encrypt_aes_siv() {
    let data = b"TO ENCRYPT";
    let key = counting_key();
    let out = split_file(data, "plain.txt".to_string(), "./chunks", &key);
    let restored = reconstruct_file(&key, &out.file_data, &out.chunk_contents).unwrap();
    assert_eq!(restored, data.to_vec());
}

#[test]
fn reconstruct_known_answer_decrypts() {
    let key = counting_key();
    let fd = known_file_data();
    let chunks = vec![known_ciphertext()[..10].to_vec(), known_ciphertext()[10..].to_vec()];
    assert!(nonce_length_ok(&fd));
    assert_eq!(reconstruct_file(&key, &fd, &chunks), Ok(b"TO ENCRYPT".to_vec()));
}

#[test]
fn reconstruct_detects_tampering() {
    let key = counting_key();
    let fd = known_file_data();
    let mut ct = known_ciphertext();
    ct[0] ^= 1;
    assert_eq!(reconstruct_file(&key, &fd, &vec![ct]), Err(CryptSplitError::DecryptionFailed));
}

#[test]
fn reconstruct_wrong_order_fails() {
    let key = counting_key();
    let fd = known_file_data();
    let chunks = vec![known_ciphertext()[10..].to_vec(), known_ciphertext()[..10].to_vec()];
    assert_eq!(reconstruct_file(&key, &fd, &chunks), Err(CryptSplitError::DecryptionFailed));
}

#[test]
fn reconstruct_rejects_bad_hex() {
    let key = counting_key();
    let mut fd = known_file_data();
    fd.nonce = "abc".to_string();
    assert!(nonce_length_ok(&fd));
    assert_eq!(
        reconstruct_file(&key, &fd, &vec![known_ciphertext()]),
        Err(CryptSplitError::InvalidNonce(HexError::OddLength))
    );
    let mut fd = known_file_data();
    fd.aad = "zz".to_string();
    assert_eq!(
        reconstruct_file(&key, &fd, &vec![known_ciphertext()]),
        Err(CryptSplitError::InvalidAad(HexError::InvalidHexCharacter))
    );
}

#[test]
fn nonce_of_wrong_length_is_flagged() {
    let mut fd = known_file_data();
    fd.nonce = "0001".to_string();
    assert!(!nonce_length_ok(&fd));
}

#[test]
fn chunk_hash_known_answer() {
    let chunk_hex = "000102ff".to_string();
    assert_eq!(
        hash_encrypted_data(&chunk_hex),
        "ead04d20b3ca8a0afbecb8e0eab443e815417966ac45ce1ba58150c0140d247d"
    );
}

#[test]
fn chunking_sizes_and_chain() {
    let data: Vec<u8> = (0..10000u32).map(|i| (i % 251) as u8).collect();
    let seed = "seed".to_string();
    let (chunks, contents, first) = chunk_encrypted_data(&data, &seed);
    assert_eq!(chunks.len(), 3);
    assert_eq!(contents.iter().map(|c| c.len()).collect::<Vec<_>>(), vec![4096, 4096, 1808]);
    assert_eq!(contents.concat(), data);
    assert_eq!(chunks[0].previous_chunk_hash, "seed");
    assert_eq!(chunks[1].previous_chunk_hash, chunks[0].chunk_hash);
    assert_eq!(chunks[2].previous_chunk_hash, chunks[1].chunk_hash);
    assert_eq!(first, Some(chunks[0].chunk_hash.clone()));
    for (i, c) in chunks.iter().enumerate() {
        assert_eq!(c.index, i);
        assert_eq!(c.cloud_path, None);
        assert_eq!(c.chunk_hash.len(), 64);
        assert!(is_lower_hex(&c.chunk_hash));
    }
}

#[test]
fn chunking_exact_multiple_and_empty() {
    let data = vec![9u8; 8192];
    let (chunks, contents, _) = chunk_encrypted_data(&data, &"s".to_string());
    assert_eq!(chunks.len(), 2);
    assert_eq!(contents[1].len(), 4096);
    let (chunks, contents, first) = chunk_encrypted_data(&[], &"s".to_string());
    assert!(chunks.is_empty());
    assert!(contents.is_empty());
    assert_eq!(first, None);
}

#[test]
fn chunk_file_name_joins_hashes() {
    let meta = FileChunkMetaData {
        index: 0,
        cloud_path: None,
        chunk_hash: "aa".to_string(),
        previous_chunk_hash: "bb".to_string(),
    };
    assert_eq!(
        chunk_file_name(&meta, "chunks"),
        "aa_bb_903998a13c26111438bcdf5ccf829e38beea39f5c240f35fb2f398d206dedd10"
    );
}

#[test]
fn path_hash_known_answer() {
    assert_eq!(
        storage_path_hash("/only"),
        "3593e7110948f98430df98371e4dd93f2bd166fd0333bc0e16a06425a2ce8470"
    );
}

#[test]
fn join_path_cases() {
    assert_eq!(join_path("", "x"), "x");
    assert_eq!(join_path("out", "x"), "out/x");
    assert_eq!(join_path("out/", "x"), "out/x");
    assert_eq!(join_path("/", "x"), "/x");
}

#[test]
fn split_file_with_known_answer() {
    let key = counting_key();
    let out = split_file_with(
        b"hello world",
        "f.txt".to_string(),
        "out",
        &key,
        "67e55044-10b1-426f-9247-bb680e5fe0c8",
        [9u8; 12],
        [1u8; 32],
    );
    assert_eq!(out.output_folder, "67e5504410b1426f9247bb680e5fe0c8");
    assert_eq!(out.chunks_dir, "out/67e5504410b1426f9247bb680e5fe0c8");
    assert_eq!(out.chunk_contents, vec![from_hex("fefdf846f9ec667ddd5367453680a11d957c33d102deb262429b2a")]);
    let fd = &out.file_data;
    assert_eq!(fd.nonce, "090909090909090909090909");
    assert_eq!(
        fd.aad,
        "36376535353034343130623134323666393234376262363830653566653063383a662e747874"
    );
    let seed_hex = "01".repeat(32);
    let chunk_hash = "653ef40e0ee12bcd50a182e3506183fdbcab25fb141e34f2f4230743c3f64005";
    assert_eq!(fd.chunks[0].chunk_hash, chunk_hash);
    assert_eq!(fd.chunks[0].previous_chunk_hash, seed_hex);
    assert_eq!(fd.hash_first_block.as_deref(), Some(chunk_hash));
    let name = chunk_file_name(&fd.chunks[0], &out.chunks_dir);
    assert_eq!(name.len(), 194);
    assert_eq!(
        name,
        format!(
            "{}_{}_{}",
            chunk_hash, seed_hex, "7991513c4fdfa141a78b86a4a12854cf22ea9a129a7bd6a6c5d463640ba38da7"
        )
    );
}

#[test]
fn split_file_shape() {
    let key = counting_key();
    let input = vec![1u8; 5000];
    let out = split_file(&input, "doc.pdf".to_string(), "out/", &key);
    assert_eq!(out.output_folder.len(), 32);
    assert!(is_lower_hex(&out.output_folder));
    assert_eq!(out.chunks_dir, format!("out/{}", out.output_folder));
    for meta in out.file_data.chunks.iter() {
        let name = chunk_file_name(meta, &out.chunks_dir);
        assert_eq!(name.len(), 194);
        assert_eq!(&name[..64], meta.chunk_hash);
        assert_eq!(&name[65..129], meta.previous_chunk_hash);
        assert_eq!(&name[130..], storage_path_hash(&out.chunks_dir));
    }
    let fd = &out.file_data;
    assert_eq!(fd.file_name, "doc.pdf");
    assert_eq!(fd.wrapped_dek, None);
    assert_eq!(fd.nonce.len(), 24);
    assert!(is_lower_hex(&fd.nonce));
    let aad = from_hex(&fd.aad);
    assert_eq!(aad, format!("{}:doc.pdf", out.output_folder).into_bytes());
    assert_eq!(fd.chunks.len(), 2);
    assert_eq!(out.chunk_contents.len(), 2);
    assert_eq!(out.chunk_contents[0].len(), 4096);
    assert_eq!(out.chunk_contents[1].len(), 5016 - 4096);
    assert_eq!(fd.chunks[0].previous_chunk_hash.len(), 64);
    assert_eq!(fd.hash_first_block, Some(fd.chunks[0].chunk_hash.clone()));
    assert_eq!(fd.chunks[1].previous_chunk_hash, fd.chunks[0].chunk_hash);
    let chunk0_hex: String = out.chunk_contents[0].iter().map(|b| format!("{:02x}", b)).collect();
    assert_eq!(fd.chunks[0].chunk_hash, hash_encrypted_data(&chunk0_hex));
    assert_ne!(out.chunk_contents.concat()[..5000].to_vec(), input);
    assert_eq!(reconstruct_file(&key, fd, &out.chunk_contents), Ok(input));
}

#[test]
fn split_file_of_empty_input_has_one_chunk() {
    let key = counting_key();
    let out = split_file(&[], "empty".to_string(), "", &key);
    assert_eq!(out.chunk_contents.len(), 1);
    assert_eq!(out.chunk_contents[0].len(), 16);
    assert_eq!(reconstruct_file(&key, &out.file_data, &out.chunk_contents), Ok(Vec::new()));
}

#[test]
fn reconstruct_with_other_key_fails() {
    let key = counting_key();
    let out = split_file(b"secret data", "f".to_string(), "o", &key);
    let other = [3u8; 32];
    assert_eq!(
        reconstruct_file(&other, &out.file_data, &out.chunk_contents),
        Err(CryptSplitError::DecryptionFailed)
    );
}

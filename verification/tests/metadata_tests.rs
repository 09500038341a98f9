use crypt_split::metadata::{
    decimal_string, file_data_from_fields, file_name_from_key, file_names_from_keys,
    record_fields_of, record_key, requested_fields,
};
use crypt_split::split::{FileChunkMetaData, FileData};

fn sample() -> FileData {
    FileData {
        file_name: "a.txt".to_string(),
        chunks: vec![FileChunkMetaData {
            index: 0,
            cloud_path: None,
            chunk_hash: "h".to_string(),
            previous_chunk_hash: "p".to_string(),
        }],
        hash_first_block: Some("h".to_string()),
        nonce: "00".to_string(),
        wrapped_dek: None,
        aad: "61".to_string(),
    }
}

#[test]
fn decimal_strings() {
    assert_eq!(decimal_string(0), "0");
    assert_eq!(decimal_string(7), "7");
    assert_eq!(decimal_string(10), "10");
    assert_eq!(decimal_string(12345), "12345");
    assert_eq!(decimal_string(usize::MAX), usize::MAX.to_string());
}

#[test]
fn keys_and_names() {
    assert_eq!(record_key("a.txt"), "file:a.txt");
    assert_eq!(file_name_from_key("file:a.txt"), "a.txt");
    assert_eq!(file_name_from_key("file:"), "");
    assert_eq!(file_name_from_key("other"), "other");
    assert_eq!(file_name_from_key("fil"), "fil");
    assert_eq!(file_name_from_key(&record_key("ä b")), "ä b");
    let keys = vec!["file:x".to_string(), "y".to_string()];
    assert_eq!(file_names_from_keys(&keys), vec!["x".to_string(), "y".to_string()]);
}

#[test]
fn record_fields_in_order() {
    let fields = record_fields_of(&sample(), "[]".to_string());
    let expected: Vec<(String, String)> = vec![
        ("origin_block_hash", "h"),
        ("nonce", "00"),
        ("chunks_count", "1"),
        ("wrapped_dek", ""),
        ("aad", "61"),
        ("chunks", "[]"),
    ]
    .into_iter()
    .map(|(a, b)| (a.to_string(), b.to_string()))
    .collect();
    assert_eq!(fields, expected);
}

#[test]
fn record_roundtrip_through_fields() {
    let fd = sample();
    let fields = record_fields_of(&fd, "[]".to_string());
    let names = requested_fields();
    let values: Vec<String> = names
        .iter()
        .map(|n| fields.iter().find(|(k, _)| k == n).unwrap().1.clone())
        .collect();
    let back = file_data_from_fields("a.txt", &values, fd.chunks.clone());
    assert_eq!(back.file_name, fd.file_name);
    assert_eq!(back.hash_first_block, fd.hash_first_block);
    assert_eq!(back.nonce, fd.nonce);
    assert_eq!(back.aad, fd.aad);
    assert_eq!(back.wrapped_dek, Some(String::new()));
    assert_eq!(back.chunks.len(), 1);
}

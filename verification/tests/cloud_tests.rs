use crypt_split::cloud::{choose_random_folder, delete_tmp_chunks, disitribute_file_chunks, LocalCloudConfig};
use crypt_split::error::CryptSplitError;
use crypt_split::split::FileChunkMetaData;

fn meta(index: usize, hash: &str, prev: &str) -> FileChunkMetaData {
    FileChunkMetaData {
        index,
        cloud_path: None,
        chunk_hash: hash.to_string(),
        previous_chunk_hash: prev.to_string(),
    }
}

fn config(paths: &[&str]) -> LocalCloudConfig {
    LocalCloudConfig { local_cloud_paths: paths.iter().map(|p| p.to_string()).collect() }
}

#[test]
fn choose_folder_from_config() {
    let cfg = config(&["/c1", "/c2", "/c3"]);
    for _ in 0..20 {
        let f = choose_random_folder(&cfg).unwrap();
        assert!(cfg.local_cloud_paths.contains(&f));
    }
    assert_eq!(choose_random_folder(&config(&[])), Err(CryptSplitError::NoCloudPaths));
}

#[test]
fn distribute_assigns_folders_and_names() {
    let cfg = config(&["/only"]);
    let mut chunks = vec![meta(0, "h0", "seed"), meta(1, "h1", "h0"), meta(2, "h2", "")];
    let moves = disitribute_file_chunks(&cfg, "chunks", &mut chunks).unwrap();
    let chunks_hash = "903998a13c26111438bcdf5ccf829e38beea39f5c240f35fb2f398d206dedd10";
    let only_hash = "3593e7110948f98430df98371e4dd93f2bd166fd0333bc0e16a06425a2ce8470";
    assert_eq!(moves.len(), 3);
    assert_eq!(moves[0].source_name, format!("h0_seed_{}", chunks_hash));
    assert_eq!(moves[0].target_name, format!("h0_seed_{}", only_hash));
    assert_eq!(moves[1].source_name, format!("h1_h0_{}", chunks_hash));
    assert_eq!(moves[2].source_name, format!("h2_{}", chunks_hash));
    assert_eq!(moves[2].target_name, format!("h2_{}", only_hash));
    for (i, c) in chunks.iter().enumerate() {
        assert_eq!(c.cloud_path.as_deref(), Some("/only"));
        assert_eq!(moves[i].target_folder, "/only");
        assert_eq!(c.index, i);
    }
    assert_eq!(chunks[1].chunk_hash, "h1");
    assert_eq!(chunks[1].previous_chunk_hash, "h0");
}

#[test]
fn distribute_without_folders() {
    let mut chunks = vec![meta(0, "h0", "seed")];
    assert_eq!(
        disitribute_file_chunks(&config(&[]), "chunks", &mut chunks).err(),
        Some(CryptSplitError::NoCloudPaths)
    );
    assert_eq!(chunks[0].cloud_path, None);
    let mut none: Vec<FileChunkMetaData> = Vec::new();
    assert_eq!(disitribute_file_chunks(&config(&[]), "chunks", &mut none).unwrap().len(), 0);
}

#[test]
fn delete_tmp_chunks_does_nothing() {
    delete_tmp_chunks();
}

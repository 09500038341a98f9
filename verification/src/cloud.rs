//! Distribution of chunks over locally mounted cloud folders.

use crate::crypto::{draw_index, DrawnIndex};
use crate::error::CryptSplitError;
use crate::split::{
    chunk_file_name, chunk_name_text, chunk_views, is_split_of, lemma_split_chunk_name,
    path_hash_text, storage_path_hash, ChunkMetaView, FileChunkMetaData, SplitView,
};
use vstd::prelude::*;

verus! {

/// The cloud folders that chunks may be moved to.
pub struct LocalCloudConfig {
    pub local_cloud_paths: Vec<String>,
}

impl LocalCloudConfig {
    /// The configured folders as texts.
    pub open spec fn folders(&self) -> Seq<Seq<char>> {
        self.local_cloud_paths@.map_values(|s: String| s@)
    }
}

/// Whether `folder` is one of the configured folders.
pub open spec fn is_configured_folder(config: &LocalCloudConfig, folder: Seq<char>) -> bool {
    exists|i: int| 0 <= i < config.folders().len() && #[trigger] config.folders()[i] == folder
}

/// The name of a chunk's file in `folder` when it is moved: `hash_pathhash`
/// when it records no predecessor, `hash_previoushash_pathhash` otherwise,
/// where `pathhash` is the hash of the folder's path.
pub open spec fn distribution_name_text(meta: ChunkMetaView, folder: Seq<char>) -> Seq<char> {
    if meta.previous_chunk_hash.len() == 0 {
        meta.chunk_hash.push('_') + path_hash_text(folder)
    } else {
        chunk_name_text(meta, folder)
    }
}

/// A chunk's metadata after it was moved to `folder`.
pub open spec fn placed_in(meta: ChunkMetaView, folder: Seq<char>) -> ChunkMetaView {
    ChunkMetaView { cloud_path: Some(folder), ..meta }
}

/// One file move: the chunk file `source_name` in the chunk folder becomes
/// the file `target_name` in `target_folder`, the configured folder at the
/// index `folder_draw` that the random generator drew.
pub struct ChunkMove {
    pub source_name: String,
    pub target_name: String,
    pub target_folder: String,
    pub folder_draw: DrawnIndex,
}

/// Whether `folder` is the configured folder at the index of `draw`, and
/// `draw` was drawn over all configured folders.
pub open spec fn is_drawn_folder(config: &LocalCloudConfig, draw: DrawnIndex, folder: Seq<char>) -> bool {
    &&& draw.drawn_bound() == config.local_cloud_paths@.len()
    &&& draw.drawn_index() < config.local_cloud_paths@.len()
    &&& folder == config.folders()[draw.drawn_index() as int]
}

/// `after` is `before` with every chunk placed into the target folder of the
/// corresponding move; each move names its chunk's file in the chunk folder
/// `chunks_folder`, a configured folder, and the chunk's file name there.
pub open spec fn is_distribution(
    config: &LocalCloudConfig,
    chunks_folder: Seq<char>,
    before: Seq<ChunkMetaView>,
    after: Seq<ChunkMetaView>,
    moves: Seq<ChunkMove>,
) -> bool {
    &&& moves.len() == before.len()
    &&& after.len() == before.len()
    &&& forall|i: int|
        0 <= i < moves.len() ==> {
            &&& (#[trigger] moves[i]).source_name@ == distribution_name_text(
                before[i],
                chunks_folder,
            )
            &&& moves[i].target_name@ == distribution_name_text(before[i], moves[i].target_folder@)
            &&& is_configured_folder(config, moves[i].target_folder@)
            &&& is_drawn_folder(config, moves[i].folder_draw, moves[i].target_folder@)
            &&& after[i] == placed_in(before[i], moves[i].target_folder@)
        }
}

/// Temporary chunk folders are not cleaned up; this does nothing.
pub fn delete_tmp_chunks() {
}

/// The configured folder at an index drawn uniformly over all configured
/// folders, with the draw; an error when none is configured.
pub fn draw_folder(configs: &LocalCloudConfig) -> (res: Result<(String, DrawnIndex), CryptSplitError>)
    ensures
        configs.local_cloud_paths@.len() == 0 <==> res is Err,
        res matches Err(e) ==> e == CryptSplitError::NoCloudPaths,
        res matches Ok((folder, draw)) ==> is_drawn_folder(configs, draw, folder@),
{
    let paths = &configs.local_cloud_paths;
    if paths.len() == 0 {
        return Err(CryptSplitError::NoCloudPaths);
    }
    let draw = draw_index(paths.len());
    let folder = paths[draw.index()].clone();
    Ok((folder, draw))
}

/// A randomly chosen configured folder (that of `draw_folder`); an error
/// when none is configured.
pub fn choose_random_folder(configs: &LocalCloudConfig) -> (res: Result<String, CryptSplitError>)
    ensures
        configs.local_cloud_paths@.len() == 0 <==> res is Err,
        res matches Err(e) ==> e == CryptSplitError::NoCloudPaths,
        res matches Ok(folder) ==> is_configured_folder(configs, folder@),
{
    match draw_folder(configs) {
        Ok((folder, draw)) => {
            assert(configs.folders()[draw.drawn_index() as int] == folder@);
            Ok(folder)
        },
        Err(e) => Err(e),
    }
}

/// The name of a chunk's file in `folder` when it is moved.
pub fn distribution_file_name(meta: &FileChunkMetaData, folder: &str) -> (name: String)
    ensures
        name@ == distribution_name_text(meta@, folder@),
{
    if meta.previous_chunk_hash.unicode_len() == 0 {
        let mut name = meta.chunk_hash.clone();
        name.push('_');
        let path_hash = storage_path_hash(folder);
        name.append(path_hash.as_str());
        name
    } else {
        chunk_file_name(meta, folder)
    }
}

/// Chooses a random configured folder for every chunk, records it as the
/// chunk's cloud path and returns the file moves to perform, in chunk order.
/// Fails, leaving the metadata unchanged, when there are chunks but no folder.
pub fn disitribute_file_chunks(
    config: &LocalCloudConfig,
    chunks_folder_path: &str,
    chunk_metadata: &mut Vec<FileChunkMetaData>,
) -> (res: Result<Vec<ChunkMove>, CryptSplitError>)
    ensures
        res is Err <==> (old(chunk_metadata)@.len() > 0 && config.local_cloud_paths@.len() == 0),
        res matches Err(e) ==> e == CryptSplitError::NoCloudPaths && final(chunk_metadata)@
            == old(chunk_metadata)@,
        res matches Ok(moves) ==> is_distribution(
            config,
            chunks_folder_path@,
            chunk_views(old(chunk_metadata)@),
            chunk_views(final(chunk_metadata)@),
            moves@,
        ),
{
    let n = chunk_metadata.len();
    let mut moves: Vec<ChunkMove> = Vec::new();
    let mut updated: Vec<FileChunkMetaData> = Vec::new();
    let mut i: usize = 0;
    while i < n
        invariant
            n == chunk_metadata@.len(),
            chunk_metadata@ == old(chunk_metadata)@,
            i <= n,
            n > 0 ==> config.local_cloud_paths@.len() > 0 || i == 0,
            moves@.len() == i,
            updated@.len() == i,
            forall|j: int|
                0 <= j < i ==> {
                    &&& (#[trigger] moves@[j]).source_name@ == distribution_name_text(
                        chunk_metadata@[j]@,
                        chunks_folder_path@,
                    )
                    &&& moves@[j].target_name@ == distribution_name_text(
                        chunk_metadata@[j]@,
                        moves@[j].target_folder@,
                    )
                    &&& is_configured_folder(config, moves@[j].target_folder@)
                    &&& is_drawn_folder(config, moves@[j].folder_draw, moves@[j].target_folder@)
                    &&& updated@[j]@ == placed_in(chunk_metadata@[j]@, moves@[j].target_folder@)
                },
        decreases n - i,
    {
        let (target_folder, folder_draw) = match draw_folder(config) {
            Ok(drawn) => drawn,
            Err(e) => {
                return Err(e);
            },
        };
        assert(config.folders()[folder_draw.drawn_index() as int] == target_folder@);
        let chunk = &chunk_metadata[i];
        let source_name = distribution_file_name(chunk, chunks_folder_path);
        let target_name = distribution_file_name(chunk, target_folder.as_str());
        let moved = FileChunkMetaData {
            index: chunk.index,
            cloud_path: Some(target_folder.clone()),
            chunk_hash: chunk.chunk_hash.clone(),
            previous_chunk_hash: chunk.previous_chunk_hash.clone(),
        };
        assert(moved@ == placed_in(chunk@, target_folder@));
        updated.push(moved);
        moves.push(ChunkMove { source_name, target_name, target_folder, folder_draw });
        i = i + 1;
    }
    *chunk_metadata = updated;
    assert(is_distribution(
        config,
        chunks_folder_path@,
        chunk_views(old(chunk_metadata)@),
        chunk_views(chunk_metadata@),
        moves@,
    ));
    Ok(moves)
}

/// Every chunk of a split file records a predecessor hash, so distribution
/// looks for it in the chunk folder under the name that splitting gave its
/// file, and names it in the same way in its new folder.
pub proof fn lemma_split_chunks_found_by_distribution(
    input: Seq<u8>,
    file_name: Seq<char>,
    output_path: Seq<char>,
    key: Seq<u8>,
    out: SplitView,
    i: int,
    folder: Seq<char>,
)
    requires
        is_split_of(input, file_name, output_path, key, out),
        0 <= i < out.file_data.chunks.len(),
    ensures
        distribution_name_text(out.file_data.chunks[i], folder) == chunk_name_text(
            out.file_data.chunks[i],
            folder,
        ),
{
    lemma_split_chunk_name(input, file_name, output_path, key, out, i);
}

/// Every chunk of a distribution lands in the configured folder whose index
/// the random generator drew for it, over the full range of configured
/// folders (the last one included); nothing else of the chunk changes.
pub proof fn lemma_chunk_lands_in_drawn_folder(
    config: &LocalCloudConfig,
    chunks_folder: Seq<char>,
    before: Seq<ChunkMetaView>,
    after: Seq<ChunkMetaView>,
    moves: Seq<ChunkMove>,
    i: int,
)
    requires
        is_distribution(config, chunks_folder, before, after, moves),
        0 <= i < moves.len(),
    ensures
        moves[i].folder_draw.drawn_bound() == config.local_cloud_paths@.len(),
        moves[i].folder_draw.drawn_index() < config.local_cloud_paths@.len(),
        after[i].cloud_path == Some(config.local_cloud_paths@[moves[i].folder_draw.drawn_index() as int]@),
        after[i].index == before[i].index,
        after[i].chunk_hash == before[i].chunk_hash,
        after[i].previous_chunk_hash == before[i].previous_chunk_hash,
{
}

} // verus!

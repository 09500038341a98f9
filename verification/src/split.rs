//! Encryption of a file and its division into hash-chained 4 KiB chunks, and
//! the reverse: joining the chunks and decrypting them.

use crate::crypto::{
    aes_gcm_siv_decrypt, aes_gcm_siv_encrypt, decrypt_with_aes_gcm_siv, draw_bytes, draw_uuid_text,
    encrypt_with_aes_gcm_siv, is_hyphenated_uuid, sha256, sha256_digest, Drawn, DrawnKey, AEAD_MAX_LEN, AEAD_TAG_LEN,
};
use crate::error::CryptSplitError;
use crate::hex_codec::{hex_chars, hex_decode, hex_decoded, hex_encode};
use crate::text::{join_with, remove_hyphens, without_hyphens};
use vstd::prelude::*;
use vstd::slice::slice_to_vec;
use vstd::utf8::encode_utf8;

verus! {

/// Size of every chunk but the last.
pub const CHUNK_SIZE: usize = 4096;

/// Metadata of one chunk: its position, where it was distributed to, the
/// hash of its content and the hash of the chunk before it (for the first
/// chunk, a random seed).
#[derive(Debug, Clone)]
pub struct FileChunkMetaData {
    pub index: usize,
    pub cloud_path: Option<String>,
    pub chunk_hash: String,
    pub previous_chunk_hash: String,
}

/// Metadata of a split file: its name, its chunks, the hash of its first
/// chunk, the nonce and associated data of the encryption (both as
/// hexadecimal text) and, once set, the wrapped data-encryption key.
#[derive(Debug)]
pub struct FileData {
    pub file_name: String,
    pub chunks: Vec<FileChunkMetaData>,
    pub hash_first_block: Option<String>,
    pub nonce: String,
    pub wrapped_dek: Option<String>,
    pub aad: String,
}

/// The texts of a chunk's metadata.
pub struct ChunkMetaView {
    pub index: usize,
    pub cloud_path: Option<Seq<char>>,
    pub chunk_hash: Seq<char>,
    pub previous_chunk_hash: Seq<char>,
}

/// The texts of a file's metadata.
pub struct FileDataView {
    pub file_name: Seq<char>,
    pub chunks: Seq<ChunkMetaView>,
    pub hash_first_block: Option<Seq<char>>,
    pub nonce: Seq<char>,
    pub wrapped_dek: Option<Seq<char>>,
    pub aad: Seq<char>,
}

/// An optional text viewed as an optional character sequence.
pub open spec fn text_option(o: Option<String>) -> Option<Seq<char>> {
    match o {
        Some(s) => Some(s@),
        None => None,
    }
}

impl View for FileChunkMetaData {
    type V = ChunkMetaView;

    open spec fn view(&self) -> ChunkMetaView {
        ChunkMetaView {
            index: self.index,
            cloud_path: text_option(self.cloud_path),
            chunk_hash: self.chunk_hash@,
            previous_chunk_hash: self.previous_chunk_hash@,
        }
    }
}

/// The views of a list of chunk metadata.
pub open spec fn chunk_views(chunks: Seq<FileChunkMetaData>) -> Seq<ChunkMetaView> {
    chunks.map_values(|c: FileChunkMetaData| c@)
}

impl View for FileData {
    type V = FileDataView;

    open spec fn view(&self) -> FileDataView {
        FileDataView {
            file_name: self.file_name@,
            chunks: chunk_views(self.chunks@),
            hash_first_block: text_option(self.hash_first_block),
            nonce: self.nonce@,
            wrapped_dek: text_option(self.wrapped_dek),
            aad: self.aad@,
        }
    }
}

/// Number of chunks of a ciphertext of `len` bytes.
pub open spec fn chunk_count(len: nat) -> nat {
    ((len + 4095) / 4096) as nat
}

/// End of chunk `i` of a ciphertext of `len` bytes.
pub open spec fn chunk_end(len: nat, i: int) -> int {
    if (i + 1) * 4096 <= len {
        (i + 1) * 4096
    } else {
        len as int
    }
}

/// Chunk `i` of a ciphertext: the bytes from `4096 * i` up to the next
/// multiple of 4096 or the end.
pub open spec fn chunk_of(data: Seq<u8>, i: int) -> Seq<u8> {
    data.subrange(i * 4096, chunk_end(data.len(), i))
}

/// All chunks of a ciphertext, in order.
pub open spec fn chunks_of(data: Seq<u8>) -> Seq<Seq<u8>> {
    Seq::new(chunk_count(data.len()), |i: int| chunk_of(data, i))
}

/// The hash of a chunk: lower-case hex of the SHA-256 of its lower-case hex text.
pub open spec fn chunk_hash_text(chunk: Seq<u8>) -> Seq<char> {
    hex_chars(sha256(encode_utf8(hex_chars(chunk))))
}

/// The predecessor hash recorded for chunk `i`: the seed for the first chunk,
/// the hash of chunk `i - 1` otherwise.
pub open spec fn previous_hash_text(data: Seq<u8>, seed: Seq<char>, i: int) -> Seq<char> {
    if i == 0 {
        seed
    } else {
        chunk_hash_text(chunk_of(data, i - 1))
    }
}

/// The metadata recorded for chunk `i`.
pub open spec fn chunk_meta(data: Seq<u8>, seed: Seq<char>, i: int) -> ChunkMetaView {
    ChunkMetaView {
        index: i as usize,
        cloud_path: None,
        chunk_hash: chunk_hash_text(chunk_of(data, i)),
        previous_chunk_hash: previous_hash_text(data, seed, i),
    }
}

/// The metadata of all chunks of a ciphertext.
pub open spec fn chunk_metas(data: Seq<u8>, seed: Seq<char>) -> Seq<ChunkMetaView> {
    Seq::new(chunk_count(data.len()), |i: int| chunk_meta(data, seed, i))
}

/// The hash of the first chunk, if there is one.
pub open spec fn first_chunk_hash(data: Seq<u8>) -> Option<Seq<char>> {
    if data.len() > 0 {
        Some(chunk_hash_text(chunk_of(data, 0)))
    } else {
        None
    }
}

/// The hash of a storage path: lower-case hex of the SHA-256 of its UTF-8 text.
pub open spec fn path_hash_text(path: Seq<char>) -> Seq<char> {
    hex_chars(sha256(encode_utf8(path)))
}

/// The name of a chunk's file in the folder `folder`: its hash, `_`, its
/// predecessor's hash, `_`, the hash of the folder's path. With hashes of
/// fixed length, each part starts at a known position.
pub open spec fn chunk_name_text(meta: ChunkMetaView, folder: Seq<char>) -> Seq<char> {
    meta.chunk_hash.push('_') + meta.previous_chunk_hash.push('_') + path_hash_text(folder)
}

/// A path joined with a relative name, as on Unix: the name alone after an
/// empty path, appended directly after a trailing `/`, otherwise after a `/`.
pub open spec fn joined_path_text(base: Seq<char>, name: Seq<char>) -> Seq<char> {
    if base.len() == 0 {
        name
    } else if base.last() == '/' {
        base + name
    } else {
        base.push('/') + name
    }
}

/// Concatenation of byte strings, in order.
pub open spec fn joined(parts: Seq<Seq<u8>>) -> Seq<u8>
    decreases parts.len(),
{
    if parts.len() == 0 {
        Seq::empty()
    } else {
        joined(parts.drop_last()) + parts.last()
    }
}

/// The byte vectors of a list viewed as byte sequences.
pub open spec fn byte_views(parts: Seq<Vec<u8>>) -> Seq<Seq<u8>> {
    parts.map_values(|v: Vec<u8>| v@)
}

/// The associated data of a file's encryption: the UTF-8 text `folder:file_name`.
pub open spec fn aad_bytes(folder: Seq<char>, file_name: Seq<char>) -> Seq<u8> {
    encode_utf8(folder) + seq![58u8] + encode_utf8(file_name)
}

/// The random values of one split as the random sources gave them: the
/// UUID text, the nonce and the seed of the hash chain.
pub struct SplitDraws {
    pub uuid: Drawn<String>,
    pub nonce: Drawn<[u8; 12]>,
    pub seed: Drawn<[u8; 32]>,
}

/// A split file: its metadata, the name of its chunk folder, the path of
/// that folder, the chunk contents in the order of the metadata, and, when
/// the random values were drawn for it, those values, with the (wiped)
/// data-encryption key where that was drawn for it too.
pub struct SplitOutput {
    pub file_data: FileData,
    pub output_folder: String,
    pub chunks_dir: String,
    pub chunk_contents: Vec<Vec<u8>>,
    pub draws: Option<SplitDraws>,
    pub key_draw: Option<DrawnKey>,
}

/// `out` is the split of `input` with the random values `draws`.
pub open spec fn split_with_draws(
    input: Seq<u8>,
    file_name: Seq<char>,
    output_path: Seq<char>,
    key: Seq<u8>,
    out: SplitView,
    draws: SplitDraws,
) -> bool {
    split_with(
        input,
        file_name,
        output_path,
        key,
        out,
        draws.uuid.drawn()@,
        draws.nonce.drawn()@,
        draws.seed.drawn()@,
    )
}

/// The texts and bytes of a split file.
pub struct SplitView {
    pub file_data: FileDataView,
    pub output_folder: Seq<char>,
    pub chunks_dir: Seq<char>,
    pub chunk_contents: Seq<Seq<u8>>,
}

impl View for SplitOutput {
    type V = SplitView;

    open spec fn view(&self) -> SplitView {
        SplitView {
            file_data: self.file_data@,
            output_folder: self.output_folder@,
            chunks_dir: self.chunks_dir@,
            chunk_contents: byte_views(self.chunk_contents@),
        }
    }
}

/// The metadata of an encrypted file whose ciphertext is `encrypted`.
pub open spec fn split_metadata(
    file_name: Seq<char>,
    encrypted: Seq<u8>,
    seed: Seq<u8>,
    nonce: Seq<u8>,
    aad: Seq<u8>,
) -> FileDataView {
    FileDataView {
        file_name,
        chunks: chunk_metas(encrypted, hex_chars(seed)),
        hash_first_block: first_chunk_hash(encrypted),
        nonce: hex_chars(nonce),
        wrapped_dek: None,
        aad: hex_chars(aad),
    }
}

/// The split of `input` (named `file_name`) under `key` into a chunk folder
/// below `output_path`, with the UUID text `uuid`, the nonce and the seed:
/// the chunk folder is the UUID without hyphens, the associated data is
/// `folder:file_name`, the ciphertext is AES-GCM-SIV under key, nonce and
/// associated data, and its chunks are stored in order, chained from the hex
/// text of the seed.
pub open spec fn split_result(
    input: Seq<u8>,
    file_name: Seq<char>,
    output_path: Seq<char>,
    key: Seq<u8>,
    uuid: Seq<char>,
    nonce: Seq<u8>,
    seed: Seq<u8>,
) -> SplitView {
    let folder = without_hyphens(uuid);
    let aad = aad_bytes(folder, file_name);
    let encrypted = aes_gcm_siv_encrypt(key, nonce, aad, input);
    SplitView {
        file_data: split_metadata(file_name, encrypted, seed, nonce, aad),
        output_folder: folder,
        chunks_dir: joined_path_text(output_path, folder),
        chunk_contents: chunks_of(encrypted),
    }
}

/// `out` is the split of `input` with the given UUID text, nonce and seed;
/// moreover every chunk hash and the hash of the chunk folder's path have 64
/// characters, the ciphertext is 16 bytes longer than the input, and
/// decrypting the ciphertext gives the input back.
pub open spec fn split_with(
    input: Seq<u8>,
    file_name: Seq<char>,
    output_path: Seq<char>,
    key: Seq<u8>,
    out: SplitView,
    uuid: Seq<char>,
    nonce: Seq<u8>,
    seed: Seq<u8>,
) -> bool {
    let aad = aad_bytes(out.output_folder, file_name);
    let encrypted = aes_gcm_siv_encrypt(key, nonce, aad, input);
    &&& is_hyphenated_uuid(uuid)
    &&& nonce.len() == 12
    &&& seed.len() == 32
    &&& out == split_result(input, file_name, output_path, key, uuid, nonce, seed)
    &&& forall|i: int|
        0 <= i < out.file_data.chunks.len() ==> (#[trigger] out.file_data.chunks[i]).chunk_hash.len()
            == 64
    &&& path_hash_text(out.chunks_dir).len() == 64
    &&& encrypted.len() == input.len() + AEAD_TAG_LEN
    &&& aes_gcm_siv_decrypt(key, nonce, aad, encrypted) == Some(input)
}

/// `out` is a split of `input` under `key` for some UUID, nonce and seed.
pub open spec fn is_split_of(
    input: Seq<u8>,
    file_name: Seq<char>,
    output_path: Seq<char>,
    key: Seq<u8>,
    out: SplitView,
) -> bool {
    exists|uuid: Seq<char>, nonce: Seq<u8>, seed: Seq<u8>|
        #[trigger] split_with(input, file_name, output_path, key, out, uuid, nonce, seed)
}

/// Whether the stored nonce, if it is hexadecimal, is 12 bytes long.
pub open spec fn nonce_fits(file_data: FileDataView) -> bool {
    hex_decoded(encode_utf8(file_data.nonce)) matches Ok(n) ==> n.len() == 12
}

/// What reconstructing a file from its metadata and chunk contents gives.
pub open spec fn reconstructed(
    key: Seq<u8>,
    file_data: FileDataView,
    chunk_contents: Seq<Seq<u8>>,
) -> Result<Seq<u8>, CryptSplitError> {
    match hex_decoded(encode_utf8(file_data.nonce)) {
        Err(e) => Err(CryptSplitError::InvalidNonce(e)),
        Ok(nonce) => match hex_decoded(encode_utf8(file_data.aad)) {
            Err(e) => Err(CryptSplitError::InvalidAad(e)),
            Ok(aad) => match aes_gcm_siv_decrypt(key, nonce, aad, joined(chunk_contents)) {
                Some(m) => Ok(m),
                None => Err(CryptSplitError::DecryptionFailed),
            },
        },
    }
}

/// A byte result viewed as a byte sequence result.
pub open spec fn bytes_result(res: Result<Vec<u8>, CryptSplitError>) -> Result<Seq<u8>, CryptSplitError> {
    match res {
        Ok(v) => Ok(v@),
        Err(e) => Err(e),
    }
}

/// The hash of a chunk's hex text: SHA-256 of its bytes, as lower-case hex.
pub fn hash_encrypted_data(chunk_data: &String) -> (hash: String)
    ensures
        hash@ == hex_chars(sha256(encode_utf8(chunk_data@))),
        hash@.len() == 64,
{
    let digest = sha256_digest(chunk_data.as_str().as_bytes());
    proof {
        crate::hex_codec::lemma_hex_chars_ascii(digest@);
    }
    hex_encode(&digest)
}

/// The hash of a storage path (64 lower-case hex digits).
pub fn storage_path_hash(path: &str) -> (hash: String)
    ensures
        hash@ == path_hash_text(path@),
        hash@.len() == 64,
{
    let digest = sha256_digest(path.as_bytes());
    proof {
        crate::hex_codec::lemma_hex_chars_ascii(digest@);
    }
    hex_encode(&digest)
}

/// The name of a chunk's file in `folder`: `hash_previoushash_pathhash`.
pub fn chunk_file_name(meta: &FileChunkMetaData, folder: &str) -> (name: String)
    ensures
        name@ == chunk_name_text(meta@, folder@),
{
    let mut name = join_with(meta.chunk_hash.as_str(), '_', meta.previous_chunk_hash.as_str());
    name.push('_');
    let path_hash = storage_path_hash(folder);
    name.append(path_hash.as_str());
    name
}

/// A relative name joined to a path, as `Path::join` does on Unix.
pub fn join_path(base: &str, name: &str) -> (path: String)
    ensures
        path@ == joined_path_text(base@, name@),
{
    let n = base.unicode_len();
    if n == 0 {
        return name.to_owned();
    }
    let mut path = base.to_owned();
    if base.get_char(n - 1) != '/' {
        path.push('/');
    }
    path.append(name);
    path
}

/// Cuts a ciphertext into chunks of 4096 bytes (the last may be shorter),
/// hashes each, and chains each chunk to its predecessor's hash, starting
/// from `initial_seed`. Returns the metadata, the contents and the hash of
/// the first chunk.
pub fn chunk_encrypted_data(encrypted: &[u8], initial_seed: &String) -> (res: (
    Vec<FileChunkMetaData>,
    Vec<Vec<u8>>,
    Option<String>,
))
    ensures
        chunk_views(res.0@) == chunk_metas(encrypted@, initial_seed@),
        byte_views(res.1@) == chunks_of(encrypted@),
        text_option(res.2) == first_chunk_hash(encrypted@),
        forall|i: int| 0 <= i < res.0@.len() ==> (#[trigger] res.0@[i]).chunk_hash@.len() == 64,
{
    let n = encrypted.len();
    let ghost data = encrypted@;
    let ghost seed = initial_seed@;
    let mut chunks: Vec<FileChunkMetaData> = Vec::new();
    let mut contents: Vec<Vec<u8>> = Vec::new();
    let mut first_block_hash: Option<String> = None;
    let mut prev_chunk_hash: String = initial_seed.clone();
    let mut index: usize = 0;
    let mut bytes_read: usize = 0;
    while bytes_read < n
        invariant
            n == data.len(),
            data == encrypted@,
            seed == initial_seed@,
            bytes_read <= n,
            index <= bytes_read,
            bytes_read < n ==> bytes_read == index * 4096,
            bytes_read == n ==> chunk_count(n as nat) == index,
            index > 0 ==> (index - 1) * 4096 < n,
            chunks@.len() == index,
            contents@.len() == index,
            forall|j: int| 0 <= j < index ==> #[trigger] chunks@[j]@ == chunk_meta(data, seed, j),
            forall|j: int| 0 <= j < index ==> (#[trigger] chunks@[j]).chunk_hash@.len() == 64,
            forall|j: int| 0 <= j < index ==> #[trigger] contents@[j]@ == chunk_of(data, j),
            prev_chunk_hash@ == previous_hash_text(data, seed, index as int),
            text_option(first_block_hash) == (if index > 0 {
                Some(chunk_hash_text(chunk_of(data, 0)))
            } else {
                None
            }),
        decreases n - bytes_read,
    {
        let read_end = if n - bytes_read > CHUNK_SIZE {
            bytes_read + CHUNK_SIZE
        } else {
            n
        };
        assert(read_end == chunk_end(n as nat, index as int));
        let chunk_buffer = &encrypted[bytes_read..read_end];
        let chunk_hex = hex_encode(chunk_buffer);
        let chunk_hash = hash_encrypted_data(&chunk_hex);
        if index == 0 {
            first_block_hash = Some(chunk_hash.clone());
        }
        chunks.push(
            FileChunkMetaData {
                index,
                cloud_path: None,
                chunk_hash: chunk_hash.clone(),
                previous_chunk_hash: prev_chunk_hash,
            },
        );
        contents.push(slice_to_vec(chunk_buffer));
        prev_chunk_hash = chunk_hash;
        index = index + 1;
        bytes_read = read_end;
    }
    assert(chunk_views(chunks@) =~= chunk_metas(data, seed));
    assert(byte_views(contents@) =~= chunks_of(data));
    (chunks, contents, first_block_hash)
}

/// Encrypts a file's content with AES-256-GCM-SIV under `key` and splits
/// the ciphertext into hash-chained chunks, with the given UUID text, nonce
/// and seed of the hash chain. The chunk folder is the UUID without hyphens,
/// placed below `output_path`; the associated data is `folder:file_name`.
pub fn split_file_with(
    input: &[u8],
    file_name: String,
    output_path: &str,
    key: &[u8; 32],
    uuid: &str,
    nonce: [u8; 12],
    seed: [u8; 32],
) -> (res: SplitOutput)
    requires
        is_hyphenated_uuid(uuid@),
        input@.len() <= AEAD_MAX_LEN,
        encode_utf8(file_name@).len() + 33 <= AEAD_MAX_LEN,
    ensures
        split_with(input@, file_name@, output_path@, key@, res@, uuid@, nonce@, seed@),
        res.draws is None,
        res.output_folder@.len() == 32,
        is_lower_hex_text(res.output_folder@),
{
    let output_folder = remove_hyphens(uuid);
    proof {
        lemma_uuid_without_hyphens(uuid@);
        vstd::utf8::is_ascii_chars_encode_utf8(output_folder@);
    }
    let chunks_dir = join_path(output_path, output_folder.as_str());
    let dir_hash = storage_path_hash(chunks_dir.as_str());
    let mut aad: Vec<u8> = Vec::new();
    aad.extend_from_slice(output_folder.as_str().as_bytes());
    aad.push(58u8);
    aad.extend_from_slice(file_name.as_str().as_bytes());
    assert(aad@ =~= aad_bytes(output_folder@, file_name@));
    let encrypted_all = encrypt_with_aes_gcm_siv(input, &nonce, key, aad.as_slice());
    let initial_seed = hex_encode(&seed);
    let (chunks, chunk_contents, first_block_hash) = chunk_encrypted_data(
        encrypted_all.as_slice(),
        &initial_seed,
    );
    let file_data = FileData {
        file_name,
        chunks,
        hash_first_block: first_block_hash,
        nonce: hex_encode(&nonce),
        wrapped_dek: None,
        aad: hex_encode(aad.as_slice()),
    };
    let res = SplitOutput {
        file_data,
        output_folder,
        chunks_dir,
        chunk_contents,
        draws: None,
        key_draw: None,
    };
    assert forall|i: int| 0 <= i < res@.file_data.chunks.len() implies (
    #[trigger] res@.file_data.chunks[i]).chunk_hash.len() == 64 by {
        assert(res@.file_data.chunks[i] == res.file_data.chunks@[i]@);
    }
    res
}

/// Encrypts and splits a file's content as `split_file_with` does, with a
/// UUID, a nonce and a seed drawn from the random sources for this call,
/// which the result carries.
pub fn split_file(input: &[u8], file_name: String, output_path: &str, key: &[u8; 32]) -> (res:
    SplitOutput)
    requires
        input@.len() <= AEAD_MAX_LEN,
        encode_utf8(file_name@).len() + 33 <= AEAD_MAX_LEN,
    ensures
        is_split_of(input@, file_name@, output_path@, key@, res@),
        res.draws matches Some(d) && split_with_draws(input@, file_name@, output_path@, key@, res@, d),
        res.output_folder@.len() == 32,
        is_lower_hex_text(res.output_folder@),
{
    let draws = SplitDraws { uuid: draw_uuid_text(), nonce: draw_bytes(), seed: draw_bytes() };
    let mut res = split_file_with(
        input,
        file_name,
        output_path,
        key,
        draws.uuid.value().as_str(),
        *draws.nonce.value(),
        *draws.seed.value(),
    );
    res.draws = Some(draws);
    res
}

/// Whether a text consists of lower-case hexadecimal digits.
pub open spec fn is_lower_hex_text(text: Seq<char>) -> bool {
    forall|i: int| 0 <= i < text.len() ==> ('0' <= #[trigger] text[i] <= '9') || ('a' <= text[i] <= 'f')
}

/// How many of the hyphen positions of a UUID lie before position `k`.
spec fn uuid_hyphens_before(k: int) -> int {
    (if k > 8 { 1int } else { 0int }) + (if k > 13 { 1int } else { 0int }) + (if k > 18 {
        1int
    } else {
        0int
    }) + (if k > 23 { 1int } else { 0int })
}

proof fn lemma_uuid_prefix_without_hyphens(uuid: Seq<char>, k: int)
    requires
        is_hyphenated_uuid(uuid),
        0 <= k <= 36,
    ensures
        without_hyphens(uuid.take(k)).len() == k - uuid_hyphens_before(k),
        is_lower_hex_text(without_hyphens(uuid.take(k))),
    decreases k,
{
    if k == 0 {
        assert(uuid.take(0) =~= Seq::<char>::empty());
    } else {
        lemma_uuid_prefix_without_hyphens(uuid, k - 1);
        assert(uuid.take(k).drop_last() =~= uuid.take(k - 1));
        assert(uuid.take(k).last() == uuid[k - 1]);
        let prev = without_hyphens(uuid.take(k - 1));
        if uuid[k - 1] != '-' {
            assert forall|i: int| 0 <= i < prev.len() + 1 implies ('0' <= #[trigger] prev.push(
                uuid[k - 1],
            )[i] <= '9') || ('a' <= prev.push(uuid[k - 1])[i] <= 'f') by {
                if i < prev.len() {
                    assert(prev.push(uuid[k - 1])[i] == prev[i]);
                }
            }
        }
    }
}

/// Within the hyphen-free text of a UUID prefix, each non-hyphen character
/// of the UUID stands at its position less the hyphens before it.
proof fn lemma_uuid_prefix_positions(uuid: Seq<char>, k: int)
    requires
        is_hyphenated_uuid(uuid),
        0 <= k <= 36,
    ensures
        forall|i: int|
            0 <= i < k && i != 8 && i != 13 && i != 18 && i != 23 ==> without_hyphens(uuid.take(k))[i
                - uuid_hyphens_before(i)] == #[trigger] uuid[i],
    decreases k,
{
    if k > 0 {
        lemma_uuid_prefix_positions(uuid, k - 1);
        lemma_uuid_prefix_without_hyphens(uuid, k - 1);
        assert(uuid.take(k).drop_last() =~= uuid.take(k - 1));
        assert(uuid.take(k).last() == uuid[k - 1]);
        let prev = without_hyphens(uuid.take(k - 1));
        assert forall|i: int|
            0 <= i < k && i != 8 && i != 13 && i != 18 && i != 23 implies without_hyphens(
            uuid.take(k),
        )[i - uuid_hyphens_before(i)] == #[trigger] uuid[i] by {
            if i < k - 1 {
                assert(prev[i - uuid_hyphens_before(i)] == uuid[i]);
                if uuid[k - 1] != '-' {
                    assert(without_hyphens(uuid.take(k)) == prev.push(uuid[k - 1]));
                }
            }
        }
    }
}

/// Different UUIDs give different texts without hyphens.
pub proof fn lemma_uuid_without_hyphens_injective(u1: Seq<char>, u2: Seq<char>)
    requires
        is_hyphenated_uuid(u1),
        is_hyphenated_uuid(u2),
        u1 != u2,
    ensures
        without_hyphens(u1) != without_hyphens(u2),
{
    lemma_uuid_prefix_positions(u1, 36);
    lemma_uuid_prefix_positions(u2, 36);
    assert(u1.take(36) =~= u1);
    assert(u2.take(36) =~= u2);
    if without_hyphens(u1) == without_hyphens(u2) {
        assert forall|i: int| 0 <= i < 36 implies u1[i] == u2[i] by {
            if !(i == 8 || i == 13 || i == 18 || i == 23) {
                assert(without_hyphens(u1)[i - uuid_hyphens_before(i)] == u1[i]);
                assert(without_hyphens(u2)[i - uuid_hyphens_before(i)] == u2[i]);
            }
        }
        assert(u1 =~= u2);
    }
}

/// Two splits whose drawn UUIDs differ get different chunk folders, and,
/// below the same output path, different chunk folder paths.
pub proof fn lemma_distinct_draws_distinct_folders(
    input1: Seq<u8>,
    name1: Seq<char>,
    path1: Seq<char>,
    key1: Seq<u8>,
    out1: SplitView,
    d1: SplitDraws,
    input2: Seq<u8>,
    name2: Seq<char>,
    path2: Seq<char>,
    key2: Seq<u8>,
    out2: SplitView,
    d2: SplitDraws,
)
    requires
        split_with_draws(input1, name1, path1, key1, out1, d1),
        split_with_draws(input2, name2, path2, key2, out2, d2),
        d1.uuid.drawn()@ != d2.uuid.drawn()@,
    ensures
        out1.output_folder != out2.output_folder,
        path1 == path2 ==> out1.chunks_dir != out2.chunks_dir,
{
    let u1 = d1.uuid.drawn()@;
    let u2 = d2.uuid.drawn()@;
    lemma_uuid_without_hyphens_injective(u1, u2);
    lemma_uuid_without_hyphens(u1);
    lemma_uuid_without_hyphens(u2);
    let f1 = without_hyphens(u1);
    let f2 = without_hyphens(u2);
    if path1 == path2 && out1.chunks_dir == out2.chunks_dir {
        let p = path1;
        let dir1 = joined_path_text(p, f1);
        let dir2 = joined_path_text(p, f2);
        let off = dir1.len() - 32;
        assert(dir1.subrange(off, dir1.len() as int) =~= f1);
        assert(dir2.subrange(off, dir2.len() as int) =~= f2);
    }
}

/// A UUID without its hyphens is 32 lower-case hexadecimal digits.
pub proof fn lemma_uuid_without_hyphens(uuid: Seq<char>)
    requires
        is_hyphenated_uuid(uuid),
    ensures
        without_hyphens(uuid).len() == 32,
        is_lower_hex_text(without_hyphens(uuid)),
        vstd::utf8::is_ascii_chars(without_hyphens(uuid)),
{
    lemma_uuid_prefix_without_hyphens(uuid, 36);
    assert(uuid.take(36) =~= uuid);
    let f = without_hyphens(uuid);
    assert forall|i: int| 0 <= i < f.len() implies '\0' <= #[trigger] f[i] <= '\u{7f}' by {
        assert(('0' <= f[i] <= '9') || ('a' <= f[i] <= 'f'));
    }
}

/// Concatenates chunk contents in order.
fn join_chunks(parts: &Vec<Vec<u8>>) -> (res: Vec<u8>)
    ensures
        res@ == joined(byte_views(parts@)),
{
    let mut out: Vec<u8> = Vec::new();
    let mut i: usize = 0;
    while i < parts.len()
        invariant
            i <= parts@.len(),
            out@ == joined(byte_views(parts@).take(i as int)),
        decreases parts@.len() - i,
    {
        proof {
            let t = byte_views(parts@).take(i + 1);
            assert(t.drop_last() =~= byte_views(parts@).take(i as int));
            assert(t.last() == parts@[i as int]@);
        }
        out.extend_from_slice(parts[i].as_slice());
        assert(out@ =~= joined(byte_views(parts@).take(i as int)) + parts@[i as int]@);
        i = i + 1;
    }
    assert(byte_views(parts@).take(parts@.len() as int) =~= byte_views(parts@));
    out
}

/// Whether the stored nonce fits the cipher: `false` exactly when it is
/// hexadecimal but does not decode to 12 bytes (reconstruction is not
/// defined for such metadata).
pub fn nonce_length_ok(file_data: &FileData) -> (ok: bool)
    ensures
        ok == nonce_fits(file_data@),
{
    match hex_decode(file_data.nonce.as_str()) {
        Ok(n) => n.len() == 12,
        Err(_) => true,
    }
}

/// Joins the chunk contents (given in the order of the metadata), decodes
/// the nonce and associated data from hex, and decrypts with AES-256-GCM-SIV.
pub fn reconstruct_file(
    key: &[u8; 32],
    file_data: &FileData,
    chunk_contents: &Vec<Vec<u8>>,
) -> (res: Result<Vec<u8>, CryptSplitError>)
    requires
        nonce_fits(file_data@),
    ensures
        bytes_result(res) == reconstructed(key@, file_data@, byte_views(chunk_contents@)),
{
    let encrypted_data = join_chunks(chunk_contents);
    let nonce_bytes = match hex_decode(file_data.nonce.as_str()) {
        Ok(n) => n,
        Err(e) => {
            return Err(CryptSplitError::InvalidNonce(e));
        },
    };
    let aad = match hex_decode(file_data.aad.as_str()) {
        Ok(a) => a,
        Err(e) => {
            return Err(CryptSplitError::InvalidAad(e));
        },
    };
    match decrypt_with_aes_gcm_siv(
        encrypted_data.as_slice(),
        nonce_bytes.as_slice(),
        key,
        aad.as_slice(),
    ) {
        Some(plain) => Ok(plain),
        None => Err(CryptSplitError::DecryptionFailed),
    }
}

/// The first `k` chunks of a ciphertext, joined, are its first `k * 4096`
/// bytes (or all of it).
proof fn lemma_joined_prefix(data: Seq<u8>, k: int)
    requires
        0 <= k <= chunk_count(data.len()),
    ensures
        joined(chunks_of(data).take(k)) == data.subrange(
            0,
            if k * 4096 <= data.len() {
                k * 4096
            } else {
                data.len() as int
            },
        ),
    decreases k,
{
    if k == 0 {
        assert(chunks_of(data).take(0) =~= Seq::<Seq<u8>>::empty());
        assert(data.subrange(0, 0) =~= Seq::<u8>::empty());
    } else {
        lemma_joined_prefix(data, k - 1);
        let t = chunks_of(data).take(k);
        assert(t.drop_last() =~= chunks_of(data).take(k - 1));
        assert(t.last() == chunk_of(data, k - 1));
        assert((k - 1) * 4096 < data.len());
        assert(data.subrange(0, (k - 1) * 4096) + chunk_of(data, k - 1) =~= data.subrange(
            0,
            chunk_end(data.len(), k - 1),
        ));
    }
}

/// Joining all chunks of a ciphertext gives the ciphertext.
pub proof fn lemma_chunks_join_to_data(data: Seq<u8>)
    ensures
        joined(chunks_of(data)) == data,
{
    let k = chunk_count(data.len()) as int;
    lemma_joined_prefix(data, k);
    assert(chunks_of(data).take(k) =~= chunks_of(data));
    assert(data.subrange(0, data.len() as int) =~= data);
}

/// Every chunk holds 4096 bytes except the last, which holds between 1 and
/// 4096; consecutive chunks are chained: each records its predecessor's hash.
pub proof fn lemma_chunk_shape(data: Seq<u8>, seed: Seq<char>, i: int)
    requires
        0 <= i < chunk_count(data.len()),
        data.len() <= usize::MAX,
    ensures
        1 <= chunk_of(data, i).len() <= 4096,
        i + 1 < chunk_count(data.len()) ==> chunk_of(data, i).len() == 4096,
        i + 1 < chunk_count(data.len()) ==> chunk_metas(data, seed)[i + 1].previous_chunk_hash
            == chunk_metas(data, seed)[i].chunk_hash,
        chunk_metas(data, seed)[i].index == i,
{
}

/// Reconstructing a split file from its metadata and chunk contents, with
/// the key it was encrypted under, gives the input back.
pub proof fn lemma_reconstruct_after_split(
    input: Seq<u8>,
    file_name: Seq<char>,
    output_path: Seq<char>,
    key: Seq<u8>,
    out: SplitView,
)
    requires
        is_split_of(input, file_name, output_path, key, out),
    ensures
        nonce_fits(out.file_data),
        reconstructed(key, out.file_data, out.chunk_contents) == Ok::<Seq<u8>, CryptSplitError>(
            input,
        ),
{
    let (uuid, nonce, seed) = choose|uuid: Seq<char>, nonce: Seq<u8>, seed: Seq<u8>|
        #[trigger] split_with(input, file_name, output_path, key, out, uuid, nonce, seed);
    let aad = aad_bytes(out.output_folder, file_name);
    let encrypted = aes_gcm_siv_encrypt(key, nonce, aad, input);
    crate::hex_codec::lemma_hex_roundtrip(nonce);
    crate::hex_codec::lemma_hex_roundtrip(aad);
    lemma_chunks_join_to_data(encrypted);
}

/// A chunk name whose three hashes have 64 characters each has 194
/// characters: the chunk hash at 0, `_` at 64, the predecessor's hash at 65,
/// `_` at 129 and the folder's path hash at 130.
pub proof fn lemma_chunk_name_layout(meta: ChunkMetaView, folder: Seq<char>)
    requires
        meta.chunk_hash.len() == 64,
        meta.previous_chunk_hash.len() == 64,
        path_hash_text(folder).len() == 64,
    ensures
        chunk_name_text(meta, folder).len() == 194,
        chunk_name_text(meta, folder).subrange(0, 64) == meta.chunk_hash,
        chunk_name_text(meta, folder)[64] == '_',
        chunk_name_text(meta, folder).subrange(65, 129) == meta.previous_chunk_hash,
        chunk_name_text(meta, folder)[129] == '_',
        chunk_name_text(meta, folder).subrange(130, 194) == path_hash_text(folder),
{
    let name = chunk_name_text(meta, folder);
    assert(name.subrange(0, 64) =~= meta.chunk_hash);
    assert(name.subrange(65, 129) =~= meta.previous_chunk_hash);
    assert(name.subrange(130, 194) =~= path_hash_text(folder));
}

/// Every chunk of a split file records a 64-character hash and a
/// 64-character predecessor hash, so its file name in the chunk folder has
/// the fixed layout of `lemma_chunk_name_layout`.
pub proof fn lemma_split_chunk_name(
    input: Seq<u8>,
    file_name: Seq<char>,
    output_path: Seq<char>,
    key: Seq<u8>,
    out: SplitView,
    i: int,
)
    requires
        is_split_of(input, file_name, output_path, key, out),
        0 <= i < out.file_data.chunks.len(),
    ensures
        out.file_data.chunks[i].chunk_hash.len() == 64,
        out.file_data.chunks[i].previous_chunk_hash.len() == 64,
        chunk_name_text(out.file_data.chunks[i], out.chunks_dir).len() == 194,
        chunk_name_text(out.file_data.chunks[i], out.chunks_dir).subrange(0, 64)
            == out.file_data.chunks[i].chunk_hash,
        chunk_name_text(out.file_data.chunks[i], out.chunks_dir).subrange(65, 129)
            == out.file_data.chunks[i].previous_chunk_hash,
        chunk_name_text(out.file_data.chunks[i], out.chunks_dir).subrange(130, 194)
            == path_hash_text(out.chunks_dir),
{
    let (uuid, nonce, seed) = choose|uuid: Seq<char>, nonce: Seq<u8>, seed: Seq<u8>|
        #[trigger] split_with(input, file_name, output_path, key, out, uuid, nonce, seed);
    crate::hex_codec::lemma_hex_chars_ascii(seed);
    if i > 0 {
        assert(out.file_data.chunks[i - 1].chunk_hash.len() == 64);
    }
    lemma_chunk_name_layout(out.file_data.chunks[i], out.chunks_dir);
}

/// Reconstruction from a key is authenticated decryption: a successful
/// reconstruction gives exactly what AES-GCM-SIV decryption of the joined
/// chunk contents gives under the key and the decoded nonce and associated
/// data, and contents that do not authenticate give `DecryptionFailed`.
pub proof fn lemma_reconstructed_is_authenticated_decryption(
    key: Seq<u8>,
    file_data: FileDataView,
    chunk_contents: Seq<Seq<u8>>,
    nonce: Seq<u8>,
    aad: Seq<u8>,
)
    requires
        hex_decoded(encode_utf8(file_data.nonce)) == Ok::<Seq<u8>, crate::hex_codec::HexError>(nonce),
        hex_decoded(encode_utf8(file_data.aad)) == Ok::<Seq<u8>, crate::hex_codec::HexError>(aad),
    ensures
        match aes_gcm_siv_decrypt(key, nonce, aad, joined(chunk_contents)) {
            Some(m) => reconstructed(key, file_data, chunk_contents) == Ok::<
                Seq<u8>,
                CryptSplitError,
            >(m),
            None => reconstructed(key, file_data, chunk_contents) == Err::<
                Seq<u8>,
                CryptSplitError,
            >(CryptSplitError::DecryptionFailed),
        },
        forall|m: Seq<u8>|
            reconstructed(key, file_data, chunk_contents) == Ok::<Seq<u8>, CryptSplitError>(m)
                ==> aes_gcm_siv_decrypt(key, nonce, aad, joined(chunk_contents)) == Some(m),
{
}

} // verus!

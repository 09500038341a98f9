//! The library's side of the command-line workflows: encrypting a file for
//! storage, distributing its chunks, and reconstructing it.

use crate::cloud::{disitribute_file_chunks, is_distribution, ChunkMove, LocalCloudConfig};
use crate::crypto::{
    aes_gcm_siv_decrypt, aes_gcm_siv_encrypt, aes_kw_wrap, draw_bytes, draw_uuid_text, is_hyphenated_uuid, wipe_drawn_key, wipe_key, DrawnKey,
    AEAD_MAX_LEN,
};
use crate::error::CryptSplitError;
use crate::text::without_hyphens;
use crate::hex_codec::{hex_chars, hex_decode, hex_decoded, hex_encode};
use crate::key_management::{
    load_kek_salt, unlocked_kek, unwrap_fits_key, unwrap_key_checked,
    unwrapped_dek, wrap_dek_key,
};
use crate::split::{
    bytes_result, chunk_views, nonce_fits, nonce_length_ok, reconstruct_file, reconstructed,
    joined, split_file_with, split_with, aad_bytes, chunk_metas, joined_path_text,
    lemma_chunks_join_to_data, FileChunkMetaData, FileData, FileDataView, SplitDraws,
    SplitOutput, SplitView,
};
use vstd::prelude::*;
use vstd::utf8::encode_utf8;

verus! {

/// Whether a file's content and name are within what the cipher accepts:
/// the content and the associated data `folder:file_name` (with a 32-character
/// folder) at most 2^36 bytes each.
pub open spec fn fits_encryption(input: Seq<u8>, file_name: Seq<char>) -> bool {
    &&& input.len() <= AEAD_MAX_LEN
    &&& encode_utf8(file_name).len() + 33 <= AEAD_MAX_LEN
}

/// A split file's view before its wrapped key was recorded.
pub open spec fn without_wrapped_key(out: SplitView) -> SplitView {
    SplitView { file_data: FileDataView { wrapped_dek: None, ..out.file_data }, ..out }
}

/// `out` is `input` (named `file_name`) split below `output_path` under the
/// data-encryption key `dek` with the given UUID text, nonce and seed, with
/// `dek` wrapped under `kek` and recorded as hex text; the wrapped key
/// unwraps to `dek`.
pub open spec fn encrypted_with(
    input: Seq<u8>,
    file_name: Seq<char>,
    output_path: Seq<char>,
    kek: Seq<u8>,
    out: SplitView,
    dek: Seq<u8>,
    uuid: Seq<char>,
    nonce: Seq<u8>,
    seed: Seq<u8>,
) -> bool {
    &&& dek.len() == 32
    &&& split_with(input, file_name, output_path, dek, without_wrapped_key(out), uuid, nonce, seed)
    &&& out.file_data.wrapped_dek == Some(hex_chars(aes_kw_wrap(kek, dek)))
    &&& unwrap_fits_key(kek, aes_kw_wrap(kek, dek))
    &&& unwrapped_dek(kek, aes_kw_wrap(kek, dek)) == Ok::<Seq<u8>, CryptSplitError>(dek)
}

/// `out` is an encryption of `input` under some fresh key wrapped by `kek`,
/// with some UUID, nonce and seed.
pub open spec fn is_encryption_of(
    input: Seq<u8>,
    file_name: Seq<char>,
    output_path: Seq<char>,
    kek: Seq<u8>,
    out: SplitView,
) -> bool {
    exists|dek: Seq<u8>, uuid: Seq<char>, nonce: Seq<u8>, seed: Seq<u8>|
        #[trigger] encrypted_with(input, file_name, output_path, kek, out, dek, uuid, nonce, seed)
}

/// `out` is an encryption of `input` under the drawn data-encryption key
/// `key`, wrapped by `kek`, with the drawn UUID, nonce and seed of `draws`.
pub open spec fn encrypted_with_draws(
    input: Seq<u8>,
    file_name: Seq<char>,
    output_path: Seq<char>,
    kek: Seq<u8>,
    out: SplitView,
    draws: SplitDraws,
    key: DrawnKey,
) -> bool {
    encrypted_with(
        input,
        file_name,
        output_path,
        kek,
        out,
        key.drawn()@,
        draws.uuid.drawn()@,
        draws.nonce.drawn()@,
        draws.seed.drawn()@,
    )
}

/// What encrypting a file for storage gives: the error of unlocking the key
/// file, or an encryption under the unlocked KEK.
pub open spec fn encrypt_outcome(
    password: Seq<u8>,
    key_file: Seq<u8>,
    input: Seq<u8>,
    file_name: Seq<char>,
    output_path: Seq<char>,
    res: Result<SplitOutput, CryptSplitError>,
) -> bool {
    match unlocked_kek(password, key_file) {
        Err(e) => res == Err::<SplitOutput, CryptSplitError>(e),
        Ok(kek) => res matches Ok(out) && is_encryption_of(input, file_name, output_path, kek, out@),
    }
}

/// What reconstructing a file gives: unlock the KEK from the key file with
/// the password, decode and unwrap the file's key, check the nonce's length,
/// then join and decrypt the chunks. `MissingWrappedKey`,
/// `UnwrappedKeyLength` and `NonceLength` mark where the command line stops.
pub open spec fn reconstruct_outcome(
    password: Seq<u8>,
    key_file: Seq<u8>,
    file_data: FileDataView,
    chunk_contents: Seq<Seq<u8>>,
) -> Result<Seq<u8>, CryptSplitError> {
    match unlocked_kek(password, key_file) {
        Err(e) => Err(e),
        Ok(kek) => match file_data.wrapped_dek {
            None => Err(CryptSplitError::MissingWrappedKey),
            Some(wrapped_hex) => match hex_decoded(encode_utf8(wrapped_hex)) {
                Err(e) => Err(CryptSplitError::InvalidWrappedKey(e)),
                Ok(wrapped) => if !unwrap_fits_key(kek, wrapped) {
                    Err(CryptSplitError::UnwrappedKeyLength)
                } else {
                    match unwrapped_dek(kek, wrapped) {
                        Err(e) => Err(e),
                        Ok(dek) => if !nonce_fits(file_data) {
                            Err(CryptSplitError::NonceLength)
                        } else {
                            reconstructed(dek, file_data, chunk_contents)
                        },
                    }
                },
            },
        },
    }
}

/// A split file after distribution: the split as stored first, the
/// metadata with the chosen cloud folders, and the moves to perform.
pub struct DistributedUpload {
    pub split: SplitOutput,
    pub distributed: FileData,
    pub moves: Vec<ChunkMove>,
}

/// A copy of a chunk's metadata.
fn copy_chunk(c: &FileChunkMetaData) -> (res: FileChunkMetaData)
    ensures
        res@ == c@,
{
    FileChunkMetaData {
        index: c.index,
        cloud_path: match &c.cloud_path {
            Some(p) => Some(p.clone()),
            None => None,
        },
        chunk_hash: c.chunk_hash.clone(),
        previous_chunk_hash: c.previous_chunk_hash.clone(),
    }
}

/// A copy of a file's metadata.
fn copy_file_data(fd: &FileData) -> (res: FileData)
    ensures
        res@ == fd@,
{
    let mut chunks: Vec<FileChunkMetaData> = Vec::new();
    let mut i: usize = 0;
    while i < fd.chunks.len()
        invariant
            i <= fd.chunks@.len(),
            chunks@.len() == i,
            forall|j: int| 0 <= j < i ==> (#[trigger] chunks@[j])@ == fd.chunks@[j]@,
        decreases fd.chunks@.len() - i,
    {
        chunks.push(copy_chunk(&fd.chunks[i]));
        i = i + 1;
    }
    assert(chunk_views(chunks@) =~= chunk_views(fd.chunks@));
    FileData {
        file_name: fd.file_name.clone(),
        chunks,
        hash_first_block: match &fd.hash_first_block {
            Some(h) => Some(h.clone()),
            None => None,
        },
        nonce: fd.nonce.clone(),
        wrapped_dek: match &fd.wrapped_dek {
            Some(w) => Some(w.clone()),
            None => None,
        },
        aad: fd.aad.clone(),
    }
}

/// Encrypts and splits a file under the data-encryption key `dek`, with the
/// given UUID text, nonce and seed, and records `dek` wrapped by the KEK (as hex).
pub fn encrypt_file_with(
    kek: &[u8; 32],
    dek: &[u8; 32],
    input: &[u8],
    file_name: String,
    output_path: &str,
    uuid: &str,
    nonce: [u8; 12],
    seed: [u8; 32],
) -> (res: SplitOutput)
    requires
        is_hyphenated_uuid(uuid@),
        fits_encryption(input@, file_name@),
    ensures
        encrypted_with(input@, file_name@, output_path@, kek@, res@, dek@, uuid@, nonce@, seed@),
{
    let ghost name = file_name@;
    let mut split = split_file_with(input, file_name, output_path, dek, uuid, nonce, seed);
    let ghost before = split@;
    let wrapped_dek = wrap_dek_key(kek, dek).unwrap();
    split.file_data.wrapped_dek = Some(hex_encode(wrapped_dek.as_slice()));
    assert(without_wrapped_key(split@) == before);
    split
}

/// Unlocks the KEK with the password; then encrypts and splits the file
/// under a fresh data-encryption key with a random UUID, nonce and seed,
/// records that key wrapped by the KEK (as hex), and wipes both keys.
pub fn cli_encrypt_and_split(
    password: &str,
    key_file: &[u8],
    input: &[u8],
    file_name: String,
    output_path: &str,
) -> (res: Result<SplitOutput, CryptSplitError>)
    requires
        unlocked_kek(encode_utf8(password@), key_file@) is Ok ==> fits_encryption(
            input@,
            file_name@,
        ),
    ensures
        encrypt_outcome(encode_utf8(password@), key_file@, input@, file_name@, output_path@, res),
        res matches Ok(out) ==> out.draws matches Some(d) && out.key_draw matches Some(k)
            && encrypted_with_draws(
            input@,
            file_name@,
            output_path@,
            unlocked_kek(encode_utf8(password@), key_file@)->Ok_0,
            out@,
            d,
            k,
        ),
{
    let mut unlocked_key = match load_kek_salt(password, key_file) {
        Ok(k) => k,
        Err(e) => {
            return Err(e);
        },
    };
    let ghost kek = unlocked_key@;
    let ghost name = file_name@;
    let dek_draw = draw_bytes::<32>();
    let mut dek = *dek_draw.value();
    let key_draw = wipe_drawn_key(dek_draw);
    let draws = SplitDraws { uuid: draw_uuid_text(), nonce: draw_bytes(), seed: draw_bytes() };
    let ghost dek_view = dek@;
    let mut split = encrypt_file_with(
        &unlocked_key,
        &dek,
        input,
        file_name,
        output_path,
        draws.uuid.value().as_str(),
        *draws.nonce.value(),
        *draws.seed.value(),
    );
    split.draws = Some(draws);
    split.key_draw = Some(key_draw);
    wipe_key(&mut unlocked_key);
    wipe_key(&mut dek);
    assert(encrypted_with(
        input@,
        name,
        output_path@,
        kek,
        split@,
        dek_view,
        draws.uuid.drawn()@,
        draws.nonce.drawn()@,
        draws.seed.drawn()@,
    ));
    Ok(split)
}

/// Encrypts a file for storage as `cli_encrypt_and_split` does where the
/// content and name fit the cipher; otherwise gives the error of unlocking,
/// or `None` when unlocking succeeds (the command line stops there).
pub fn cli_encrypt_and_split_checked(
    password: &str,
    key_file: &[u8],
    input: &[u8],
    file_name: String,
    output_path: &str,
) -> (res: Option<Result<SplitOutput, CryptSplitError>>)
    ensures
        res is None <==> (unlocked_kek(encode_utf8(password@), key_file@) is Ok && !fits_encryption(
            input@,
            file_name@,
        )),
        res matches Some(r) ==> encrypt_outcome(
            encode_utf8(password@),
            key_file@,
            input@,
            file_name@,
            output_path@,
            r,
        ),
{
    let name_len = file_name.as_str().as_bytes().len();
    let fits = (input.len() as u64) <= AEAD_MAX_LEN && (name_len as u64) <= AEAD_MAX_LEN - 33;
    if fits {
        Some(cli_encrypt_and_split(password, key_file, input, file_name, output_path))
    } else {
        match load_kek_salt(password, key_file) {
            Err(e) => Some(Err(e)),
            Ok(k) => {
                let mut kek = k;
                wipe_key(&mut kek);
                None
            },
        }
    }
}

/// Encrypts and splits a file as `cli_encrypt_and_split` does, then
/// distributes its chunks from the chunk folder over the configured cloud folders.
pub fn cli_encrypt_and_distribute(
    password: &str,
    key_file: &[u8],
    input: &[u8],
    file_name: String,
    output_path: &str,
    config: &LocalCloudConfig,
) -> (res: Option<Result<DistributedUpload, CryptSplitError>>)
    ensures
        res is None <==> (unlocked_kek(encode_utf8(password@), key_file@) is Ok && !fits_encryption(
            input@,
            file_name@,
        )),
        res matches Some(r) ==> match unlocked_kek(encode_utf8(password@), key_file@) {
            Err(e) => r == Err::<DistributedUpload, CryptSplitError>(e),
            Ok(kek) => if config.local_cloud_paths@.len() == 0 {
                r == Err::<DistributedUpload, CryptSplitError>(CryptSplitError::NoCloudPaths)
            } else {
                r matches Ok(u) && {
                    &&& is_encryption_of(input@, file_name@, output_path@, kek, u.split@)
                    &&& u.distributed@ == FileDataView {
                        chunks: u.distributed@.chunks,
                        ..u.split.file_data@
                    }
                    &&& is_distribution(
                        config,
                        u.split@.chunks_dir,
                        u.split.file_data@.chunks,
                        u.distributed@.chunks,
                        u.moves@,
                    )
                }
            },
        },
{
    let ghost name = file_name@;
    let split = match cli_encrypt_and_split_checked(password, key_file, input, file_name, output_path) {
        None => {
            return None;
        },
        Some(Ok(s)) => s,
        Some(Err(e)) => {
            return Some(Err(e));
        },
    };
    proof {
        let kek = unlocked_kek(encode_utf8(password@), key_file@)->Ok_0;
        lemma_encryption_has_chunks(input@, name, output_path@, kek, split@);
    }
    let mut distributed = copy_file_data(&split.file_data);
    let moves = match disitribute_file_chunks(config, split.chunks_dir.as_str(), &mut distributed.chunks) {
        Ok(m) => m,
        Err(e) => {
            return Some(Err(e));
        },
    };
    Some(Ok(DistributedUpload { split, distributed, moves }))
}

/// Reconstructs a file: unlocks the KEK with the password, decodes and
/// unwraps the file's data-encryption key, checks the nonce's length, then
/// joins the chunk contents and decrypts them. A missing wrapped key, an
/// unwrapped key of another length than 32 bytes and a hexadecimal nonce of
/// another length than 12 bytes give their own errors.
pub fn cli_reconstruct(
    password: &str,
    key_file: &[u8],
    file_data: &FileData,
    chunk_contents: &Vec<Vec<u8>>,
) -> (res: Result<Vec<u8>, CryptSplitError>)
    ensures
        bytes_result(res) == reconstruct_outcome(
            encode_utf8(password@),
            key_file@,
            file_data@,
            byte_views_of(chunk_contents),
        ),
{
    let mut kek = match load_kek_salt(password, key_file) {
        Ok(k) => k,
        Err(e) => {
            return Err(e);
        },
    };
    let wrapped_dek_hex = match &file_data.wrapped_dek {
        Some(w) => w,
        None => {
            wipe_key(&mut kek);
            return Err(CryptSplitError::MissingWrappedKey);
        },
    };
    let wrapped_dek = match hex_decode(wrapped_dek_hex.as_str()) {
        Ok(w) => w,
        Err(e) => {
            wipe_key(&mut kek);
            return Err(CryptSplitError::InvalidWrappedKey(e));
        },
    };
    let unwrapped = unwrap_key_checked(&kek, wrapped_dek.as_slice());
    wipe_key(&mut kek);
    let mut dek = match unwrapped {
        None => {
            return Err(CryptSplitError::UnwrappedKeyLength);
        },
        Some(Err(e)) => {
            return Err(e);
        },
        Some(Ok(d)) => d,
    };
    if !nonce_length_ok(file_data) {
        wipe_key(&mut dek);
        return Err(CryptSplitError::NonceLength);
    }
    let ghost dek_view = dek@;
    let output = reconstruct_file(&dek, file_data, chunk_contents);
    wipe_key(&mut dek);
    assert(bytes_result(output) == reconstructed(dek_view, file_data@, byte_views_of(chunk_contents)));
    output
}

/// Chunk contents viewed as byte sequences.
pub open spec fn byte_views_of(parts: &Vec<Vec<u8>>) -> Seq<Seq<u8>> {
    crate::split::byte_views(parts@)
}

/// An encrypted file always has at least one chunk (the ciphertext carries a
/// 16-byte tag).
proof fn lemma_encryption_has_chunks(
    input: Seq<u8>,
    file_name: Seq<char>,
    output_path: Seq<char>,
    kek: Seq<u8>,
    out: SplitView,
)
    requires
        is_encryption_of(input, file_name, output_path, kek, out),
    ensures
        out.file_data.chunks.len() > 0,
{
    let (dek, uuid, nonce, seed) = choose|dek: Seq<u8>, uuid: Seq<char>, nonce: Seq<u8>, seed: Seq<u8>|
        #[trigger] encrypted_with(input, file_name, output_path, kek, out, dek, uuid, nonce, seed);
}

/// A file encrypted for storage is reconstructed, from its chunk contents
/// and with the password whose key file encrypted it, to the content it
/// was encrypted from. This holds of any metadata that keeps the nonce,
/// associated data and wrapped key, so also after its chunks were
/// distributed and after its record was written to and read back from the store.
pub proof fn lemma_reconstruct_after_encrypt(
    password: Seq<u8>,
    key_file: Seq<u8>,
    input: Seq<u8>,
    file_name: Seq<char>,
    output_path: Seq<char>,
    out: SplitView,
    stored: FileDataView,
)
    requires
        unlocked_kek(password, key_file) is Ok,
        is_encryption_of(input, file_name, output_path, unlocked_kek(password, key_file)->Ok_0, out),
        stored.nonce == out.file_data.nonce,
        stored.aad == out.file_data.aad,
        stored.wrapped_dek == out.file_data.wrapped_dek,
    ensures
        nonce_fits(stored),
        reconstruct_outcome(password, key_file, stored, out.chunk_contents) == Ok::<
            Seq<u8>,
            CryptSplitError,
        >(input),
{
    let kek = unlocked_kek(password, key_file)->Ok_0;
    let (dek, uuid, nonce, seed) = choose|dek: Seq<u8>, uuid: Seq<char>, nonce: Seq<u8>, seed: Seq<u8>|
        #[trigger] encrypted_with(input, file_name, output_path, kek, out, dek, uuid, nonce, seed);
    let base = without_wrapped_key(out);
    assert(crate::split::is_split_of(input, file_name, output_path, dek, base));
    crate::split::lemma_reconstruct_after_split(input, file_name, output_path, dek, base);
    crate::hex_codec::lemma_hex_roundtrip(aes_kw_wrap(kek, dek));
    assert(reconstructed(dek, stored, out.chunk_contents) == reconstructed(
        dek,
        base.file_data,
        base.chunk_contents,
    ));
}

/// An encryption is made of what the random sources drew for it: the chunk
/// folder is the drawn UUID without hyphens, the stored nonce is the drawn
/// nonce, the hash chain starts from the drawn seed, the chunks joined are
/// the AES-GCM-SIV ciphertext under the drawn data-encryption key, and the
/// recorded wrapped key is that key wrapped by the KEK.
pub proof fn lemma_encryption_uses_drawn_values(
    input: Seq<u8>,
    file_name: Seq<char>,
    output_path: Seq<char>,
    kek: Seq<u8>,
    out: SplitView,
    draws: SplitDraws,
    key: DrawnKey,
)
    requires
        encrypted_with_draws(input, file_name, output_path, kek, out, draws, key),
    ensures
        out.output_folder == without_hyphens(draws.uuid.drawn()@),
        out.chunks_dir == joined_path_text(output_path, out.output_folder),
        out.file_data.nonce == hex_chars(draws.nonce.drawn()@),
        out.file_data.chunks.len() > 0,
        out.file_data.chunks[0].previous_chunk_hash == hex_chars(draws.seed.drawn()@),
        joined(out.chunk_contents) == aes_gcm_siv_encrypt(
            key.drawn()@,
            draws.nonce.drawn()@,
            aad_bytes(out.output_folder, file_name),
            input,
        ),
        out.file_data.wrapped_dek == Some(hex_chars(aes_kw_wrap(kek, key.drawn()@))),
        unwrapped_dek(kek, aes_kw_wrap(kek, key.drawn()@)) == Ok::<Seq<u8>, CryptSplitError>(
            key.drawn()@,
        ),
{
    let encrypted = aes_gcm_siv_encrypt(
        key.drawn()@,
        draws.nonce.drawn()@,
        aad_bytes(out.output_folder, file_name),
        input,
    );
    lemma_chunks_join_to_data(encrypted);
    assert(out.file_data.chunks[0] == chunk_metas(encrypted, hex_chars(draws.seed.drawn()@))[0]);
}

/// Two encryptions whose drawn UUIDs differ get different chunk folders,
/// and, below the same output path, different chunk folder paths.
pub proof fn lemma_distinct_encryptions_distinct_folders(
    input1: Seq<u8>,
    name1: Seq<char>,
    path1: Seq<char>,
    kek1: Seq<u8>,
    out1: SplitView,
    d1: SplitDraws,
    k1: DrawnKey,
    input2: Seq<u8>,
    name2: Seq<char>,
    path2: Seq<char>,
    kek2: Seq<u8>,
    out2: SplitView,
    d2: SplitDraws,
    k2: DrawnKey,
)
    requires
        encrypted_with_draws(input1, name1, path1, kek1, out1, d1, k1),
        encrypted_with_draws(input2, name2, path2, kek2, out2, d2, k2),
        d1.uuid.drawn()@ != d2.uuid.drawn()@,
    ensures
        out1.output_folder != out2.output_folder,
        path1 == path2 ==> out1.chunks_dir != out2.chunks_dir,
{
    crate::split::lemma_distinct_draws_distinct_folders(
        input1,
        name1,
        path1,
        k1.drawn()@,
        without_wrapped_key(out1),
        d1,
        input2,
        name2,
        path2,
        k2.drawn()@,
        without_wrapped_key(out2),
        d2,
    );
}

/// The data key, nonce and associated data that reconstruction decrypts
/// with: the KEK unlocks from the key file, the wrapped key decodes and
/// unwraps under it to the 32-byte `dek`, and the stored nonce and
/// associated data decode to `nonce` and `aad`.
pub open spec fn decryption_inputs(
    password: Seq<u8>,
    key_file: Seq<u8>,
    file_data: FileDataView,
    dek: Seq<u8>,
    nonce: Seq<u8>,
    aad: Seq<u8>,
) -> bool {
    &&& unlocked_kek(password, key_file) is Ok
    &&& file_data.wrapped_dek is Some
    &&& hex_decoded(encode_utf8(file_data.wrapped_dek->Some_0)) is Ok
    &&& unwrapped_dek(
        unlocked_kek(password, key_file)->Ok_0,
        hex_decoded(encode_utf8(file_data.wrapped_dek->Some_0))->Ok_0,
    ) == Ok::<Seq<u8>, CryptSplitError>(dek)
    &&& dek.len() == 32
    &&& hex_decoded(encode_utf8(file_data.nonce)) == Ok::<Seq<u8>, crate::hex_codec::HexError>(nonce)
    &&& hex_decoded(encode_utf8(file_data.aad)) == Ok::<Seq<u8>, crate::hex_codec::HexError>(aad)
}

/// Reconstruction is authenticated decryption: a successful reconstruction
/// gives exactly what AES-GCM-SIV decryption of the joined chunk contents
/// gives under the unwrapped key and the stored nonce and associated data;
/// chunk contents that do not authenticate (a changed byte, chunks in
/// another order) give `DecryptionFailed`, and ones that do give their
/// decryption.
pub proof fn lemma_reconstruct_is_authenticated_decryption(
    password: Seq<u8>,
    key_file: Seq<u8>,
    file_data: FileDataView,
    chunk_contents: Seq<Seq<u8>>,
)
    ensures
        reconstruct_outcome(password, key_file, file_data, chunk_contents) matches Ok(m) ==> exists|
            dek: Seq<u8>,
            nonce: Seq<u8>,
            aad: Seq<u8>,
        |
            #[trigger] decryption_inputs(password, key_file, file_data, dek, nonce, aad)
                && aes_gcm_siv_decrypt(dek, nonce, aad, joined(chunk_contents)) == Some(m),
        forall|dek: Seq<u8>, nonce: Seq<u8>, aad: Seq<u8>|
            #[trigger] decryption_inputs(password, key_file, file_data, dek, nonce, aad)
                && nonce.len() == 12 ==> match aes_gcm_siv_decrypt(
                dek,
                nonce,
                aad,
                joined(chunk_contents),
            ) {
                Some(m) => reconstruct_outcome(password, key_file, file_data, chunk_contents)
                    == Ok::<Seq<u8>, CryptSplitError>(m),
                None => reconstruct_outcome(password, key_file, file_data, chunk_contents)
                    == Err::<Seq<u8>, CryptSplitError>(CryptSplitError::DecryptionFailed),
            },
{
    if let Ok(m) = reconstruct_outcome(password, key_file, file_data, chunk_contents) {
        let kek = unlocked_kek(password, key_file)->Ok_0;
        let wrapped = hex_decoded(encode_utf8(file_data.wrapped_dek->Some_0))->Ok_0;
        let dek = unwrapped_dek(kek, wrapped)->Ok_0;
        let nonce = hex_decoded(encode_utf8(file_data.nonce))->Ok_0;
        let aad = hex_decoded(encode_utf8(file_data.aad))->Ok_0;
        assert(decryption_inputs(password, key_file, file_data, dek, nonce, aad));
    }
}

} // verus!

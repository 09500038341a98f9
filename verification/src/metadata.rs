//! The record under which a file's metadata is kept in the key-value store:
//! its key, its fields, and how the metadata is read back from them.

use crate::split::{chunk_views, text_option, ChunkMetaView, FileChunkMetaData, FileData, FileDataView};
use vstd::prelude::*;

verus! {

/// The decimal digit for a value below 10.
pub open spec fn decimal_digit(d: int) -> char {
    seq!['0', '1', '2', '3', '4', '5', '6', '7', '8', '9'][d]
}

/// Decimal text of a natural number, without leading zeros.
pub open spec fn decimal_text(n: nat) -> Seq<char>
    decreases n,
{
    if n < 10 {
        seq![decimal_digit(n as int)]
    } else {
        decimal_text(n / 10).push(decimal_digit((n % 10) as int))
    }
}

/// The store key of a file's record: `file:` followed by the file name.
pub open spec fn record_key_text(file_name: Seq<char>) -> Seq<char> {
    "file:"@ + file_name
}

/// A file name recovered from a store key: the key without a leading `file:`.
pub open spec fn name_from_key_text(key: Seq<char>) -> Seq<char> {
    if key.len() >= 5 && key.subrange(0, 5) == "file:"@ {
        key.subrange(5, key.len() as int)
    } else {
        key
    }
}

/// An optional text, with the empty text standing for `None`.
pub open spec fn text_or_empty(o: Option<Seq<char>>) -> Seq<char> {
    match o {
        Some(t) => t,
        None => Seq::empty(),
    }
}

/// The fields written for a file: first-chunk hash, nonce, chunk count,
/// wrapped key, associated data, and the serialized chunk list.
pub open spec fn record_fields(file_data: FileDataView, serialized_chunks: Seq<char>) -> Seq<
    (Seq<char>, Seq<char>),
> {
    seq![
        ("origin_block_hash"@, text_or_empty(file_data.hash_first_block)),
        ("nonce"@, file_data.nonce),
        ("chunks_count"@, decimal_text(file_data.chunks.len())),
        ("wrapped_dek"@, text_or_empty(file_data.wrapped_dek)),
        ("aad"@, file_data.aad),
        ("chunks"@, serialized_chunks),
    ]
}

/// The field names read back, in the order in which their values are given
/// to `file_data_from_fields`.
pub open spec fn requested_field_names() -> Seq<Seq<char>> {
    seq!["origin_block_hash"@, "nonce"@, "chunks_count"@, "chunks"@, "wrapped_dek"@, "aad"@]
}

/// The metadata read back from the requested field values and the parsed chunks.
pub open spec fn metadata_from_values(
    file_name: Seq<char>,
    values: Seq<Seq<char>>,
    chunks: Seq<ChunkMetaView>,
) -> FileDataView {
    FileDataView {
        file_name,
        chunks,
        hash_first_block: Some(values[0]),
        nonce: values[1],
        wrapped_dek: Some(values[4]),
        aad: values[5],
    }
}

/// A list of texts viewed as character sequences.
pub open spec fn text_views(texts: Seq<String>) -> Seq<Seq<char>> {
    texts.map_values(|s: String| s@)
}

/// A list of field pairs viewed as pairs of character sequences.
pub open spec fn field_views(fields: Seq<(String, String)>) -> Seq<(Seq<char>, Seq<char>)> {
    fields.map_values(|f: (String, String)| (f.0@, f.1@))
}

/// Decimal text of a count, as `usize::to_string` writes it.
pub fn decimal_string(n: usize) -> (text: String)
    ensures
        text@ == decimal_text(n as nat),
    decreases n,
{
    let digits = ['0', '1', '2', '3', '4', '5', '6', '7', '8', '9'];
    if n < 10 {
        let mut text = String::new();
        text.push(digits[n]);
        assert(text@ =~= seq![decimal_digit(n as int)]);
        text
    } else {
        let mut text = decimal_string(n / 10);
        text.push(digits[n % 10]);
        text
    }
}

/// The store key of a file's record.
pub fn record_key(file_name: &str) -> (key: String)
    ensures
        key@ == record_key_text(file_name@),
{
    let mut key = "file:".to_owned();
    key.append(file_name);
    key
}

/// The file name behind a store key: the key without its `file:` prefix, or
/// the whole key when it has no such prefix.
pub fn file_name_from_key(key: &str) -> (name: String)
    ensures
        name@ == name_from_key_text(key@),
{
    let n = key.unicode_len();
    if n >= 5 {
        let head = key.substring_char(0, 5).to_owned();
        let prefix = "file:".to_owned();
        if head == prefix {
            return key.substring_char(5, n).to_owned();
        }
    }
    key.to_owned()
}

/// The file names behind a list of store keys, in order.
pub fn file_names_from_keys(keys: &Vec<String>) -> (names: Vec<String>)
    ensures
        names@.len() == keys@.len(),
        forall|i: int|
            0 <= i < keys@.len() ==> (#[trigger] names@[i])@ == name_from_key_text(keys@[i]@),
{
    let mut names: Vec<String> = Vec::new();
    let mut i: usize = 0;
    while i < keys.len()
        invariant
            i <= keys@.len(),
            names@.len() == i,
            forall|j: int|
                0 <= j < i ==> (#[trigger] names@[j])@ == name_from_key_text(keys@[j]@),
        decreases keys@.len() - i,
    {
        names.push(file_name_from_key(keys[i].as_str()));
        i = i + 1;
    }
    names
}

/// An optional text, or the empty text.
fn text_or_default(o: &Option<String>) -> (t: String)
    ensures
        t@ == text_or_empty(text_option(*o)),
{
    match o {
        Some(s) => s.clone(),
        None => String::new(),
    }
}

/// The fields to write for a file, given its serialized chunk list.
pub fn record_fields_of(file_data: &FileData, serialized_chunks: String) -> (fields: Vec<
    (String, String),
>)
    ensures
        field_views(fields@) == record_fields(file_data@, serialized_chunks@),
{
    let mut fields: Vec<(String, String)> = Vec::new();
    fields.push(("origin_block_hash".to_owned(), text_or_default(&file_data.hash_first_block)));
    fields.push(("nonce".to_owned(), file_data.nonce.clone()));
    fields.push(("chunks_count".to_owned(), decimal_string(file_data.chunks.len())));
    fields.push(("wrapped_dek".to_owned(), text_or_default(&file_data.wrapped_dek)));
    fields.push(("aad".to_owned(), file_data.aad.clone()));
    fields.push(("chunks".to_owned(), serialized_chunks));
    assert(field_views(fields@) =~= record_fields(file_data@, serialized_chunks@));
    fields
}

/// The names of the fields to read back, in order.
pub fn requested_fields() -> (names: Vec<String>)
    ensures
        text_views(names@) == requested_field_names(),
{
    let mut names: Vec<String> = Vec::new();
    names.push("origin_block_hash".to_owned());
    names.push("nonce".to_owned());
    names.push("chunks_count".to_owned());
    names.push("chunks".to_owned());
    names.push("wrapped_dek".to_owned());
    names.push("aad".to_owned());
    assert(text_views(names@) =~= requested_field_names());
    names
}

/// Rebuilds a file's metadata from the values of the requested fields (in
/// the order of `requested_fields`) and its parsed chunk list.
pub fn file_data_from_fields(
    file_name: &str,
    values: &Vec<String>,
    chunks: Vec<FileChunkMetaData>,
) -> (file_data: FileData)
    requires
        values@.len() >= 6,
    ensures
        file_data@ == metadata_from_values(file_name@, text_views(values@), chunk_views(chunks@)),
{
    FileData {
        file_name: file_name.to_owned(),
        chunks,
        hash_first_block: Some(values[0].clone()),
        nonce: values[1].clone(),
        wrapped_dek: Some(values[4].clone()),
        aad: values[5].clone(),
    }
}

/// The record a list of fields writes: each field name maps to the value
/// written last for it.
pub open spec fn record_map(fields: Seq<(Seq<char>, Seq<char>)>) -> Map<Seq<char>, Seq<char>>
    decreases fields.len(),
{
    if fields.len() == 0 {
        Map::empty()
    } else {
        record_map(fields.drop_last()).insert(fields.last().0, fields.last().1)
    }
}

/// The values that reading `names` from a record gives, in order.
pub open spec fn read_values(record: Map<Seq<char>, Seq<char>>, names: Seq<Seq<char>>) -> Seq<
    Seq<char>,
> {
    names.map_values(|n: Seq<char>| record[n])
}

/// A file's metadata with absent optional texts replaced by the empty text.
pub open spec fn with_empty_defaults(file_data: FileDataView) -> FileDataView {
    FileDataView {
        hash_first_block: Some(text_or_empty(file_data.hash_first_block)),
        wrapped_dek: Some(text_or_empty(file_data.wrapped_dek)),
        ..file_data
    }
}

proof fn lemma_record_map_step(fields: Seq<(Seq<char>, Seq<char>)>, k: int)
    requires
        0 < k <= fields.len(),
    ensures
        record_map(fields.take(k)) == record_map(fields.take(k - 1)).insert(
            fields[k - 1].0,
            fields[k - 1].1,
        ),
{
    assert(fields.take(k).drop_last() =~= fields.take(k - 1));
}

/// The file name behind a file's record key is the file name.
pub proof fn lemma_name_from_record_key(file_name: Seq<char>)
    ensures
        name_from_key_text(record_key_text(file_name)) == file_name,
{
    reveal_strlit("file:");
    let key = record_key_text(file_name);
    assert(key.subrange(0, 5) =~= "file:"@);
    assert(key.subrange(5, key.len() as int) =~= file_name);
}

/// Reading back the fields written for a file, with the chunk list that its
/// serialized form parses to, gives the file's metadata, except that an
/// absent first-chunk hash or wrapped key comes back as the empty text.
pub proof fn lemma_record_roundtrip(file_data: FileDataView, serialized_chunks: Seq<char>)
    ensures
        metadata_from_values(
            file_data.file_name,
            read_values(
                record_map(record_fields(file_data, serialized_chunks)),
                requested_field_names(),
            ),
            file_data.chunks,
        ) == with_empty_defaults(file_data),
        file_data.hash_first_block is Some && file_data.wrapped_dek is Some ==> with_empty_defaults(
            file_data,
        ) == file_data,
{
    reveal_strlit("origin_block_hash");
    reveal_strlit("nonce");
    reveal_strlit("chunks_count");
    reveal_strlit("wrapped_dek");
    reveal_strlit("aad");
    reveal_strlit("chunks");
    let fields = record_fields(file_data, serialized_chunks);
    assert(fields.take(0) =~= Seq::<(Seq<char>, Seq<char>)>::empty());
    assert(fields.take(6) =~= fields);
    lemma_record_map_step(fields, 1);
    lemma_record_map_step(fields, 2);
    lemma_record_map_step(fields, 3);
    lemma_record_map_step(fields, 4);
    lemma_record_map_step(fields, 5);
    lemma_record_map_step(fields, 6);
    assert(record_map(fields.take(0)) == Map::<Seq<char>, Seq<char>>::empty());
    let m = record_map(fields);
    assert("origin_block_hash"@.len() == 17);
    assert("nonce"@.len() == 5);
    assert("chunks_count"@.len() == 12);
    assert("wrapped_dek"@.len() == 11);
    assert("aad"@.len() == 3);
    assert("chunks"@.len() == 6);
    assert(m["origin_block_hash"@] == text_or_empty(file_data.hash_first_block));
    assert(m["nonce"@] == file_data.nonce);
    assert(m["wrapped_dek"@] == text_or_empty(file_data.wrapped_dek));
    assert(m["aad"@] == file_data.aad);
}

} // verus!

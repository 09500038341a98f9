use vstd::prelude::*;
use vstd::utf8::*;

verus! {

/// Why a text is not hexadecimal.
#[derive(Debug, Clone, Copy, PartialEq, Eq)]
pub enum HexError {
    /// The text has an odd number of bytes.
    OddLength,
    /// A byte of the text is not one of `0-9`, `a-f`, `A-F`.
    InvalidHexCharacter,
}

/// The lower-case hexadecimal digit for a value below 16.
pub open spec fn hex_digit(v: int) -> char {
    seq!['0', '1', '2', '3', '4', '5', '6', '7', '8', '9', 'a', 'b', 'c', 'd', 'e', 'f'][v]
}

/// Lower-case hexadecimal text of a byte string: two digits per byte, high nibble first.
pub open spec fn hex_chars(bytes: Seq<u8>) -> Seq<char>
    decreases bytes.len(),
{
    if bytes.len() == 0 {
        Seq::empty()
    } else {
        seq![hex_digit(bytes[0] as int / 16), hex_digit(bytes[0] as int % 16)] + hex_chars(
            bytes.drop_first(),
        )
    }
}

/// The value of one hexadecimal digit given as an ASCII byte, either case.
pub open spec fn hex_value(c: u8) -> Option<u8> {
    if 48 <= c <= 57 {
        Some((c - 48) as u8)
    } else if 65 <= c <= 70 {
        Some((c - 55) as u8)
    } else if 97 <= c <= 102 {
        Some((c - 87) as u8)
    } else {
        None
    }
}

/// Decodes consecutive digit pairs; `None` as soon as a byte is no digit.
pub open spec fn hex_pairs(text: Seq<u8>) -> Option<Seq<u8>>
    decreases text.len(),
{
    if text.len() < 2 {
        Some(Seq::empty())
    } else {
        match (hex_value(text[0]), hex_value(text[1])) {
            (Some(hi), Some(lo)) => match hex_pairs(text.subrange(2, text.len() as int)) {
                Some(rest) => Some(seq![(hi * 16 + lo) as u8] + rest),
                None => None,
            },
            _ => None,
        }
    }
}

/// What decoding a hexadecimal text (given by its bytes) yields.
pub open spec fn hex_decoded(text: Seq<u8>) -> Result<Seq<u8>, HexError> {
    if text.len() % 2 != 0 {
        Err(HexError::OddLength)
    } else {
        match hex_pairs(text) {
            Some(bytes) => Ok(bytes),
            None => Err(HexError::InvalidHexCharacter),
        }
    }
}

/// The bytes of an ASCII character sequence.
pub open spec fn ascii_bytes(chars: Seq<char>) -> Seq<u8> {
    Seq::new(chars.len(), |i: int| chars[i] as u8)
}

/// A decoded result viewed as byte sequences.
pub open spec fn decoded_view(res: Result<Vec<u8>, HexError>) -> Result<Seq<u8>, HexError> {
    match res {
        Ok(v) => Ok(v@),
        Err(e) => Err(e),
    }
}

/// `hex::encode`: the crate's documentation and source give lower-case digits,
/// two per byte, high nibble first; the claim is that the result is `hex_chars`.
#[verifier::external_body]
pub(crate) fn hex_encode(data: &[u8]) -> (res: String)
    ensures
        res@ == hex_chars(data@),
{
    hex::encode(data)
}

/// `hex::decode` on the bytes of a text: odd length is `OddLength`, a byte
/// outside `0-9a-fA-F` is an invalid character, otherwise digit pairs become
/// bytes. The claim is that the result is `hex_decoded` of the text's bytes.
#[verifier::external_body]
pub(crate) fn hex_decode(text: &str) -> (res: Result<Vec<u8>, HexError>)
    ensures
        decoded_view(res) == hex_decoded(encode_utf8(text@)),
{
    match hex::decode(text) {
        Ok(v) => Ok(v),
        Err(hex::FromHexError::OddLength) => Err(HexError::OddLength),
        Err(_) => Err(HexError::InvalidHexCharacter),
    }
}

/// Hexadecimal text is ASCII and has two characters per byte.
pub proof fn lemma_hex_chars_ascii(bytes: Seq<u8>)
    ensures
        hex_chars(bytes).len() == 2 * bytes.len(),
        is_ascii_chars(hex_chars(bytes)),
        forall|i: int|
            0 <= i < hex_chars(bytes).len() ==> (#[trigger] hex_chars(bytes)[i] as u8) < 128,
    decreases bytes.len(),
{
    if bytes.len() > 0 {
        lemma_hex_chars_ascii(bytes.drop_first());
        let h = seq![hex_digit(bytes[0] as int / 16), hex_digit(bytes[0] as int % 16)];
        let t = hex_chars(bytes.drop_first());
        assert(hex_chars(bytes) == h + t);
        assert forall|i: int| 0 <= i < hex_chars(bytes).len() implies '\0' <= #[trigger] hex_chars(
            bytes,
        )[i] <= '\u{7f}' && (hex_chars(bytes)[i] as u8) < 128 by {
            if i >= 2 {
                assert(hex_chars(bytes)[i] == t[i - 2]);
            }
        }
    }
}

/// The UTF-8 bytes of hexadecimal text are its characters' ASCII codes.
pub proof fn lemma_hex_chars_bytes(bytes: Seq<u8>)
    ensures
        encode_utf8(hex_chars(bytes)) == ascii_bytes(hex_chars(bytes)),
{
    lemma_hex_chars_ascii(bytes);
    is_ascii_chars_encode_utf8(hex_chars(bytes));
    assert(encode_utf8(hex_chars(bytes)) =~= ascii_bytes(hex_chars(bytes)));
}

proof fn lemma_digit_value(v: int)
    requires
        0 <= v < 16,
    ensures
        hex_value(hex_digit(v) as u8) == Some(v as u8),
{
}

proof fn lemma_pairs_of_hex(bytes: Seq<u8>)
    ensures
        hex_pairs(ascii_bytes(hex_chars(bytes))) == Some(bytes),
    decreases bytes.len(),
{
    lemma_hex_chars_ascii(bytes);
    if bytes.len() > 0 {
        let rest = bytes.drop_first();
        lemma_pairs_of_hex(rest);
        lemma_hex_chars_ascii(rest);
        let text = ascii_bytes(hex_chars(bytes));
        let h = seq![hex_digit(bytes[0] as int / 16), hex_digit(bytes[0] as int % 16)];
        assert(hex_chars(bytes) == h + hex_chars(rest));
        assert(text.subrange(2, text.len() as int) =~= ascii_bytes(hex_chars(rest)));
        lemma_digit_value(bytes[0] as int / 16);
        lemma_digit_value(bytes[0] as int % 16);
        assert(text[0] == hex_digit(bytes[0] as int / 16) as u8);
        assert(text[1] == hex_digit(bytes[0] as int % 16) as u8);
        assert(((bytes[0] as int / 16) * 16 + bytes[0] as int % 16) as u8 == bytes[0]);
        assert(seq![bytes[0]] + rest =~= bytes);
    } else {
        assert(ascii_bytes(hex_chars(bytes)).len() == 0);
        assert(bytes =~= Seq::<u8>::empty());
    }
}

/// Decoding the hexadecimal text of a byte string gives the byte string back.
pub proof fn lemma_hex_roundtrip(bytes: Seq<u8>)
    ensures
        hex_decoded(encode_utf8(hex_chars(bytes))) == Ok::<Seq<u8>, HexError>(bytes),
{
    lemma_hex_chars_bytes(bytes);
    lemma_hex_chars_ascii(bytes);
    lemma_pairs_of_hex(bytes);
    assert(ascii_bytes(hex_chars(bytes)).len() % 2 == 0);
}

} // verus!

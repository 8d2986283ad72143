//! File paths as identifier-safe tokens: the UTF-8 bytes of the path in
//! unpadded base32.

use vstd::prelude::*;
use vstd::utf8::{decode_utf8, encode_utf8, valid_utf8};

verus! {

/// Why a token could not be turned back into a path.
#[derive(Debug, PartialEq, Eq, Clone, Copy, Structural)]
pub enum DecodeError {
    InvalidBase32,
    InvalidUtf8,
}

/// What `data_encoding::BASE32_NOPAD.encode` returns for the given bytes.
pub uninterp spec fn base32_nopad_encoding(bytes: Seq<u8>) -> Seq<char>;

/// What `data_encoding::BASE32_NOPAD.decode` returns for the bytes of the
/// given text: the decoded bytes, or nothing where the text is refused.
pub uninterp spec fn base32_nopad_decoding(text: Seq<char>) -> Option<Seq<u8>>;

/// Longest text, in characters, that the base32 decoder is handed: four
/// bytes to a character at most, and the decoder takes an eighth of the
/// address space.
pub open spec fn max_token_len() -> nat {
    (usize::MAX / 32) as nat
}

/// Longest path, in characters, that the base32 encoder is handed.
pub open spec fn max_path_len() -> nat {
    (usize::MAX / 2048) as nat
}

/// The characters of the base32 alphabet: `A` to `Z` and `2` to `7`.
pub open spec fn is_base32_char(c: char) -> bool {
    ('A' <= c && c <= 'Z') || ('2' <= c && c <= '7')
}

/// Number of characters that stand for that many bytes: one for every five
/// bits, the last one filled up.
pub open spec fn token_len(bytes: nat) -> nat {
    ((8 * bytes + 4) / 5) as nat
}

/// Calls `data_encoding::BASE32_NOPAD.encode` on the UTF-8 bytes of `text`.
/// The crate documents its coders as deterministic and correct: decoding
/// what was encoded gives the initial data.  The result is as long as
/// `encode_len` says, eight fifths of the input rounded up, and is made of
/// the symbols of the encoding, `A` to `Z` and `2` to `7`.  The encoder
/// asserts that its input is no longer than `usize::MAX / 512` bytes.
#[verifier::external_body]
fn base32_encode(text: &str) -> (r: String)
    requires
        text@.len() <= max_path_len(),
    ensures
        r@ == base32_nopad_encoding(encode_utf8(text@)),
        base32_nopad_decoding(r@) == Some(encode_utf8(text@)),
        r@.len() == token_len(encode_utf8(text@).len()),
        forall|i: int| 0 <= i < r@.len() ==> is_base32_char(#[trigger] r@[i]),
{
    data_encoding::BASE32_NOPAD.encode(text.as_bytes())
}

/// Calls `data_encoding::BASE32_NOPAD.decode` on the bytes of `text`; an
/// error of the decoder, whatever its kind, becomes `None`.  The decoder
/// asserts that its input is no longer than `usize::MAX / 8` bytes.
#[verifier::external_body]
fn base32_decode(text: &str) -> (r: Option<Vec<u8>>)
    requires
        text@.len() <= max_token_len(),
    ensures
        r is Some == base32_nopad_decoding(text@) is Some,
        r matches Some(bytes) ==> base32_nopad_decoding(text@) == Some(bytes@),
{
    data_encoding::BASE32_NOPAD.decode(text.as_bytes()).ok()
}

/// `String::from_utf8` of the standard library: the text that the bytes
/// encode, or `None` where they are not valid UTF-8.
#[verifier::external_body]
fn text_from_utf8(bytes: Vec<u8>) -> (r: Option<String>)
    ensures
        r is Some == valid_utf8(bytes@),
        r matches Some(s) ==> s@ == decode_utf8(bytes@),
{
    String::from_utf8(bytes).ok()
}

/// The token that stands for `path`.
pub open spec fn symbol_safe_text(path: Seq<char>) -> Seq<char> {
    base32_nopad_encoding(encode_utf8(path))
}

/// The path that `token` stands for, or the reason why it stands for none.
pub open spec fn symbol_safe_path(token: Seq<char>) -> Result<Seq<char>, DecodeError> {
    match base32_nopad_decoding(token) {
        None => Err(DecodeError::InvalidBase32),
        Some(bytes) => if valid_utf8(bytes) {
            Ok(decode_utf8(bytes))
        } else {
            Err(DecodeError::InvalidUtf8)
        },
    }
}

/// No character takes more than four bytes.
pub proof fn lemma_utf8_len_bound(chars: Seq<char>)
    ensures
        encode_utf8(chars).len() <= 4 * chars.len(),
    decreases chars.len(),
{
    if chars.len() > 0 {
        lemma_utf8_len_bound(chars.drop_first());
    }
}

/// Turns a path into a token that is valid inside a C or C++ identifier:
/// it is made of capital letters and digits only, so it holds neither `$`
/// nor `@`.  Decoding the token gives the path back, and the token is
/// short enough to be decoded.
pub fn path_to_symbol_safe(path: &str) -> (r: String)
    requires
        path@.len() <= max_path_len(),
    ensures
        r@ == symbol_safe_text(path@),
        symbol_safe_path(r@) == Ok::<Seq<char>, DecodeError>(path@),
        r@.len() == token_len(encode_utf8(path@).len()),
        r@.len() <= max_token_len(),
        forall|i: int| 0 <= i < r@.len() ==> is_base32_char(#[trigger] r@[i]),
{
    let r = base32_encode(path);
    proof {
        vstd::utf8::encode_utf8_valid_utf8(path@);
        vstd::utf8::encode_utf8_decode_utf8(path@);
        lemma_utf8_len_bound(path@);
    }
    r
}

/// Reverses `path_to_symbol_safe`.
pub fn symbol_safe_to_path(s: &str) -> (r: Result<String, DecodeError>)
    requires
        s@.len() <= max_token_len(),
    ensures
        match r {
            Ok(path) => symbol_safe_path(s@) == Ok::<Seq<char>, DecodeError>(path@),
            Err(e) => symbol_safe_path(s@) == Err::<Seq<char>, DecodeError>(e),
        },
{
    match base32_decode(s) {
        None => Err(DecodeError::InvalidBase32),
        Some(bytes) => match text_from_utf8(bytes) {
            None => Err(DecodeError::InvalidUtf8),
            Some(path) => Ok(path),
        },
    }
}

} // verus!

//! Words as bytes, least significant byte first, and bytes as hexadecimal
//! text.

use vstd::prelude::*;

verus! {

/// The four bytes of a word, least significant first.
pub open spec fn le_bytes(w: u32) -> Seq<u8> {
    seq![
        (w & 0xFF) as u8,
        ((w >> 8) & 0xFF) as u8,
        ((w >> 16) & 0xFF) as u8,
        ((w >> 24) & 0xFF) as u8,
    ]
}

/// The word that four bytes write, least significant first.
pub open spec fn le_word(b: Seq<u8>) -> u32 {
    (b[0] as u32) | ((b[1] as u32) << 8) | ((b[2] as u32) << 16) | ((b[3] as u32) << 24)
}

/// The bytes of a list of words, each word least significant byte first.
pub open spec fn words_bytes(words: Seq<u32>) -> Seq<u8>
    decreases words.len(),
{
    if words.len() == 0 {
        Seq::empty()
    } else {
        words_bytes(words.drop_last()) + le_bytes(words.last())
    }
}

/// The four bytes of `w`, least significant first.
pub fn to_le_bytes(w: u32) -> (r: [u8; 4])
    ensures
        r@ == le_bytes(w),
{
    let r = [
        (w & 0xFF) as u8,
        ((w >> 8) & 0xFF) as u8,
        ((w >> 16) & 0xFF) as u8,
        ((w >> 24) & 0xFF) as u8,
    ];
    assert(r@ =~= le_bytes(w));
    r
}

/// The word that `b` writes, least significant byte first.
pub fn from_le_bytes(b: [u8; 4]) -> (r: u32)
    ensures
        r == le_word(b@),
{
    (b[0] as u32) | ((b[1] as u32) << 8) | ((b[2] as u32) << 16) | ((b[3] as u32) << 24)
}

/// A word is read back from its bytes.
pub proof fn lemma_le_round_trip(w: u32)
    ensures
        le_word(le_bytes(w)) == w,
        le_bytes(w).len() == 4,
{
    assert((((w & 0xFF) as u8) as u32) | ((((w >> 8) & 0xFF) as u8) as u32) << 8 | ((((w >> 16)
        & 0xFF) as u8) as u32) << 16 | ((((w >> 24) & 0xFF) as u8) as u32) << 24 == w)
        by (bit_vector);
}

/// The bytes of a list of words are four to a word.
pub proof fn lemma_words_bytes_len(words: Seq<u32>)
    ensures
        words_bytes(words).len() == 4 * words.len(),
    decreases words.len(),
{
    if words.len() > 0 {
        lemma_words_bytes_len(words.drop_last());
    }
}

/// Writes the words out as bytes.
pub fn words_to_bytes(words: &Vec<u32>) -> (r: Vec<u8>)
    ensures
        r@ == words_bytes(words@),
{
    let mut r: Vec<u8> = Vec::new();
    let mut i: usize = 0;
    while i < words.len()
        invariant
            i <= words.len(),
            r@ == words_bytes(words@.take(i as int)),
        decreases words.len() - i,
    {
        let b = to_le_bytes(words[i]);
        let ghost before = r@;
        r.push(b[0]);
        r.push(b[1]);
        r.push(b[2]);
        r.push(b[3]);
        proof {
            assert(words@.take(i + 1).drop_last() == words@.take(i as int));
            assert(words@.take(i + 1).last() == words@[i as int]);
            assert(r@ =~= before + le_bytes(words@[i as int]));
        }
        i += 1;
    }
    assert(words@.take(words.len() as int) == words@);
    r
}

/// The value of a hexadecimal digit of either case, or -1.
pub open spec fn hex_value(c: char) -> int {
    if '0' <= c && c <= '9' {
        c as int - '0' as int
    } else if 'a' <= c && c <= 'f' {
        c as int - 'a' as int + 10
    } else if 'A' <= c && c <= 'F' {
        c as int - 'A' as int + 10
    } else {
        -1
    }
}

/// `s` without its space characters.
pub open spec fn without_spaces(s: Seq<char>) -> Seq<char> {
    s.filter(|c: char| c != ' ')
}

/// Index of the first character of `s` that is no hexadecimal digit, if
/// there is one.
pub open spec fn first_non_hex(s: Seq<char>) -> Option<int>
    decreases s.len(),
{
    if s.len() == 0 {
        None
    } else {
        match first_non_hex(s.drop_last()) {
            Some(i) => Some(i),
            None => if hex_value(s.last()) < 0 {
                Some(s.len() - 1)
            } else {
                None
            },
        }
    }
}

/// The bytes that an even number of hexadecimal digits write, two digits
/// to a byte.
pub open spec fn hex_bytes(digits: Seq<char>) -> Seq<u8> {
    Seq::new(
        digits.len() / 2,
        |i: int| (hex_value(digits[2 * i]) * 16 + hex_value(digits[2 * i + 1])) as u8,
    )
}

/// Why a text is no list of bytes.
#[derive(Debug, PartialEq, Eq, Clone, Copy, Structural)]
pub enum HexError {
    /// The digits do not pair up.
    OddLength,
    /// The character at this index, spaces not counted, is no digit.
    InvalidDigit(usize),
}

/// The bytes that a text of hexadecimal digits writes.  Spaces do not
/// count.  An odd number of characters is refused before any of them is
/// looked at.
pub open spec fn parse_hex(s: Seq<char>) -> Result<Seq<u8>, HexError> {
    let digits = without_spaces(s);
    if digits.len() % 2 != 0 {
        Err(HexError::OddLength)
    } else {
        match first_non_hex(digits) {
            Some(i) => Err(HexError::InvalidDigit(i as usize)),
            None => Ok(hex_bytes(digits)),
        }
    }
}

/// The value of a character as a hexadecimal digit.
fn hex_digit(c: char) -> (r: Option<u8>)
    ensures
        match r {
            Some(d) => d == hex_value(c) && d < 16,
            None => hex_value(c) < 0,
        },
{
    if '0' <= c && c <= '9' {
        Some((c as u32 - 48) as u8)
    } else if 'a' <= c && c <= 'f' {
        Some((c as u32 - 97 + 10) as u8)
    } else if 'A' <= c && c <= 'F' {
        Some((c as u32 - 65 + 10) as u8)
    } else {
        None
    }
}

/// Reads a text of hexadecimal digits as bytes.
pub fn hex_to_bytes(v: &Vec<char>) -> (r: Result<Vec<u8>, HexError>)
    ensures
        match r {
            Ok(bytes) => parse_hex(v@) == Ok::<Seq<u8>, HexError>(bytes@),
            Err(e) => parse_hex(v@) == Err::<Seq<u8>, HexError>(e),
        },
{
    let mut digits: Vec<char> = Vec::new();
    let mut i: usize = 0;
    while i < v.len()
        invariant
            i <= v.len(),
            digits@ == without_spaces(v@.take(i as int)),
        decreases v.len() - i,
    {
        proof {
            assert(v@.take(i + 1) == v@.take(i as int).push(v@[i as int]));
            lemma_filter_push(v@.take(i as int), v@[i as int]);
        }
        if v[i] != ' ' {
            digits.push(v[i]);
        }
        i += 1;
    }
    assert(v@.take(v.len() as int) == v@);
    if digits.len() % 2 != 0 {
        return Err(HexError::OddLength);
    }
    let mut values: Vec<u8> = Vec::new();
    let mut k: usize = 0;
    while k < digits.len()
        invariant
            k <= digits.len(),
            values.len() == k,
            digits@ == without_spaces(v@),
            digits.len() % 2 == 0,
            first_non_hex(digits@.take(k as int)) is None,
            forall|j: int| 0 <= j < k ==> values@[j] == hex_value(digits@[j]) && values@[j] < 16,
        decreases digits.len() - k,
    {
        proof {
            assert(digits@.take(k + 1).drop_last() == digits@.take(k as int));
            assert(digits@.take(k + 1).last() == digits@[k as int]);
        }
        match hex_digit(digits[k]) {
            Some(d) => {
                values.push(d);
            },
            None => {
                proof {
                    assert(first_non_hex(digits@.take(k + 1)) == Some(k as int));
                    lemma_first_non_hex_stays(digits@, k + 1);
                }
                return Err(HexError::InvalidDigit(k));
            },
        }
        k += 1;
    }
    assert(digits@.take(digits.len() as int) == digits@);
    let mut bytes: Vec<u8> = Vec::new();
    let mut b: usize = 0;
    let pairs = digits.len() / 2;
    while b < pairs
        invariant
            b <= pairs,
            pairs == digits.len() / 2,
            digits.len() % 2 == 0,
            digits@ == without_spaces(v@),
            values.len() == digits.len(),
            bytes.len() == b,
            forall|j: int|
                0 <= j < digits.len() ==> values@[j] == hex_value(digits@[j]) && values@[j] < 16,
            forall|j: int| 0 <= j < b ==> bytes@[j] == hex_bytes(digits@)[j],
        decreases pairs - b,
    {
        bytes.push(values[2 * b] * 16 + values[2 * b + 1]);
        b += 1;
    }
    assert(bytes@ =~= hex_bytes(digits@));
    Ok(bytes)
}

/// Filtering a sequence with one more element at its end.
proof fn lemma_filter_push(s: Seq<char>, c: char)
    ensures
        without_spaces(s.push(c)) == (if c != ' ' {
            without_spaces(s).push(c)
        } else {
            without_spaces(s)
        }),
{
    reveal(Seq::filter);
    assert(s.push(c).drop_last() == s);
}

/// The first character that is no digit stays the first when more
/// characters follow.
proof fn lemma_first_non_hex_stays(s: Seq<char>, n: int)
    requires
        0 <= n <= s.len(),
        first_non_hex(s.take(n)) is Some,
    ensures
        first_non_hex(s) == first_non_hex(s.take(n)),
    decreases s.len() - n,
{
    if n < s.len() {
        assert(s.take(n + 1).drop_last() == s.take(n));
        lemma_first_non_hex_stays(s, n + 1);
    } else {
        assert(s.take(n) == s);
    }
}

} // verus!

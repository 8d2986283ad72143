use vstd::prelude::*;

use super::error::{ParsingError, ParsingErrorView};
use crate::text::{
    all_digits, chars_of, decimal_text, digits_value, hex_text, is_digit,
    lemma_digits_value_nonneg, lemma_number_text_reads_back, parse_u32, read_u32,
};

verus! {

/// Whether `s` begins with `0x` or `0X`.
pub open spec fn has_hex_prefix(s: Seq<char>) -> bool {
    s.len() >= 2 && s[0] == '0' && (s[1] == 'x' || s[1] == 'X')
}

/// The radix in which an address text is read.
pub open spec fn address_radix(s: Seq<char>) -> int {
    if has_hex_prefix(s) {
        16
    } else {
        10
    }
}

/// The address that `s` writes: hexadecimal after `0x` or `0X`, decimal
/// otherwise.
pub open spec fn address_of(s: Seq<char>) -> Option<u32> {
    if has_hex_prefix(s) {
        parse_u32(s.skip(2), 16)
    } else {
        parse_u32(s, 10)
    }
}

/// Reads an address; a text that writes none is handed back in the error.
pub fn parse_address(s: &str) -> (r: Result<u32, ParsingError>)
    ensures
        match r {
            Ok(a) => address_of(s@) == Some(a),
            Err(e) => address_of(s@) is None && e@ == ParsingErrorView::InvalidAddress(s@),
        },
{
    let v = chars_of(s);
    let n = v.len();
    let parsed = if n >= 2 && v[0] == '0' && (v[1] == 'x' || v[1] == 'X') {
        assert(v@.subrange(2, n as int) == v@.skip(2));
        read_u32(&v, 2, n, 16)
    } else {
        assert(v@.subrange(0, n as int) == v@);
        read_u32(&v, 0, n, 10)
    };
    match parsed {
        Some(a) => Ok(a),
        None => Err(ParsingError::InvalidAddress(s.to_owned())),
    }
}

/// An address written in hexadecimal after `0x` or `0X` is read back.
pub proof fn lemma_hex_address_reads_back(n: u32)
    ensures
        address_of(seq!['0', 'x'] + hex_text(n as nat)) == Some(n),
        address_of(seq!['0', 'X'] + hex_text(n as nat)) == Some(n),
{
    lemma_number_text_reads_back(n as nat, 16);
    let digits = hex_text(n as nat);
    assert((seq!['0', 'x'] + digits).skip(2) == digits);
    assert((seq!['0', 'X'] + digits).skip(2) == digits);
}

/// An address written in decimal is read back.
pub proof fn lemma_decimal_address_reads_back(n: u32)
    ensures
        address_of(decimal_text(n as nat)) == Some(n),
{
    lemma_number_text_reads_back(n as nat, 10);
    let digits = decimal_text(n as nat);
    if digits.len() >= 2 {
        assert(is_digit(digits[1], 10));
    }
}

/// The part of an address text that holds its digits: what follows `0x` or
/// `0X`, or else the whole text.
pub open spec fn address_digits(s: Seq<char>) -> Seq<char> {
    if has_hex_prefix(s) {
        s.skip(2)
    } else {
        s
    }
}

/// A text writes an address exactly if what follows its prefix is made of
/// at least one digit of its radix, of nothing else, and of a value below
/// 2^32.  A sign, white space or any other character makes it write none.
pub proof fn lemma_address_is_digits_only(s: Seq<char>)
    ensures
        address_of(s) is Some <==> address_digits(s).len() > 0 && all_digits(
            address_digits(s),
            address_radix(s),
        ) && digits_value(address_digits(s), address_radix(s)) <= u32::MAX,
        address_of(s) matches Some(a) ==> a == digits_value(address_digits(s), address_radix(s)),
{
    if all_digits(address_digits(s), address_radix(s)) {
        lemma_digits_value_nonneg(address_digits(s), address_radix(s));
    }
}

/// A text with a character that is no digit of its radix behind its prefix
/// writes no address, wherever that character stands.
pub proof fn lemma_non_digit_refused(s: Seq<char>, i: int)
    requires
        0 <= i < address_digits(s).len(),
        !is_digit(address_digits(s)[i], address_radix(s)),
    ensures
        address_of(s) is None,
{
}

/// A text that ends in a character that is no digit of its radix writes no
/// address.
pub proof fn lemma_trailing_non_digit_refused(s: Seq<char>, c: char)
    requires
        !is_digit(c, address_radix(s.push(c))),
    ensures
        address_of(s.push(c)) is None,
{
    let t = s.push(c);
    let d = address_digits(t);
    if d.len() > 0 {
        assert(d[d.len() - 1] == c);
        assert(!all_digits(d, address_radix(t)));
    }
}

} // verus!

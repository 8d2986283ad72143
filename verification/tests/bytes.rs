use hookpatch::bytes::{from_le_bytes, hex_to_bytes, to_le_bytes, words_to_bytes, HexError};

fn chars(s: &str) -> Vec<char> {
    s.chars().collect()
}

#[test]
fn words_least_significant_byte_first() {
    assert_eq!(to_le_bytes(0x1234_5678), [0x78, 0x56, 0x34, 0x12]);
    assert_eq!(to_le_bytes(0), [0, 0, 0, 0]);
    assert_eq!(to_le_bytes(0xEA00_0000), [0, 0, 0, 0xEA]);
    assert_eq!(from_le_bytes([0x78, 0x56, 0x34, 0x12]), 0x1234_5678);
    assert_eq!(from_le_bytes([0xFF, 0xFF, 0xFF, 0xFF]), u32::MAX);
    for w in [0u32, 1, 0x80, 0x8000_0000, 0xDEAD_BEEF, u32::MAX] {
        assert_eq!(from_le_bytes(to_le_bytes(w)), w);
        assert_eq!(to_le_bytes(w), w.to_le_bytes());
    }
    assert_eq!(
        words_to_bytes(&vec![0x0403_0201, 0x0807_0605]),
        vec![1, 2, 3, 4, 5, 6, 7, 8]
    );
    assert_eq!(words_to_bytes(&vec![]), Vec::<u8>::new());
}

#[test]
fn hex_data() {
    assert_eq!(hex_to_bytes(&chars("")), Ok(vec![]));
    assert_eq!(hex_to_bytes(&chars("   ")), Ok(vec![]));
    assert_eq!(hex_to_bytes(&chars("00")), Ok(vec![0]));
    assert_eq!(
        hex_to_bytes(&chars("DE AD be ef")),
        Ok(vec![0xDE, 0xAD, 0xBE, 0xEF])
    );
    assert_eq!(
        hex_to_bytes(&chars("d e a d b e e f")),
        Ok(vec![0xDE, 0xAD, 0xBE, 0xEF])
    );
    assert_eq!(hex_to_bytes(&chars("0123456789abcdefABCDEF")).unwrap().len(), 11);
    assert_eq!(hex_to_bytes(&chars("1")), Err(HexError::OddLength));
    assert_eq!(hex_to_bytes(&chars("1 2 3")), Err(HexError::OddLength));
    // The length is looked at before the digits.
    assert_eq!(hex_to_bytes(&chars("12x")), Err(HexError::OddLength));
    assert_eq!(hex_to_bytes(&chars("1x")), Err(HexError::InvalidDigit(1)));
    assert_eq!(hex_to_bytes(&chars("g0")), Err(HexError::InvalidDigit(0)));
    // Spaces do not count for the index; other white space is a character.
    assert_eq!(hex_to_bytes(&chars("12 3x")), Err(HexError::InvalidDigit(3)));
    assert_eq!(hex_to_bytes(&chars("12\t34 ")), Err(HexError::OddLength));
    assert_eq!(hex_to_bytes(&chars("12\t345")), Err(HexError::InvalidDigit(2)));
    assert_eq!(hex_to_bytes(&chars("0x12")), Err(HexError::InvalidDigit(1)));
}

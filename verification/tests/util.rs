use hookpatch::hook::util::parse_address;
use hookpatch::hook::ParsingError;

#[test]
fn test_parse_address() {
    assert_eq!(parse_address("0x1234"), Ok(0x1234));
    assert_eq!(parse_address("0X1234"), Ok(0x1234));
    assert_eq!(parse_address("1234"), Ok(1234));
    assert_eq!(
        parse_address("0x"),
        Err(ParsingError::InvalidAddress("0x".to_string()))
    );
    assert_eq!(
        parse_address("0X"),
        Err(ParsingError::InvalidAddress("0X".to_string()))
    );
    assert_eq!(
        parse_address(""),
        Err(ParsingError::InvalidAddress("".to_string()))
    );
    assert_eq!(
        parse_address("0x1234x"),
        Err(ParsingError::InvalidAddress("0x1234x".to_string()))
    );
    assert_eq!(
        parse_address("0X1234X"),
        Err(ParsingError::InvalidAddress("0X1234X".to_string()))
    );
    assert_eq!(
        parse_address("1234x"),
        Err(ParsingError::InvalidAddress("1234x".to_string()))
    );
}

#[test]
fn address_round_trip_in_both_radixes() {
    let values: [u32; 9] = [
        0,
        1,
        9,
        10,
        15,
        16,
        0x1234_5678,
        0x7FFF_FFFF,
        0xFFFF_FFFF,
    ];
    for n in values {
        assert_eq!(parse_address(&format!("0x{:x}", n)), Ok(n));
        assert_eq!(parse_address(&format!("0X{:X}", n)), Ok(n));
        assert_eq!(parse_address(&format!("{}", n)), Ok(n));
    }
}

#[test]
fn address_limits() {
    assert_eq!(parse_address("4294967295"), Ok(u32::MAX));
    assert_eq!(
        parse_address("4294967296"),
        Err(ParsingError::InvalidAddress("4294967296".to_string()))
    );
    assert_eq!(parse_address("0xffffffff"), Ok(u32::MAX));
    assert_eq!(
        parse_address("0x100000000"),
        Err(ParsingError::InvalidAddress("0x100000000".to_string()))
    );
    assert_eq!(parse_address("0x00000000000000000012"), Ok(0x12));
    assert_eq!(parse_address("00000000000000000012"), Ok(12));
}

#[test]
fn address_sign_and_digits() {
    // Nothing but digits may follow the prefix, not even a sign.
    assert_eq!(
        parse_address("+12"),
        Err(ParsingError::InvalidAddress("+12".to_string()))
    );
    assert_eq!(
        parse_address("0x+1f"),
        Err(ParsingError::InvalidAddress("0x+1f".to_string()))
    );
    assert_eq!(
        parse_address("+0x1f"),
        Err(ParsingError::InvalidAddress("+0x1f".to_string()))
    );
    assert!(parse_address("+").is_err());
    assert!(parse_address("++1").is_err());
    assert!(parse_address("-1").is_err());
    assert!(parse_address(" 1").is_err());
    assert!(parse_address("1 ").is_err());
    assert!(parse_address("1_000").is_err());
    assert!(parse_address("12ab").is_err());
    assert!(parse_address("0xg").is_err());
    assert_eq!(parse_address("0xAbCd"), Ok(0xabcd));
    assert!(parse_address("x12").is_err());
}

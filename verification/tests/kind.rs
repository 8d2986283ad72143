use hookpatch::hook::arm::{ArmBranch, ArmCondition};
use hookpatch::hook::{HookKind, ParsingError};

#[test]
fn test_hook_kind() {
    assert_eq!(
        HookKind::from_str("pre", "0x1234"),
        Ok(HookKind::Pre(0x1234))
    );
    assert_eq!(
        HookKind::from_str("post", "0x1234"),
        Ok(HookKind::Post(0x1234))
    );
    assert_eq!(
        HookKind::from_str("bleq", "0x1234"),
        Ok(HookKind::Branch(ArmBranch {
            condition: ArmCondition::EQ,
            link: true,
            from_addr: 0x1234
        }))
    );
    assert_eq!(
        HookKind::from_str("xyz", ""),
        Err(ParsingError::InvalidKind("xyz".to_string()).into())
    );
}

#[test]
fn hook_kind_other_variants() {
    assert_eq!(
        HookKind::from_str("replace", "0x100"),
        Ok(HookKind::Replace(0x100))
    );
    assert_eq!(
        HookKind::from_str("symptr", "256"),
        Ok(HookKind::Symptr(256))
    );
    assert_eq!(
        HookKind::from_str("PRE", "0x10"),
        Ok(HookKind::Pre(0x10))
    );
    assert_eq!(
        HookKind::from_str("b", "0x10"),
        Ok(HookKind::Branch(ArmBranch {
            condition: ArmCondition::AL,
            link: false,
            from_addr: 0x10
        }))
    );
}

#[test]
fn hook_kind_errors() {
    // A kind that is no branch mnemonic is quoted as it was given.
    assert_eq!(
        HookKind::from_str("XYZ", "0x10"),
        Err(ParsingError::InvalidKind("XYZ".to_string()))
    );
    assert_eq!(
        HookKind::from_str("", "0x10"),
        Err(ParsingError::InvalidKind("".to_string()))
    );
    assert_eq!(
        HookKind::from_str("pre", "zz"),
        Err(ParsingError::InvalidAddress("zz".to_string()))
    );
    assert_eq!(
        HookKind::from_str("symptr", ""),
        Err(ParsingError::InvalidAddress("".to_string()))
    );
    assert_eq!(
        HookKind::from_str("bzz", "0x10"),
        Err(ParsingError::InvalidCondition("zz".to_string()))
    );
    assert_eq!(
        HookKind::from_str("beq", "zz"),
        Err(ParsingError::InvalidAddress("zz".to_string()))
    );
}

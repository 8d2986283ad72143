use hookpatch::hook::arm::{
    make_branch_u32, make_pop_u32, make_push_u32, relocate_u32, ArmBranch, ArmCondition,
};
use hookpatch::hook::ParsingError;

#[test]
fn test_parse_condition() {
    assert_eq!(ArmCondition::from_str("eq"), Ok(ArmCondition::EQ));
    assert_eq!(ArmCondition::from_str("ne"), Ok(ArmCondition::NE));
    assert_eq!(ArmCondition::from_str("cs"), Ok(ArmCondition::CS));
    assert_eq!(ArmCondition::from_str("hs"), Ok(ArmCondition::CS));
    assert_eq!(ArmCondition::from_str("cc"), Ok(ArmCondition::CC));
    assert_eq!(ArmCondition::from_str("lo"), Ok(ArmCondition::CC));
    assert_eq!(ArmCondition::from_str("mi"), Ok(ArmCondition::MI));
    assert_eq!(ArmCondition::from_str("pl"), Ok(ArmCondition::PL));
    assert_eq!(ArmCondition::from_str("vs"), Ok(ArmCondition::VS));
    assert_eq!(ArmCondition::from_str("vc"), Ok(ArmCondition::VC));
    assert_eq!(ArmCondition::from_str("hi"), Ok(ArmCondition::HI));
    assert_eq!(ArmCondition::from_str("ls"), Ok(ArmCondition::LS));
    assert_eq!(ArmCondition::from_str("ge"), Ok(ArmCondition::GE));
    assert_eq!(ArmCondition::from_str("lt"), Ok(ArmCondition::LT));
    assert_eq!(ArmCondition::from_str("gt"), Ok(ArmCondition::GT));
    assert_eq!(ArmCondition::from_str("le"), Ok(ArmCondition::LE));
    assert_eq!(ArmCondition::from_str("al"), Ok(ArmCondition::AL));
    assert_eq!(ArmCondition::from_str("nv"), Ok(ArmCondition::NV));
    assert_eq!(ArmCondition::from_str(""), Ok(ArmCondition::AL));
    assert_eq!(ArmCondition::from_str("EQ"), Ok(ArmCondition::EQ));
    assert_eq!(ArmCondition::from_str("Ne"), Ok(ArmCondition::NE));
    assert_eq!(ArmCondition::from_str("cS"), Ok(ArmCondition::CS));
    assert_eq!(
        ArmCondition::from_str("xyz"),
        Err(ParsingError::InvalidCondition("xyz".to_string()))
    );
}

#[test]
fn test_parse_branch() {
    assert_eq!(
        ArmBranch::from_str("b", "0x0"),
        Ok(ArmBranch {
            condition: ArmCondition::AL,
            link: false,
            from_addr: 0x0
        })
    );
    assert_eq!(
        ArmBranch::from_str("bl", "0x4"),
        Ok(ArmBranch {
            condition: ArmCondition::AL,
            link: true,
            from_addr: 0x4
        })
    );
    assert_eq!(
        ArmBranch::from_str("beq", "0x8"),
        Ok(ArmBranch {
            condition: ArmCondition::EQ,
            link: false,
            from_addr: 0x8
        })
    );
    assert_eq!(
        ArmBranch::from_str("blt", "0xC"),
        Ok(ArmBranch {
            condition: ArmCondition::LT,
            link: false,
            from_addr: 0xC
        })
    );
    assert_eq!(
        ArmBranch::from_str("bllt", "512"),
        Ok(ArmBranch {
            condition: ArmCondition::LT,
            link: true,
            from_addr: 512
        })
    );
    assert_eq!(
        ArmBranch::from_str("blltx", "0"),
        Err(ParsingError::InvalidBranch("blltx".to_string()))
    );
    assert_eq!(
        ArmBranch::from_str("b", "xyz"),
        Err(ParsingError::InvalidAddress("xyz".to_string()))
    );
}

#[test]
fn condition_codes_follow_the_architecture() {
    let all = [
        ArmCondition::EQ,
        ArmCondition::NE,
        ArmCondition::CS,
        ArmCondition::CC,
        ArmCondition::MI,
        ArmCondition::PL,
        ArmCondition::VS,
        ArmCondition::VC,
        ArmCondition::HI,
        ArmCondition::LS,
        ArmCondition::GE,
        ArmCondition::LT,
        ArmCondition::GT,
        ArmCondition::LE,
        ArmCondition::AL,
        ArmCondition::NV,
    ];
    for (i, c) in all.iter().enumerate() {
        assert_eq!(c.code(), i as u32);
    }
}

#[test]
fn branch_mnemonic_is_lowered_in_errors() {
    assert_eq!(
        ArmBranch::from_str("BLLTX", "0"),
        Err(ParsingError::InvalidBranch("blltx".to_string()))
    );
    assert_eq!(
        ArmBranch::from_str("BXY", "0"),
        Err(ParsingError::InvalidCondition("xy".to_string()))
    );
    assert_eq!(
        ArmBranch::from_str("xyz", "0"),
        Err(ParsingError::InvalidBranch("xyz".to_string()))
    );
    assert_eq!(
        ArmBranch::from_str("", "0"),
        Err(ParsingError::InvalidBranch("".to_string()))
    );
    // The condition is looked at before the address.
    assert_eq!(
        ArmBranch::from_str("bxy", "zzz"),
        Err(ParsingError::InvalidCondition("xy".to_string()))
    );
    assert_eq!(
        ArmBranch::from_str("BLEQ", "0x10"),
        Ok(ArmBranch {
            condition: ArmCondition::EQ,
            link: true,
            from_addr: 0x10
        })
    );
}

#[test]
fn branch_encoding_examples() {
    assert_eq!(
        make_branch_u32(false, 0x1000, 0x1008, ArmCondition::AL),
        Some(0xEA000000)
    );
    assert_eq!(
        make_branch_u32(true, 0x1000, 0x0, ArmCondition::AL),
        Some(0xEBFFFBFE)
    );
    assert_eq!(
        make_branch_u32(true, 0x8, 0x0, ArmCondition::AL),
        Some(0xEBFFFFFC)
    );
    assert_eq!(
        make_branch_u32(false, 0x100000, 0x100000, ArmCondition::EQ),
        Some(0x0AFFFFFE)
    );
    assert_eq!(
        make_branch_u32(true, 0x100000, 0x400000, ArmCondition::AL),
        Some(0xEB0BFFFE)
    );
}

#[test]
fn branch_range_ends() {
    // The distance in instructions, less two, has to lie in [-2^24, 2^24 - 1].
    let from = 0x0800_0000u32;
    let far = from + 4 * (0x00FF_FFFF + 2);
    assert_eq!(
        make_branch_u32(false, from, far, ArmCondition::AL),
        Some(0xEAFF_FFFF)
    );
    assert_eq!(make_branch_u32(false, from, far + 4, ArmCondition::AL), None);
    let near = from - 4 * (0x0100_0000 - 2);
    assert_eq!(
        make_branch_u32(false, from, near, ArmCondition::AL),
        Some(0xEA00_0000)
    );
    assert_eq!(make_branch_u32(false, from, near - 4, ArmCondition::AL), None);
    assert_eq!(make_branch_u32(true, 0, 0xFFFF_FFFC, ArmCondition::AL), None);
}

fn decoded_target(word: u32, at: u32) -> i64 {
    let field = (word & 0x00FF_FFFF) as i64;
    let offset = if field >= 0x80_0000 { field - 0x100_0000 } else { field };
    at as i64 + 8 + 4 * offset
}

#[test]
fn branch_decodes_to_its_target() {
    let pairs: [(u32, u32); 6] = [
        (0x1000, 0x1008),
        (0x1000, 0x0),
        (0x0010_0000, 0x0040_0000),
        (0x0200_0000, 0x0200_0000 + 8 + 0x01FF_FFFC),
        (0x0200_0000, 0x0200_0000 + 8 - 0x01FF_FFFC),
        (0x1002, 0x2006),
    ];
    for (from, to) in pairs {
        let word = make_branch_u32(true, from, to, ArmCondition::AL).unwrap();
        assert_eq!(decoded_target(word, from), to as i64);
        assert_eq!(word >> 24, 0xEB);
    }
}

#[test]
fn push_and_pop_words() {
    assert_eq!(make_push_u32(0x5FFF, ArmCondition::AL), 0xE92D_5FFF);
    assert_eq!(make_pop_u32(0x5FFF, ArmCondition::AL), 0xE8BD_5FFF);
    assert_eq!(make_push_u32(0x0001, ArmCondition::EQ), 0x092D_0001);
    assert_eq!(make_pop_u32(0x8000, ArmCondition::NE), 0x18BD_8000);
}

#[test]
fn relocate_keeps_other_words() {
    assert_eq!(relocate_u32(0xE92D_5FFF, 0x1000, 0x9000), Some(0xE92D_5FFF));
    assert_eq!(relocate_u32(0xE1A0_0000, 0x1000, 0x0), Some(0xE1A0_0000));
    assert_eq!(relocate_u32(0, 0, 0xFFFF_FFFF), Some(0));
}

#[test]
fn relocate_keeps_the_destination() {
    // A forward branch from 0x1000 to 0x2000, moved to 0x8000.
    let word = make_branch_u32(false, 0x1000, 0x2000, ArmCondition::NE).unwrap();
    let moved = relocate_u32(word, 0x1000, 0x8000).unwrap();
    assert_eq!(moved, make_branch_u32(false, 0x8000, 0x2000, ArmCondition::NE).unwrap());
    assert_eq!(decoded_target(moved, 0x8000), 0x2000);
    // A backward linking branch from 0x4000 to 0x100, moved forward.
    let word = make_branch_u32(true, 0x4000, 0x100, ArmCondition::AL).unwrap();
    assert_eq!(decoded_target(word, 0x4000), 0x100);
    let moved = relocate_u32(word, 0x4000, 0x10_0000).unwrap();
    assert_eq!(moved, 0xEBFC_003E);
    assert_eq!(decoded_target(moved, 0x10_0000), 0x100);
    // Moving to the same place changes nothing.
    assert_eq!(relocate_u32(word, 0x4000, 0x4000), Some(word));
}

#[test]
fn relocate_out_of_range() {
    // The field of the word holds the offsets from -2^23 to 2^23 - 1.
    // Offset 0 at address 0, moved up: the way back gets longer.
    assert_eq!(
        relocate_u32(0xEA00_0000, 0x0, 0x0200_0000),
        Some(0xEA80_0000)
    );
    assert_eq!(decoded_target(0xEA80_0000, 0x0200_0000), 8);
    assert_eq!(relocate_u32(0xEA00_0000, 0x0, 0x0200_0004), None);
    assert_eq!(relocate_u32(0xEA00_0000, 0x0, 0x0400_0000), None);
    assert_eq!(relocate_u32(0xEA00_0000, 0x0, 0x0400_0004), None);
    // Moved down: the way forward gets longer.
    assert_eq!(
        relocate_u32(0xEA00_0000, 0x01FF_FFFC, 0x0),
        Some(0xEA7F_FFFF)
    );
    assert_eq!(decoded_target(0xEA7F_FFFF, 0), 0x01FF_FFFC + 8);
    assert_eq!(relocate_u32(0xEA00_0000, 0x0200_0000, 0x0), None);
    assert_eq!(relocate_u32(0xEA00_0000, 0x0800_0000, 0x0), None);
    // A linking branch with a condition keeps both.
    assert_eq!(
        relocate_u32(0x1BFF_FFFE, 0x1000, 0x2000),
        Some(0x1BFF_FBFE)
    );
    assert_eq!(decoded_target(0x1BFF_FBFE, 0x2000), 0x1000);
}

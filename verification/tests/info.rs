use hookpatch::hook::arm::{ArmBranch, ArmCondition};
use hookpatch::hook::symbol_safe::{path_to_symbol_safe, DecodeError};
use hookpatch::hook::{Error, HookInfo, HookKind, HookLocation, HookMeta, MetaParsingError, ParsingError};

#[test]
fn test_hook_info() {
    let file = "src/main.cpp".to_string();
    assert_eq!(
        HookInfo::from_str(&format!("pre$0x1234${}$10$0", path_to_symbol_safe(&file))),
        Ok(HookInfo {
            kind: HookKind::Pre(0x1234),
            location: HookLocation { file, line: 10 },
            counter: 0,
        })
    );

    let file = "src/sub/test_file.s".to_string();
    assert_eq!(
        HookInfo::from_str(&format!("post$0x1234${}$10$1", path_to_symbol_safe(&file))),
        Ok(HookInfo {
            kind: HookKind::Post(0x1234),
            location: HookLocation { file, line: 10 },
            counter: 1,
        })
    );

    let file = "src/main.cpp".to_string();
    assert_eq!(
        HookInfo::from_str(&format!("b$0x1234${}$42$2", path_to_symbol_safe(&file))),
        Ok(HookInfo {
            kind: HookKind::Branch(ArmBranch {
                condition: ArmCondition::AL,
                link: false,
                from_addr: 0x1234
            }),
            location: HookLocation { file, line: 42 },
            counter: 2,
        })
    );

    assert_eq!(
        HookInfo::from_str(""),
        Err(Error::MetaParsingError(MetaParsingError::MissingKind))
    );
    assert_eq!(
        HookInfo::from_str("b"),
        Err(Error::MetaParsingError(MetaParsingError::MissingArgument))
    );
    assert_eq!(
        HookInfo::from_str("b$0x1234"),
        Err(Error::MetaParsingError(MetaParsingError::MissingFile))
    );
    assert_eq!(
        HookInfo::from_str("b$0x1234$src/main.cpp"),
        Err(Error::MetaParsingError(MetaParsingError::MissingLine))
    );
    assert_eq!(
        HookInfo::from_str("b$0x1234$src/main.cpp$10"),
        Err(Error::MetaParsingError(MetaParsingError::MissingCounter))
    );
    assert_eq!(
        HookInfo::from_str("pre$0x1234$a$10$0"),
        Err(Error::MetaParsingError(MetaParsingError::InvalidFile(
            DecodeError::InvalidBase32
        )))
    );
}

#[test]
fn test_hook_from_symbol() {
    let file = "src/main.cpp".to_string();
    assert_eq!(
        HookInfo::from_symbol_str(&format!(
            "__mw_hook_bl$0x00${}$10$0",
            path_to_symbol_safe(&file)
        )),
        Ok(HookInfo {
            kind: HookKind::Branch(ArmBranch {
                condition: ArmCondition::AL,
                link: true,
                from_addr: 0x00
            }),
            location: HookLocation { file, line: 10 },
            counter: 0
        })
    );

    let file = "src/sub/test_file.s".to_string();
    assert_eq!(
        HookInfo::from_symbol_str(&format!(
            "__mw_hook_bl$0x00${}$42$0@0",
            path_to_symbol_safe(&file)
        )),
        Ok(HookInfo {
            kind: HookKind::Branch(ArmBranch {
                condition: ArmCondition::AL,
                link: true,
                from_addr: 0x00
            }),
            location: HookLocation { file, line: 42 },
            counter: 0
        })
    );

    assert_eq!(HookInfo::from_symbol_str("xyz"), Err(Error::InvalidPrefix));
}

#[test]
fn test_hook_from_section() {
    let file = "src/main.cpp".to_string();
    assert_eq!(
        HookInfo::from_section_str(&format!(
            ".__mw_hook_bl$0x00${}$10$0",
            path_to_symbol_safe(&file)
        )),
        Ok(HookInfo {
            kind: HookKind::Branch(ArmBranch {
                condition: ArmCondition::AL,
                link: true,
                from_addr: 0x00
            }),
            location: HookLocation { file, line: 10 },
            counter: 0
        })
    );
    assert_eq!(HookInfo::from_section_str("xyz"), Err(Error::InvalidPrefix));
}

#[test]
fn section_hook_scenario() {
    assert_eq!(
        HookInfo::from_section_str(".__mw_hook_pre$0x1234$ONZGGL3NMFUW4LTDOBYA$10$0"),
        Ok(HookInfo {
            kind: HookKind::Pre(0x1234),
            location: HookLocation {
                file: "src/main.cpp".to_string(),
                line: 10
            },
            counter: 0
        })
    );
    assert_eq!(
        HookInfo::from_section_str(".__mw_hook_replace$0x100000$ONZGGL3NMFUW4LTDOBYA$7$3"),
        Ok(HookInfo {
            kind: HookKind::Replace(0x100000),
            location: HookLocation {
                file: "src/main.cpp".to_string(),
                line: 7
            },
            counter: 3
        })
    );
    // The symbol prefix is no section prefix.
    assert_eq!(
        HookInfo::from_section_str("__mw_hook_pre$0x1234$ONZGGL3NMFUW4LTDOBYA$10$0"),
        Err(Error::InvalidPrefix)
    );
    assert_eq!(
        HookInfo::from_section_str(".__mw_hook_"),
        Err(Error::MetaParsingError(MetaParsingError::MissingKind))
    );
}

#[test]
fn symbol_suffix_is_cut_at_the_last_at_sign() {
    let tag = "__mw_hook_symptr$16$ONZGGL3NMFUW4LTDOBYA$3$1";
    let expected = Ok(HookInfo {
        kind: HookKind::Symptr(16),
        location: HookLocation {
            file: "src/main.cpp".to_string(),
            line: 3,
        },
        counter: 1,
    });
    assert_eq!(HookInfo::from_symbol_str(tag), expected);
    assert_eq!(HookInfo::from_symbol_str(&format!("{tag}@12")), expected);
    assert_eq!(HookInfo::from_symbol_str(&format!("{tag}@")), expected);
    // Only what follows the last `@` goes: the first one stays in the counter.
    assert_eq!(
        HookInfo::from_symbol_str(&format!("{tag}@1@2")),
        Err(Error::MetaParsingError(MetaParsingError::InvalidCounter(
            "1@1".to_string()
        )))
    );
    assert_eq!(
        HookInfo::from_symbol_str("__mw_hook_@"),
        Err(Error::MetaParsingError(MetaParsingError::MissingKind))
    );
}

#[test]
fn kind_errors_carry_the_location() {
    assert_eq!(
        HookInfo::from_str("xyz$0x10$ONZGGL3NMFUW4LTDOBYA$10$0"),
        Err(Error::ParsingError(
            ParsingError::InvalidKind("xyz".to_string()),
            HookLocation {
                file: "src/main.cpp".to_string(),
                line: 10
            }
        ))
    );
    assert_eq!(
        HookInfo::from_str("pre$zz$ONZGGL3NMFUW4LTDOBYA$10$0"),
        Err(Error::ParsingError(
            ParsingError::InvalidAddress("zz".to_string()),
            HookLocation {
                file: "src/main.cpp".to_string(),
                line: 10
            }
        ))
    );
}

#[test]
fn meta_errors_in_field_order() {
    let whole = "pre$0x10$ONZGGL3NMFUW4LTDOBYA$10$0";
    let cuts: [(&str, MetaParsingError); 5] = [
        ("", MetaParsingError::MissingKind),
        ("pre", MetaParsingError::MissingArgument),
        ("pre$0x10", MetaParsingError::MissingFile),
        ("pre$0x10$ONZGGL3NMFUW4LTDOBYA", MetaParsingError::MissingLine),
        ("pre$0x10$ONZGGL3NMFUW4LTDOBYA$10", MetaParsingError::MissingCounter),
    ];
    for (cut, error) in cuts {
        assert!(whole.starts_with(cut));
        assert_eq!(HookMeta::from_str(cut).err(), Some(error));
    }
    let meta = HookMeta::from_str(whole).ok().unwrap();
    assert_eq!(meta.kind_str, "pre");
    assert_eq!(meta.arg_str, "0x10");
    assert_eq!(
        meta.location,
        HookLocation {
            file: "src/main.cpp".to_string(),
            line: 10
        }
    );
    assert_eq!(meta.counter, 0);
}

#[test]
fn meta_field_errors() {
    // Empty fields are there, so the file is what is refused first.
    assert_eq!(
        HookMeta::from_str("$$$$").err(),
        Some(MetaParsingError::InvalidLine("".to_string()))
    );
    assert_eq!(
        HookMeta::from_str("pre$1$!$x$y").err(),
        Some(MetaParsingError::InvalidFile(DecodeError::InvalidBase32))
    );
    assert_eq!(
        HookMeta::from_str("pre$1$QA$x$y").err(),
        Some(MetaParsingError::InvalidFile(DecodeError::InvalidUtf8))
    );
    assert_eq!(
        HookMeta::from_str("pre$1$MY$x$y").err(),
        Some(MetaParsingError::InvalidLine("x".to_string()))
    );
    assert_eq!(
        HookMeta::from_str("pre$1$MY$1$y").err(),
        Some(MetaParsingError::InvalidCounter("y".to_string()))
    );
    assert_eq!(
        HookMeta::from_str("pre$1$MY$4294967296$0").err(),
        Some(MetaParsingError::InvalidLine("4294967296".to_string()))
    );
    // A sign is no digit.
    assert_eq!(
        HookMeta::from_str("pre$1$MY$+1$0").err(),
        Some(MetaParsingError::InvalidLine("+1".to_string()))
    );
    assert_eq!(
        HookMeta::from_str("pre$1$MY$1$+0").err(),
        Some(MetaParsingError::InvalidCounter("+0".to_string()))
    );
    assert_eq!(
        HookInfo::from_str("pre$+1$MY$1$0"),
        Err(Error::ParsingError(
            ParsingError::InvalidAddress("+1".to_string()),
            HookLocation {
                file: "f".to_string(),
                line: 1
            }
        ))
    );
    // Fields after the fifth are not looked at.
    let meta = HookMeta::from_str("pre$1$MY$2$3$rest$more").ok().unwrap();
    assert_eq!(meta.kind_str, "pre");
    assert_eq!(meta.arg_str, "1");
    assert_eq!(meta.location.file, "f");
    assert_eq!(meta.location.line, 2);
    assert_eq!(meta.counter, 3);
}

#[test]
fn location_text() {
    let location = HookLocation {
        file: "src/main.cpp".to_string(),
        line: 10,
    };
    assert_eq!(location.to_string(), "src/main.cpp:10");
    let location = HookLocation {
        file: String::new(),
        line: 0,
    };
    assert_eq!(location.to_string(), ":0");
    let location = HookLocation {
        file: "a".to_string(),
        line: u32::MAX,
    };
    assert_eq!(location.clone().to_string(), "a:4294967295");
}

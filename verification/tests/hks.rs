use hookpatch::hook::hks::{HksEntry, HksError, HksParseError, HksReader};

fn pairs(list: &[(&str, &str)]) -> Vec<(String, String)> {
    list.iter()
        .map(|(k, v)| (k.to_string(), v.to_string()))
        .collect()
}

#[test]
fn hks_test_read() {
    let mut reader = HksReader::new(
        r#"test:
    a: 1
    b: 2
    c: 3

test2:
    a: 1
test3:
    b: 1:2:3
"#,
    );
    assert_eq!(
        reader.next().unwrap().unwrap(),
        HksEntry::from_parts(
            "test".into(),
            1,
            pairs(&[("a", "1"), ("b", "2"), ("c", "3")])
        )
    );

    assert_eq!(
        reader.next().unwrap().unwrap(),
        HksEntry::from_parts("test2".into(), 6, pairs(&[("a", "1")]))
    );

    assert_eq!(
        reader.next().unwrap().unwrap(),
        HksEntry::from_parts("test3".into(), 8, pairs(&[("b", "1:2:3")]))
    );

    assert!(reader.next().is_none());
}

#[test]
fn test_read_errors() {
    let mut reader = HksReader::new(" a: 1");
    assert_eq!(
        reader.next().unwrap().unwrap_err(),
        HksError::InvalidTitleLine(1)
    );

    let mut reader = HksReader::new("test:\n a\n");
    assert_eq!(
        reader.next().unwrap().unwrap_err(),
        HksError::InvalidKeyValueLine(2)
    );

    let mut reader = HksReader::new("test:\n :a\n");
    assert_eq!(reader.next().unwrap().unwrap_err(), HksError::EmptyKey(2));

    let mut reader = HksReader::new("test:\n a:\n");
    assert_eq!(reader.next().unwrap().unwrap_err(), HksError::EmptyValue(2));
}

#[test]
fn duplicate_key_is_refused() {
    let mut reader = HksReader::new("t:\n a: 1\n b: 2\n A : 3\n");
    let error = reader.next().unwrap().unwrap_err();
    assert_eq!(error, HksError::DuplicateKey(4, "a".to_string()));
    assert_eq!(error.line(), 4);
    // The same key may come back in the next entry.
    let mut reader = HksReader::new("t:\n a: 1\nu:\n a: 2\n");
    assert!(reader.next().unwrap().is_ok());
    let mut second = reader.next().unwrap().unwrap();
    assert_eq!(second.line(), 3);
    assert_eq!(second.get("a"), Ok("2".to_string()));
}

#[test]
fn error_lines() {
    assert_eq!(HksError::InvalidTitleLine(3).line(), 3);
    assert_eq!(HksError::InvalidKeyValueLine(4).line(), 4);
    assert_eq!(HksError::EmptyKey(5).line(), 5);
    assert_eq!(HksError::EmptyValue(6).line(), 6);
    assert_eq!(HksError::DuplicateKey(7, "k".to_string()).line(), 7);
}

#[test]
fn comments_and_blank_lines_are_passed_over() {
    let plain = "site:\n  type: branch\n  link: true\n";
    let noisy = "# head\n\n   \t\nsite:   # the title\n\n  # a comment\n  type: branch # why\n\n  link: true\n# tail\n";
    let mut a = HksReader::new(plain).next().unwrap().unwrap();
    let mut b = HksReader::new(noisy).next().unwrap().unwrap();
    assert_eq!(a.line(), 1);
    assert_eq!(b.line(), 4);
    for key in ["type", "link"] {
        assert_eq!(a.get(key), b.get(key));
    }
    assert!(a.is_done() && b.is_done());
    let mut reader = HksReader::new("# only\n\n  # comments\n");
    assert!(reader.next().is_none());
    assert!(reader.next().is_none());
    assert!(HksReader::new("").next().is_none());
}

#[test]
fn title_and_property_forms() {
    let mut reader = HksReader::new("no colon\n\tKEY  :  some value  \nnext::\r\n x:y\r\nlast");
    assert_eq!(
        reader.next().unwrap().unwrap(),
        HksEntry::from_parts("no colon".into(), 1, pairs(&[("key", "some value")]))
    );
    assert_eq!(
        reader.next().unwrap().unwrap(),
        HksEntry::from_parts("next:".into(), 3, pairs(&[("x", "y")]))
    );
    assert_eq!(
        reader.next().unwrap().unwrap(),
        HksEntry::from_parts("last".into(), 5, pairs(&[]))
    );
    assert!(reader.next().is_none());
}

#[test]
fn reader_goes_on_after_an_error() {
    let mut reader = HksReader::new("a:\n x\n y: 1\nb:\n z: 2\n");
    assert_eq!(
        reader.next().unwrap().unwrap_err(),
        HksError::InvalidKeyValueLine(2)
    );
    // The entry is lost; its next property line stands where a title is due.
    assert_eq!(
        reader.next().unwrap().unwrap_err(),
        HksError::InvalidTitleLine(3)
    );
    assert_eq!(
        reader.next().unwrap().unwrap(),
        HksEntry::from_parts("b".into(), 4, pairs(&[("z", "2")]))
    );
    assert!(reader.next().is_none());
}

#[test]
fn entry_is_consumed_key_by_key() {
    let mut entry = HksEntry::from_parts(
        "t".into(),
        9,
        pairs(&[
            ("addr", "0x100000"),
            ("link", "true"),
            ("off", "false"),
            ("bad", "yes"),
            ("dest", "zz"),
            ("n", "12"),
        ]),
    );
    assert_eq!(entry.line(), 9);
    assert!(!entry.is_done());
    let mut keys = entry.remaining_keys();
    keys.sort();
    assert_eq!(keys, vec!["addr", "bad", "dest", "link", "n", "off"]);
    assert!(entry.has("addr"));
    assert!(!entry.has("ADDR"));
    assert_eq!(entry.get_address("addr"), Ok(0x100000));
    assert!(!entry.has("addr"));
    assert_eq!(
        entry.get_address("addr"),
        Err(HksParseError::MissingKey("addr".to_string()))
    );
    assert_eq!(entry.get_bool("link"), Ok(true));
    assert_eq!(entry.get_bool("off"), Ok(false));
    assert_eq!(
        entry.get_bool("bad"),
        Err(HksParseError::InvalidTypeValue(
            "bool".to_string(),
            "yes".to_string()
        ))
    );
    // A value that could not be read is gone all the same.
    assert!(!entry.has("bad"));
    assert_eq!(
        entry.get_address("dest"),
        Err(HksParseError::InvalidTypeValue(
            "address".to_string(),
            "zz".to_string()
        ))
    );
    assert_eq!(
        entry.get("missing"),
        Err(HksParseError::MissingKey("missing".to_string()))
    );
    assert_eq!(entry.remaining_keys(), vec!["n"]);
    assert_eq!(entry.get("n"), Ok("12".to_string()));
    assert!(entry.is_done());
    assert!(entry.remaining_keys().is_empty());
}

#[test]
fn addresses_of_entries_are_digits_only() {
    let mut entry = HksEntry::from_parts(
        "t".into(),
        1,
        pairs(&[("a", "+16"), ("b", "0x+10"), ("c", "0X10"), ("d", "16")]),
    );
    assert_eq!(
        entry.get_address("a"),
        Err(HksParseError::InvalidTypeValue(
            "address".to_string(),
            "+16".to_string()
        ))
    );
    assert_eq!(
        entry.get_address("b"),
        Err(HksParseError::InvalidTypeValue(
            "address".to_string(),
            "0x+10".to_string()
        ))
    );
    assert_eq!(entry.get_address("c"), Ok(16));
    assert_eq!(entry.get_address("d"), Ok(16));
}

#[test]
fn later_pair_replaces_earlier_one() {
    let mut entry = HksEntry::from_parts("t".into(), 1, pairs(&[("a", "1"), ("b", "2"), ("a", "3")]));
    assert_eq!(entry.remaining_keys().len(), 2);
    assert_eq!(entry.get("a"), Ok("3".to_string()));
    assert_eq!(entry.get("b"), Ok("2".to_string()));
    assert!(entry.is_done());
}

#[test]
fn entries_compare_by_what_they_hold() {
    let a = HksEntry::from_parts("t".into(), 1, pairs(&[("a", "1"), ("b", "2")]));
    let b = HksEntry::from_parts("t".into(), 1, pairs(&[("b", "2"), ("a", "1")]));
    assert_eq!(a, b);
    assert_ne!(a, HksEntry::from_parts("u".into(), 1, pairs(&[("a", "1"), ("b", "2")])));
    assert_ne!(a, HksEntry::from_parts("t".into(), 2, pairs(&[("a", "1"), ("b", "2")])));
    assert_ne!(a, HksEntry::from_parts("t".into(), 1, pairs(&[("a", "1")])));
    assert_ne!(a, HksEntry::from_parts("t".into(), 1, pairs(&[("a", "1"), ("b", "3")])));
    assert_ne!(a, HksEntry::from_parts("t".into(), 1, pairs(&[("a", "1"), ("c", "2")])));
    assert_ne!(
        a,
        HksEntry::from_parts("t".into(), 1, pairs(&[("a", "1"), ("b", "2"), ("c", "3")]))
    );
}

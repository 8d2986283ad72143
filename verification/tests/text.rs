use hookpatch::text::{
    chars_of, decimal_string, digit_in, find_char, hex_string, is_text, is_whitespace, read_u32,
    rfind_char, same_text, slice_of, split_ranges, starts_with, str_eq, text_of, to_lower_char,
    to_lowercase, trim_end_index, trim_start_index,
};

/// A small generator of numbers, the same on every run.
struct Numbers(u64);

impl Numbers {
    fn next(&mut self) -> u64 {
        self.0 = self
            .0
            .wrapping_mul(6364136223846793005)
            .wrapping_add(1442695040888963407);
        self.0 >> 33
    }

    fn text(&mut self, alphabet: &[char], max_len: u64) -> String {
        let len = self.next() % (max_len + 1);
        (0..len)
            .map(|_| alphabet[(self.next() % alphabet.len() as u64) as usize])
            .collect()
    }
}

fn chars(s: &str) -> Vec<char> {
    s.chars().collect()
}

#[test]
fn characters_and_strings() {
    for s in ["", "a", "héllo wörld", "\u{10FFFF}\0\n"] {
        assert_eq!(chars_of(s), chars(s));
        let v = chars(s);
        assert_eq!(text_of(&v, 0, v.len()), s);
        assert_eq!(slice_of(&v, 0, v.len()), v);
        assert!(str_eq(s, s));
        assert!(same_text(&v, &v));
        assert!(is_text(&v, s));
    }
    let v = chars("héllo");
    assert_eq!(text_of(&v, 1, 3), "él");
    assert_eq!(text_of(&v, 2, 2), "");
    assert_eq!(slice_of(&v, 3, 5), chars("lo"));
    assert!(!str_eq("a", "b"));
    assert!(!str_eq("a", "ab"));
    assert!(!str_eq("ab", "a"));
    assert!(!is_text(&v, "hello"));
    assert!(starts_with(&v, &chars("")));
    assert!(starts_with(&v, &chars("hé")));
    assert!(starts_with(&v, &v));
    assert!(!starts_with(&v, &chars("he")));
    assert!(!starts_with(&v, &chars("héllo!")));
}

#[test]
fn white_space_is_what_the_standard_library_says() {
    for code in 0..=0x10FFFFu32 {
        if let Some(c) = char::from_u32(code) {
            assert_eq!(is_whitespace(c), c.is_whitespace(), "U+{code:04X}");
        }
    }
}

#[test]
fn lower_case_is_ascii_only() {
    for code in 0..=0x10FFFFu32 {
        if let Some(c) = char::from_u32(code) {
            assert_eq!(to_lower_char(c), c.to_ascii_lowercase(), "U+{code:04X}");
        }
    }
    let v = chars("AbC ÄÖ xyZ[@`{");
    assert_eq!(
        to_lowercase(&v, 0, v.len()),
        chars(&"AbC ÄÖ xyZ[@`{".to_ascii_lowercase())
    );
    assert_eq!(to_lowercase(&v, 1, 3), chars("bc"));
}

#[test]
fn digits_are_what_the_standard_library_says() {
    for radix in 2..=36u32 {
        for code in 0..=0x2FFFu32 {
            if let Some(c) = char::from_u32(code) {
                assert_eq!(digit_in(c, radix), c.to_digit(radix), "U+{code:04X} in {radix}");
            }
        }
    }
}

#[test]
fn numbers_are_read_as_the_standard_library_reads_them() {
    let alphabet = chars("0123456789abcdefABCDEFgGzZ+-_ x");
    let digits = chars("0123456789");
    let hex = chars("0123456789abcdefABCDEF");
    let mut numbers = Numbers(1);
    for round in 0..30000 {
        let s = match round % 3 {
            0 => numbers.text(&alphabet, 6),
            1 => numbers.text(&digits, 12),
            _ => numbers.text(&hex, 10),
        };
        let v = chars(&s);
        for radix in [10u32, 16] {
            // The standard library takes a plus sign before the digits;
            // here nothing but digits counts.
            let expected = if s.starts_with('+') {
                None
            } else {
                u32::from_str_radix(&s, radix).ok()
            };
            assert_eq!(read_u32(&v, 0, v.len(), radix), expected, "{s:?} in {radix}");
        }
    }
    assert_eq!(read_u32(&chars("+1"), 0, 2, 10), None);
    assert_eq!(read_u32(&chars("+1"), 1, 2, 10), Some(1));
    let v = chars("xx123yy");
    assert_eq!(read_u32(&v, 2, 5, 10), Some(123));
    assert_eq!(read_u32(&v, 2, 6, 10), None);
    assert_eq!(read_u32(&v, 2, 2, 10), None);
    assert_eq!(read_u32(&chars("zz"), 0, 2, 36), Some(35 * 36 + 35));
    assert_eq!(read_u32(&chars("101"), 0, 3, 2), Some(5));
}

#[test]
fn numbers_are_written_as_the_standard_library_writes_them() {
    let mut numbers = Numbers(2);
    let mut values = vec![0u32, 1, 9, 10, 15, 16, 99, 100, 255, 256, u32::MAX, u32::MAX - 1];
    for _ in 0..2000 {
        values.push(numbers.next() as u32);
        values.push((numbers.next() % 70000) as u32);
    }
    for n in values {
        assert_eq!(hex_string(n), format!("{n:x}"));
        assert_eq!(decimal_string(n), format!("{n}"));
    }
}

#[test]
fn trimming_is_what_the_standard_library_does() {
    let alphabet = chars(" \t\n\r\u{b}\u{c}\u{85}\u{a0}\u{2003}\u{3000}ab:#");
    let mut numbers = Numbers(3);
    for _ in 0..20000 {
        let s = numbers.text(&alphabet, 8);
        let v = chars(&s);
        let b = trim_start_index(&v, 0, v.len());
        let e = trim_end_index(&v, 0, v.len());
        assert_eq!(text_of(&v, b, v.len()), s.trim_start(), "{s:?}");
        assert_eq!(text_of(&v, 0, e), s.trim_end(), "{s:?}");
        let e = trim_end_index(&v, b, v.len());
        assert_eq!(text_of(&v, b, e), s.trim(), "{s:?}");
    }
    let v = chars("  ab  ");
    assert_eq!(trim_start_index(&v, 1, 5), 2);
    assert_eq!(trim_end_index(&v, 1, 5), 4);
    assert_eq!(trim_start_index(&v, 4, 6), 6);
    assert_eq!(trim_end_index(&v, 4, 6), 4);
}

#[test]
fn finding_and_splitting() {
    let alphabet = chars("ab$$@");
    let mut numbers = Numbers(4);
    for _ in 0..20000 {
        let s = numbers.text(&alphabet, 10);
        let v = chars(&s);
        assert_eq!(find_char(&v, 0, v.len(), '$'), s.find('$'), "{s:?}");
        assert_eq!(rfind_char(&v, 0, v.len(), '@'), s.rfind('@'), "{s:?}");
        let fields: Vec<String> = split_ranges(&v, '$')
            .into_iter()
            .map(|(from, to)| text_of(&v, from, to))
            .collect();
        let expected: Vec<&str> = s.split('$').collect();
        assert_eq!(fields, expected, "{s:?}");
    }
    let v = chars("a$b$c");
    assert_eq!(find_char(&v, 2, 5, '$'), Some(3));
    assert_eq!(find_char(&v, 4, 5, '$'), None);
    assert_eq!(rfind_char(&v, 0, 3, '$'), Some(1));
    assert_eq!(rfind_char(&v, 0, 1, '$'), None);
    assert_eq!(split_ranges(&chars(""), '$'), vec![(0, 0)]);
    assert_eq!(split_ranges(&chars("$"), '$'), vec![(0, 0), (1, 1)]);
}

//! Character-level helpers shared by the parsers.
//!
//! Every parser of this crate reads its input once into a `Vec<char>` and
//! then works on index ranges of that vector.  The specifications speak of
//! `Seq<char>`, the view of `str` and `String`.

use vstd::prelude::*;

verus! {

/// `String::push` of the standard library: appends one character to the end
/// of the string and leaves what was there untouched.
pub assume_specification[ String::push ](s: &mut String, c: char)
    ensures
        final(s)@ == old(s)@.push(c),
;

/// The characters of `s`, in order.
pub fn chars_of(s: &str) -> (v: Vec<char>)
    ensures
        v@ == s@,
{
    let mut v: Vec<char> = Vec::new();
    for c in it: s.chars()
        invariant
            v@ == it.seq().take(it.index() as int),
            it.seq() == s@,
    {
        v.push(c);
    }
    v
}

/// The string made of `v[from..to]`.
pub fn text_of(v: &Vec<char>, from: usize, to: usize) -> (s: String)
    requires
        from <= to <= v.len(),
    ensures
        s@ == v@.subrange(from as int, to as int),
{
    let mut s = String::new();
    let mut i: usize = from;
    while i < to
        invariant
            from <= i <= to <= v.len(),
            s@ == v@.subrange(from as int, i as int),
        decreases to - i,
    {
        s.push(v[i]);
        i += 1;
    }
    s
}

/// A copy of `v[from..to]`.
pub fn slice_of(v: &Vec<char>, from: usize, to: usize) -> (r: Vec<char>)
    requires
        from <= to <= v.len(),
    ensures
        r@ == v@.subrange(from as int, to as int),
{
    let mut r: Vec<char> = Vec::new();
    let mut i: usize = from;
    while i < to
        invariant
            from <= i <= to <= v.len(),
            r@ == v@.subrange(from as int, i as int),
        decreases to - i,
    {
        r.push(v[i]);
        i += 1;
    }
    r
}

/// Whether two character vectors hold the same text.
pub fn same_text(a: &Vec<char>, b: &Vec<char>) -> (r: bool)
    ensures
        r == (a@ == b@),
{
    if a.len() != b.len() {
        return false;
    }
    let mut i: usize = 0;
    while i < a.len()
        invariant
            i <= a.len(),
            a.len() == b.len(),
            a@.take(i as int) == b@.take(i as int),
        decreases a.len() - i,
    {
        if a[i] != b[i] {
            return false;
        }
        assert(a@.take(i + 1) == a@.take(i as int).push(a@[i as int]));
        assert(b@.take(i + 1) == b@.take(i as int).push(b@[i as int]));
        i += 1;
    }
    assert(a@.take(a.len() as int) == a@);
    assert(b@.take(b.len() as int) == b@);
    true
}

/// Whether two strings hold the same text.
pub fn str_eq(a: &str, b: &str) -> (r: bool)
    ensures
        r == (a@ == b@),
{
    let x = chars_of(a);
    let y = chars_of(b);
    same_text(&x, &y)
}

/// Whether `v` holds exactly the characters of the literal `lit`.
pub fn is_text(v: &Vec<char>, lit: &str) -> (r: bool)
    ensures
        r == (v@ == lit@),
{
    let l = chars_of(lit);
    same_text(v, &l)
}

/// Whether `s` begins with `prefix`.
pub open spec fn has_prefix(s: Seq<char>, prefix: Seq<char>) -> bool {
    prefix.len() <= s.len() && s.take(prefix.len() as int) == prefix
}

/// Whether the text of `v` begins with the text of `prefix`.
pub fn starts_with(v: &Vec<char>, prefix: &Vec<char>) -> (r: bool)
    ensures
        r == has_prefix(v@, prefix@),
{
    if prefix.len() > v.len() {
        return false;
    }
    let mut i: usize = 0;
    while i < prefix.len()
        invariant
            i <= prefix.len() <= v.len(),
            v@.take(i as int) == prefix@.take(i as int),
        decreases prefix.len() - i,
    {
        if v[i] != prefix[i] {
            assert(v@.take(prefix.len() as int)[i as int] != prefix@[i as int]);
            return false;
        }
        assert(v@.take(i + 1) == v@.take(i as int).push(v@[i as int]));
        assert(prefix@.take(i + 1) == prefix@.take(i as int).push(prefix@[i as int]));
        i += 1;
    }
    assert(prefix@.take(prefix.len() as int) == prefix@);
    true
}

/// ASCII lower-casing of one character: `A`–`Z` map to `a`–`z`, every other
/// character is left as it is.
pub open spec fn lower_char(c: char) -> char {
    if 'A' <= c && c <= 'Z' {
        ((c as u32) + 32) as char
    } else {
        c
    }
}

/// ASCII lower-casing of a text, character by character.
pub open spec fn lowercase(s: Seq<char>) -> Seq<char> {
    Seq::new(s.len(), |i: int| lower_char(s[i]))
}

/// Lower-cases one character.
pub fn to_lower_char(c: char) -> (r: char)
    ensures
        r == lower_char(c),
{
    if 'A' <= c && c <= 'Z' {
        let n: u32 = c as u32;
        let m: u8 = (n + 32) as u8;
        m as char
    } else {
        c
    }
}

/// Lower-cases `v[from..to]`.
pub fn to_lowercase(v: &Vec<char>, from: usize, to: usize) -> (r: Vec<char>)
    requires
        from <= to <= v.len(),
    ensures
        r@ == lowercase(v@.subrange(from as int, to as int)),
{
    let mut r: Vec<char> = Vec::new();
    let mut i: usize = from;
    while i < to
        invariant
            from <= i <= to <= v.len(),
            r@ == lowercase(v@.subrange(from as int, i as int)),
        decreases to - i,
    {
        r.push(to_lower_char(v[i]));
        i += 1;
        assert(r@ =~= lowercase(v@.subrange(from as int, i as int)));
    }
    r
}

/// The characters with the Unicode property `White_Space`.
pub open spec fn is_space(c: char) -> bool {
    ('\u{9}' <= c && c <= '\u{d}') || c == ' ' || c == '\u{85}' || c == '\u{a0}' || c
        == '\u{1680}' || ('\u{2000}' <= c && c <= '\u{200a}') || c == '\u{2028}' || c
        == '\u{2029}' || c == '\u{202f}' || c == '\u{205f}' || c == '\u{3000}'
}

/// Whether `c` is white space.
pub fn is_whitespace(c: char) -> (r: bool)
    ensures
        r == is_space(c),
{
    ('\u{9}' <= c && c <= '\u{d}') || c == ' ' || c == '\u{85}' || c == '\u{a0}' || c
        == '\u{1680}' || ('\u{2000}' <= c && c <= '\u{200a}') || c == '\u{2028}' || c
        == '\u{2029}' || c == '\u{202f}' || c == '\u{205f}' || c == '\u{3000}'
}

/// Length of `s` once its trailing white space is removed.
pub open spec fn trim_end_len(s: Seq<char>) -> nat
    decreases s.len(),
{
    if s.len() > 0 && is_space(s.last()) {
        trim_end_len(s.drop_last())
    } else {
        s.len()
    }
}

/// Number of white-space characters at the start of `s`.
pub open spec fn leading_spaces(s: Seq<char>) -> nat
    decreases s.len(),
{
    if s.len() > 0 && is_space(s[0]) {
        1 + leading_spaces(s.drop_first())
    } else {
        0
    }
}

/// `s` without its trailing white space.
pub open spec fn trim_end(s: Seq<char>) -> Seq<char> {
    s.take(trim_end_len(s) as int)
}

/// `s` without its leading white space.
pub open spec fn trim_start(s: Seq<char>) -> Seq<char> {
    s.skip(leading_spaces(s) as int)
}

/// `s` without leading and trailing white space.
pub open spec fn trim(s: Seq<char>) -> Seq<char> {
    trim_end(trim_start(s))
}

/// End of `v[from..to]` once trailing white space is removed.
pub fn trim_end_index(v: &Vec<char>, from: usize, to: usize) -> (e: usize)
    requires
        from <= to <= v.len(),
    ensures
        from <= e <= to,
        e - from == trim_end_len(v@.subrange(from as int, to as int)),
{
    let mut e: usize = to;
    while e > from && is_whitespace(v[e - 1])
        invariant
            from <= e <= to <= v.len(),
            trim_end_len(v@.subrange(from as int, to as int)) == trim_end_len(
                v@.subrange(from as int, e as int),
            ),
        decreases e,
    {
        assert(v@.subrange(from as int, e as int).drop_last() == v@.subrange(
            from as int,
            e - 1,
        ));
        e -= 1;
    }
    e
}

/// Start of `v[from..to]` once leading white space is removed.
pub fn trim_start_index(v: &Vec<char>, from: usize, to: usize) -> (b: usize)
    requires
        from <= to <= v.len(),
    ensures
        from <= b <= to,
        b - from == leading_spaces(v@.subrange(from as int, to as int)),
{
    let mut b: usize = from;
    while b < to && is_whitespace(v[b])
        invariant
            from <= b <= to <= v.len(),
            leading_spaces(v@.subrange(from as int, to as int)) == (b - from) + leading_spaces(
                v@.subrange(b as int, to as int),
            ),
        decreases to - b,
    {
        assert(v@.subrange(b as int, to as int).drop_first() == v@.subrange(b + 1, to as int));
        b += 1;
    }
    b
}

/// Position of the first `c` in `v[from..to]`, counted from `from`.
pub fn find_char(v: &Vec<char>, from: usize, to: usize, c: char) -> (r: Option<usize>)
    requires
        from <= to <= v.len(),
    ensures
        match r {
            Some(i) => from <= i < to && v@.subrange(from as int, to as int).index_of_first(c)
                == Some(i - from),
            None => v@.subrange(from as int, to as int).index_of_first(c) is None,
        },
{
    let ghost s = v@.subrange(from as int, to as int);
    proof {
        s.index_of_first_ensures(c);
    }
    let mut i: usize = from;
    while i < to
        invariant
            from <= i <= to <= v.len(),
            s == v@.subrange(from as int, to as int),
            forall|j: int| 0 <= j < i - from ==> s[j] != c,
        decreases to - i,
    {
        if v[i] == c {
            proof {
                let k = i - from;
                assert(s[k] == c);
                assert(s.contains(c));
                s.index_of_first_ensures(c);
                let idx = s.index_of_first(c).unwrap();
                assert(s[idx] == c);
                if idx > k {
                    assert(s[k] != c);
                }
            }
            return Some(i);
        }
        i += 1;
    }
    assert(!s.contains(c));
    None
}

/// Position of the last `c` in `v[from..to]`.
pub fn rfind_char(v: &Vec<char>, from: usize, to: usize, c: char) -> (r: Option<usize>)
    requires
        from <= to <= v.len(),
    ensures
        match r {
            Some(i) => from <= i < to && v@.subrange(from as int, to as int).index_of_last(c)
                == Some(i - from),
            None => v@.subrange(from as int, to as int).index_of_last(c) is None,
        },
{
    let ghost s = v@.subrange(from as int, to as int);
    proof {
        s.index_of_last_ensures(c);
    }
    let mut i: usize = to;
    while i > from
        invariant
            from <= i <= to <= v.len(),
            s == v@.subrange(from as int, to as int),
            forall|j: int| i - from <= j < s.len() ==> s[j] != c,
        decreases i,
    {
        i -= 1;
        if v[i] == c {
            proof {
                let k = i - from;
                assert(s[k] == c);
                assert(s.contains(c));
                s.index_of_last_ensures(c);
                let idx = s.index_of_last(c).unwrap();
                assert(s[idx] == c);
                if idx < k {
                    assert(s[k] != c);
                }
            }
            return Some(i);
        }
    }
    assert(!s.contains(c));
    None
}

/// Value of `c` as a digit, as `char::to_digit` reads it: `0`–`9`, then the
/// letters of either case from ten upwards; `-1` for every other character.
pub open spec fn digit_of(c: char) -> int {
    if '0' <= c && c <= '9' {
        c as int - '0' as int
    } else if 'a' <= c && c <= 'z' {
        c as int - 'a' as int + 10
    } else if 'A' <= c && c <= 'Z' {
        c as int - 'A' as int + 10
    } else {
        -1
    }
}

/// Whether `c` is a digit in the given radix.
pub open spec fn is_digit(c: char, radix: int) -> bool {
    0 <= digit_of(c) < radix
}

/// Whether `s` holds digits of the given radix and nothing else.
pub open spec fn all_digits(s: Seq<char>, radix: int) -> bool {
    forall|i: int| 0 <= i < s.len() ==> is_digit(#[trigger] s[i], radix)
}

/// The number that the digits of `s` write in the given radix, most
/// significant digit first.
pub open spec fn digits_value(s: Seq<char>, radix: int) -> int
    decreases s.len(),
{
    if s.len() == 0 {
        0
    } else {
        digits_value(s.drop_last(), radix) * radix + digit_of(s.last())
    }
}

/// The unsigned 32-bit number that `s` writes in the given radix: at least
/// one digit, nothing but digits, and a value that fits.  No sign is taken.
pub open spec fn parse_u32(s: Seq<char>, radix: int) -> Option<u32> {
    if s.len() > 0 && all_digits(s, radix) && digits_value(s, radix) <= u32::MAX {
        Some(digits_value(s, radix) as u32)
    } else {
        None
    }
}

/// The value of the first digits of a number is no greater than the value
/// of all of them.
pub proof fn lemma_digits_value_grows(s: Seq<char>, radix: int, n: int)
    requires
        1 <= radix,
        all_digits(s, radix),
        0 <= n <= s.len(),
    ensures
        0 <= digits_value(s.take(n), radix) <= digits_value(s, radix),
    decreases s.len() - n,
{
    if n == 0 {
        lemma_digits_value_nonneg(s, radix);
        assert(s.take(0).len() == 0);
    } else if n == s.len() {
        assert(s.take(n) == s);
        lemma_digits_value_nonneg(s, radix);
    } else {
        lemma_digits_value_grows(s, radix, n + 1);
        let t = s.take(n + 1);
        assert(t.drop_last() == s.take(n));
        assert(t.last() == s[n]);
        lemma_digits_value_nonneg(s.take(n), radix);
        let v = digits_value(s.take(n), radix);
        assert(v * radix >= v) by (nonlinear_arith)
            requires
                v >= 0,
                radix >= 1,
        ;
    }
}

/// Digits write no negative number.
pub proof fn lemma_digits_value_nonneg(s: Seq<char>, radix: int)
    requires
        1 <= radix,
        all_digits(s, radix),
    ensures
        0 <= digits_value(s, radix),
    decreases s.len(),
{
    if s.len() > 0 {
        lemma_digits_value_nonneg(s.drop_last(), radix);
        let v = digits_value(s.drop_last(), radix);
        assert(v * radix >= 0) by (nonlinear_arith)
            requires
                v >= 0,
                radix >= 1,
        ;
        assert(is_digit(s[s.len() - 1], radix));
    }
}

/// The digit that `c` stands for in the given radix, if it is one.
pub fn digit_in(c: char, radix: u32) -> (r: Option<u32>)
    requires
        radix <= 36,
    ensures
        match r {
            Some(d) => is_digit(c, radix as int) && d == digit_of(c),
            None => !is_digit(c, radix as int),
        },
{
    let d: u32 = if '0' <= c && c <= '9' {
        c as u32 - 48
    } else if 'a' <= c && c <= 'z' {
        c as u32 - 97 + 10
    } else if 'A' <= c && c <= 'Z' {
        c as u32 - 65 + 10
    } else {
        return None;
    };
    if d < radix {
        Some(d)
    } else {
        None
    }
}

/// Reads `v[from..to]` as an unsigned 32-bit number in the given radix.
pub fn read_u32(v: &Vec<char>, from: usize, to: usize, radix: u32) -> (r: Option<u32>)
    requires
        from <= to <= v.len(),
        2 <= radix <= 36,
    ensures
        r == parse_u32(v@.subrange(from as int, to as int), radix as int),
{
    let ghost d = v@.subrange(from as int, to as int);
    if from == to {
        return None;
    }
    let mut acc: u64 = 0;
    let mut i: usize = from;
    while i < to
        invariant
            from <= i <= to <= v.len(),
            2 <= radix <= 36,
            d == v@.subrange(from as int, to as int),
            d.len() > 0,
            all_digits(d.take(i - from), radix as int),
            acc == digits_value(d.take(i - from), radix as int),
            acc <= u32::MAX,
        decreases to - i,
    {
        let ghost k = i - from;
        match digit_in(v[i], radix) {
            None => {
                assert(!is_digit(d[k], radix as int));
                return None;
            },
            Some(digit) => {
                assert(acc * radix <= 0xFFFF_FFFF * 36) by (nonlinear_arith)
                    requires
                        acc <= 0xFFFF_FFFF,
                        radix <= 36,
                ;
                let next: u64 = acc * (radix as u64) + (digit as u64);
                proof {
                    let t = d.take(k + 1);
                    assert(t.drop_last() == d.take(k));
                    assert(t.last() == d[k]);
                    assert forall|j: int| 0 <= j < t.len() implies is_digit(
                        #[trigger] t[j],
                        radix as int,
                    ) by {
                        if j < k {
                            assert(d.take(k)[j] == t[j]);
                        }
                    }
                }
                if next > 0xFFFF_FFFF {
                    proof {
                        if all_digits(d, radix as int) {
                            lemma_digits_value_grows(d, radix as int, k + 1);
                        }
                    }
                    return None;
                }
                acc = next;
            },
        }
        i += 1;
    }
    assert(d.take(to - from) == d);
    Some(acc as u32)
}

/// The lower-case digit character for a value below 36.
pub open spec fn digit_char(d: int) -> char {
    if d < 10 {
        ('0' as int + d) as char
    } else {
        ('a' as int + d - 10) as char
    }
}

/// `n` written in the given radix with lower-case digits and no leading
/// zeros; zero is written `0`.
pub open spec fn number_text(n: nat, radix: nat) -> Seq<char>
    decreases n,
    via number_text_shrinks
{
    if n < radix || radix < 2 {
        seq![digit_char(n as int)]
    } else {
        number_text(n / radix, radix).push(digit_char((n % radix) as int))
    }
}

/// The digits before the last write a smaller number.
#[via_fn]
proof fn number_text_shrinks(n: nat, radix: nat) {
    if !(n < radix || radix < 2) {
        assert(n / radix < n) by (nonlinear_arith)
            requires
                n >= radix,
                radix >= 2,
        ;
    }
}

/// `n` in hexadecimal, as `{:x}` prints it.
pub open spec fn hex_text(n: nat) -> Seq<char> {
    number_text(n, 16)
}

/// `n` in decimal.
pub open spec fn decimal_text(n: nat) -> Seq<char> {
    number_text(n, 10)
}

/// Reading back what `number_text` wrote gives the number: the text is made
/// of digits only, has at least one, and has the value `n`.
pub proof fn lemma_number_text_reads_back(n: nat, radix: nat)
    requires
        2 <= radix <= 36,
    ensures
        number_text(n, radix).len() > 0,
        all_digits(number_text(n, radix), radix as int),
        digits_value(number_text(n, radix), radix as int) == n,
        is_digit(number_text(n, radix)[0], radix as int),
    decreases n,
{
    if n < radix {
        let t = seq![digit_char(n as int)];
        assert(digit_of(digit_char(n as int)) == n);
        assert(t.drop_last().len() == 0);
        assert(digits_value(t.drop_last(), radix as int) == 0);
        assert(t.last() == digit_char(n as int));
    } else {
        let q = n / radix;
        let m = n % radix;
        assert(q < n && n == q * radix + m && 0 <= m < radix) by (nonlinear_arith)
            requires
                q == n / radix,
                m == n % radix,
                n >= radix,
                radix >= 2,
        ;
        lemma_number_text_reads_back(q, radix);
        let t = number_text(q, radix).push(digit_char(m as int));
        assert(t.drop_last() == number_text(q, radix));
        assert(t.last() == digit_char(m as int));
        assert(digit_of(digit_char(m as int)) == m);
        assert(t[0] == number_text(q, radix)[0]);
    }
}

/// Writes `n` in radix 10 or 16 with lower-case digits.
fn number_string(n: u32, radix: u32) -> (s: String)
    requires
        radix == 10 || radix == 16,
    ensures
        s@ == number_text(n as nat, radix as nat),
{
    let mut digits: Vec<char> = Vec::new();
    let mut rest: u32 = n;
    // Digits come out least significant first.
    loop
        invariant_except_break
            radix == 10 || radix == 16,
            number_text(n as nat, radix as nat) == number_text(rest as nat, radix as nat)
                + digits@.reverse(),
        ensures
            number_text(n as nat, radix as nat) == digits@.reverse(),
        decreases rest,
    {
        let d: u32 = rest % radix;
        let c: char = if d < 10 {
            (48 + d) as u8 as char
        } else {
            (97 + d - 10) as u8 as char
        };
        assert(c == digit_char(d as int));
        let ghost before = digits@;
        digits.push(c);
        proof {
            assert(digits@.reverse() =~= seq![c] + before.reverse());
            if rest < radix {
                assert(number_text(rest as nat, radix as nat) == seq![c]);
            } else {
                assert(number_text(rest as nat, radix as nat) == number_text(
                    (rest / radix) as nat,
                    radix as nat,
                ).push(c));
                assert(number_text((rest / radix) as nat, radix as nat).push(c) + before.reverse()
                    =~= number_text((rest / radix) as nat, radix as nat) + (seq![c]
                    + before.reverse()));
            }
        }
        if rest < radix {
            break ;
        }
        rest = rest / radix;
    }
    let mut s = String::new();
    let mut i: usize = digits.len();
    while i > 0
        invariant
            i <= digits.len(),
            s@ == digits@.reverse().take(digits.len() - i),
        decreases i,
    {
        i -= 1;
        s.push(digits[i]);
        assert(s@ =~= digits@.reverse().take(digits.len() - i));
    }
    assert(digits@.reverse().take(digits.len() as int) == digits@.reverse());
    s
}

/// Writes `n` in hexadecimal, lower case, without prefix.
pub fn hex_string(n: u32) -> (s: String)
    ensures
        s@ == hex_text(n as nat),
{
    number_string(n, 16)
}

/// Writes `n` in decimal.
pub fn decimal_string(n: u32) -> (s: String)
    ensures
        s@ == decimal_text(n as nat),
{
    number_string(n, 10)
}

/// The fields of `s` between separators: one more than there are
/// separators, so the empty text has one empty field.
pub open spec fn split_fields(s: Seq<char>, sep: char) -> Seq<Seq<char>>
    decreases s.len(),
    via split_fields_shrinks
{
    match s.index_of_first(sep) {
        None => seq![s],
        Some(i) => seq![s.take(i)] + split_fields(s.skip(i + 1), sep),
    }
}

/// What follows a separator is shorter than the whole.
#[via_fn]
proof fn split_fields_shrinks(s: Seq<char>, sep: char) {
    s.index_of_first_ensures(sep);
}

/// The texts that a list of index ranges cuts out of `s`.
pub open spec fn ranges_text(s: Seq<char>, ranges: Seq<(usize, usize)>) -> Seq<Seq<char>> {
    Seq::new(ranges.len(), |k: int| s.subrange(ranges[k].0 as int, ranges[k].1 as int))
}

/// The index ranges of the fields of `v` between separators.
pub fn split_ranges(v: &Vec<char>, sep: char) -> (r: Vec<(usize, usize)>)
    ensures
        ranges_text(v@, r@) == split_fields(v@, sep),
        forall|k: int| 0 <= k < r.len() ==> (#[trigger] r[k]).0 <= r[k].1 <= v.len(),
{
    let n = v.len();
    let mut r: Vec<(usize, usize)> = Vec::new();
    let mut p: usize = 0;
    proof {
        assert(v@.skip(0) == v@);
        assert(ranges_text(v@, r@) + split_fields(v@, sep) =~= split_fields(v@, sep));
    }
    loop
        invariant_except_break
            p <= n,
            n == v.len(),
            split_fields(v@, sep) == ranges_text(v@, r@) + split_fields(v@.skip(p as int), sep),
            forall|k: int| 0 <= k < r.len() ==> (#[trigger] r[k]).0 <= r[k].1 <= v.len(),
        ensures
            split_fields(v@, sep) == ranges_text(v@, r@),
            forall|k: int| 0 <= k < r.len() ==> (#[trigger] r[k]).0 <= r[k].1 <= v.len(),
        decreases n - p,
    {
        let ghost rest = v@.skip(p as int);
        let ghost before = r@;
        assert(v@.subrange(p as int, n as int) == rest);
        proof {
            rest.index_of_first_ensures(sep);
        }
        match find_char(v, p, n, sep) {
            None => {
                r.push((p, n));
                assert(ranges_text(v@, r@) =~= ranges_text(v@, before) + seq![rest]);
                break ;
            },
            Some(i) => {
                r.push((p, i));
                assert(rest.take(i - p) == v@.subrange(p as int, i as int));
                assert(rest.skip(i - p + 1) == v@.skip(i + 1));
                assert(ranges_text(v@, r@) =~= ranges_text(v@, before) + seq![
                    v@.subrange(p as int, i as int),
                ]);
                assert((ranges_text(v@, before) + seq![v@.subrange(p as int, i as int)])
                    + split_fields(v@.skip(i + 1), sep) =~= ranges_text(v@, before) + (seq![
                    v@.subrange(p as int, i as int),
                ] + split_fields(v@.skip(i + 1), sep)));
                p = i + 1;
            },
        }
    }
    r
}

/// The fields written one after the other with the separator between
/// them.
pub open spec fn join_fields(fields: Seq<Seq<char>>, sep: char) -> Seq<char>
    decreases fields.len(),
{
    if fields.len() == 0 {
        Seq::empty()
    } else if fields.len() == 1 {
        fields[0]
    } else {
        (fields[0] + seq![sep]) + join_fields(fields.drop_first(), sep)
    }
}

/// Splitting what was joined gives the fields back, as long as there is at
/// least one field and no field holds the separator.
pub proof fn lemma_split_of_joined(fields: Seq<Seq<char>>, sep: char)
    requires
        fields.len() > 0,
        forall|i: int| 0 <= i < fields.len() ==> !(#[trigger] fields[i]).contains(sep),
    ensures
        split_fields(join_fields(fields, sep), sep) == fields,
    decreases fields.len(),
{
    let whole = join_fields(fields, sep);
    whole.index_of_first_ensures(sep);
    if fields.len() == 1 {
        assert(whole == fields[0]);
        assert(split_fields(whole, sep) =~= fields);
    } else {
        let first = fields[0];
        let rest = fields.drop_first();
        assert forall|i: int| 0 <= i < rest.len() implies !(#[trigger] rest[i]).contains(sep) by {
            assert(rest[i] == fields[i + 1]);
        }
        lemma_split_of_joined(rest, sep);
        assert(whole[first.len() as int] == sep);
        assert(whole.contains(sep));
        let i = whole.index_of_first(sep).unwrap();
        if i < first.len() {
            assert(first[i] == sep);
            assert(first.contains(sep));
        }
        assert(i == first.len());
        assert(whole.take(i) == first);
        assert(whole.skip(i + 1) == join_fields(rest, sep));
        assert(split_fields(whole, sep) =~= fields);
    }
}

} // verus!

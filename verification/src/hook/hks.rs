//! The textual hook-declaration format: titled entries, each followed by
//! indented `key: value` lines.

use vstd::prelude::*;

use super::util::{address_of, parse_address};
use crate::text::{
    chars_of, find_char, is_space, is_whitespace, lowercase, ranges_text, slice_of, split_fields,
    split_ranges, str_eq, text_of, to_lowercase, trim, trim_end, trim_end_index, trim_start_index,
};

verus! {

/// A line of a declaration file that breaks the format, with the 1-based
/// number of that line.
#[derive(Debug, PartialEq)]
pub enum HksError {
    /// An indented line where no entry is open.
    InvalidTitleLine(usize),
    /// An indented line without a colon.
    InvalidKeyValueLine(usize),
    /// Nothing before the colon.
    EmptyKey(usize),
    /// Nothing after the colon.
    EmptyValue(usize),
    /// A key that the entry holds already.
    DuplicateKey(usize, String),
}

/// An `HksError` with its key as a sequence of characters.
pub enum HksErrorView {
    InvalidTitleLine(usize),
    InvalidKeyValueLine(usize),
    EmptyKey(usize),
    EmptyValue(usize),
    DuplicateKey(usize, Seq<char>),
}

impl View for HksError {
    type V = HksErrorView;

    open spec fn view(&self) -> HksErrorView {
        match self {
            HksError::InvalidTitleLine(n) => HksErrorView::InvalidTitleLine(*n),
            HksError::InvalidKeyValueLine(n) => HksErrorView::InvalidKeyValueLine(*n),
            HksError::EmptyKey(n) => HksErrorView::EmptyKey(*n),
            HksError::EmptyValue(n) => HksErrorView::EmptyValue(*n),
            HksError::DuplicateKey(n, k) => HksErrorView::DuplicateKey(*n, k@),
        }
    }
}

impl HksErrorView {
    /// The line that the error speaks of.
    pub open spec fn line(self) -> usize {
        match self {
            HksErrorView::InvalidTitleLine(n) => n,
            HksErrorView::InvalidKeyValueLine(n) => n,
            HksErrorView::EmptyKey(n) => n,
            HksErrorView::EmptyValue(n) => n,
            HksErrorView::DuplicateKey(n, _) => n,
        }
    }
}

impl HksError {
    /// The 1-based number of the line that the error speaks of.
    pub fn line(&self) -> (r: usize)
        ensures
            r == self@.line(),
    {
        match self {
            HksError::InvalidTitleLine(line) => *line,
            HksError::InvalidKeyValueLine(line) => *line,
            HksError::EmptyKey(line) => *line,
            HksError::EmptyValue(line) => *line,
            HksError::DuplicateKey(line, _) => *line,
        }
    }
}

/// A property that an entry lacks, or one whose value is not of the type
/// asked for; the second holds the name of the type, then the value.
#[derive(Debug, PartialEq)]
pub enum HksParseError {
    MissingKey(String),
    InvalidTypeValue(String, String),
}

/// An `HksParseError` with its texts as sequences of characters.
pub enum HksParseErrorView {
    MissingKey(Seq<char>),
    InvalidTypeValue(Seq<char>, Seq<char>),
}

impl View for HksParseError {
    type V = HksParseErrorView;

    open spec fn view(&self) -> HksParseErrorView {
        match self {
            HksParseError::MissingKey(k) => HksParseErrorView::MissingKey(k@),
            HksParseError::InvalidTypeValue(t, v) => HksParseErrorView::InvalidTypeValue(t@, v@),
        }
    }
}

/// The map that a list of pairs writes down, a later pair replacing an
/// earlier one of the same key.
pub open spec fn pairs_map(kv: Seq<(String, String)>) -> Map<Seq<char>, Seq<char>>
    decreases kv.len(),
{
    if kv.len() == 0 {
        Map::empty()
    } else {
        pairs_map(kv.drop_last()).insert(kv.last().0@, kv.last().1@)
    }
}

/// No key occurs twice in the list.
pub open spec fn distinct_keys(kv: Seq<(String, String)>) -> bool {
    forall|i: int, j: int| 0 <= i < j < kv.len() ==> (#[trigger] kv[i]).0@ != (#[trigger] kv[j]).0@
}

/// A key is in the map exactly if a pair of the list has it.
proof fn lemma_pairs_map_keys(kv: Seq<(String, String)>, k: Seq<char>)
    ensures
        pairs_map(kv).contains_key(k) <==> exists|i: int| 0 <= i < kv.len() && (#[trigger] kv[i]).0@ == k,
    decreases kv.len(),
{
    if kv.len() > 0 {
        let front = kv.drop_last();
        lemma_pairs_map_keys(front, k);
        if pairs_map(kv).contains_key(k) {
            if kv.last().0@ == k {
                assert(kv[kv.len() - 1].0@ == k);
            } else {
                let i = choose|i: int| 0 <= i < front.len() && (#[trigger] front[i]).0@ == k;
                assert(kv[i].0@ == k);
            }
        }
        if exists|i: int| 0 <= i < kv.len() && (#[trigger] kv[i]).0@ == k {
            let i = choose|i: int| 0 <= i < kv.len() && (#[trigger] kv[i]).0@ == k;
            if i < kv.len() - 1 {
                assert(front[i].0@ == k);
            }
        }
    }
}

/// Where no key occurs twice, the map gives each pair its own value.
proof fn lemma_pairs_map_value(kv: Seq<(String, String)>, i: int)
    requires
        distinct_keys(kv),
        0 <= i < kv.len(),
    ensures
        pairs_map(kv).contains_key(kv[i].0@),
        pairs_map(kv)[kv[i].0@] == kv[i].1@,
    decreases kv.len(),
{
    let front = kv.drop_last();
    if i < kv.len() - 1 {
        assert(distinct_keys(front)) by {
            assert forall|a: int, b: int| 0 <= a < b < front.len() implies (#[trigger] front[a]).0@
                != (#[trigger] front[b]).0@ by {
                assert(kv[a].0@ != kv[b].0@);
            }
        }
        lemma_pairs_map_value(front, i);
        assert(front[i] == kv[i]);
        assert(kv[i].0@ != kv[kv.len() - 1].0@);
    }
}

/// Where no key occurs twice, taking a pair out of the list takes its key out
/// of the map.
proof fn lemma_pairs_map_remove(kv: Seq<(String, String)>, i: int)
    requires
        distinct_keys(kv),
        0 <= i < kv.len(),
    ensures
        distinct_keys(kv.remove(i)),
        pairs_map(kv.remove(i)) == pairs_map(kv).remove(kv[i].0@),
    decreases kv.len(),
{
    let rest = kv.remove(i);
    assert(distinct_keys(rest)) by {
        assert forall|a: int, b: int| 0 <= a < b < rest.len() implies (#[trigger] rest[a]).0@
            != (#[trigger] rest[b]).0@ by {
            let a2 = if a < i {
                a
            } else {
                a + 1
            };
            let b2 = if b < i {
                b
            } else {
                b + 1
            };
            assert(kv[a2].0@ != kv[b2].0@);
        }
    }
    let front = kv.drop_last();
    if i == kv.len() - 1 {
        assert(rest == front);
        assert(!pairs_map(front).contains_key(kv[i].0@)) by {
            lemma_pairs_map_keys(front, kv[i].0@);
            if exists|j: int| 0 <= j < front.len() && (#[trigger] front[j]).0@ == kv[i].0@ {
                let j = choose|j: int| 0 <= j < front.len() && (#[trigger] front[j]).0@ == kv[i].0@;
                assert(kv[j].0@ != kv[i].0@);
            }
        }
        assert(pairs_map(front) =~= pairs_map(kv).remove(kv[i].0@));
    } else {
        assert(distinct_keys(front)) by {
            assert forall|a: int, b: int| 0 <= a < b < front.len() implies (#[trigger] front[a]).0@
                != (#[trigger] front[b]).0@ by {
                assert(kv[a].0@ != kv[b].0@);
            }
        }
        lemma_pairs_map_remove(front, i);
        assert(rest.drop_last() == front.remove(i));
        assert(rest.last() == kv.last());
        assert(front[i] == kv[i]);
        assert(kv[i].0@ != kv[kv.len() - 1].0@);
        assert(pairs_map(rest) =~= pairs_map(kv).remove(kv[i].0@));
    }
}

/// One entry of a declaration file: a title, the line on which the title
/// stands, and the properties that have not been taken out yet.
#[derive(Debug)]
pub struct HksEntry {
    title: String,
    line: usize,
    kv: Vec<(String, String)>,
}

/// What an entry holds: its title, the line of its title, and its properties as a map from key to value.
pub struct HksEntryView {
    pub title: Seq<char>,
    pub line: usize,
    pub props: Map<Seq<char>, Seq<char>>,
}

impl View for HksEntry {
    type V = HksEntryView;

    closed spec fn view(&self) -> HksEntryView {
        HksEntryView { title: self.title@, line: self.line, props: pairs_map(self.kv@) }
    }
}

/// Every property of `a` is a property of `b`, with the same value.
spec fn props_included(a: Map<Seq<char>, Seq<char>>, b: Map<Seq<char>, Seq<char>>) -> bool {
    forall|k: Seq<char>| #[trigger] a.contains_key(k) ==> b.contains_key(k) && b[k] == a[k]
}

/// Whether every pair of `a` is found in `b`.
fn pairs_included(a: &Vec<(String, String)>, b: &Vec<(String, String)>) -> (r: bool)
    requires
        distinct_keys(a@),
        distinct_keys(b@),
    ensures
        r == props_included(pairs_map(a@), pairs_map(b@)),
{
    let mut i: usize = 0;
    while i < a.len()
        invariant
            i <= a.len(),
            distinct_keys(a@),
            distinct_keys(b@),
            forall|j: int|
                0 <= j < i ==> pairs_map(b@).contains_key((#[trigger] a@[j]).0@) && pairs_map(
                    b@,
                )[a@[j].0@] == a@[j].1@,
        decreases a.len() - i,
    {
        proof {
            lemma_pairs_map_value(a@, i as int);
        }
        let found = match position_of(b, a[i].0.as_str()) {
            Some(j) => {
                proof {
                    lemma_pairs_map_value(b@, j as int);
                }
                str_eq(b[j].1.as_str(), a[i].1.as_str())
            },
            None => false,
        };
        if !found {
            return false;
        }
        i += 1;
    }
    proof {
        assert forall|k: Seq<char>| #[trigger] pairs_map(a@).contains_key(k) implies pairs_map(
            b@,
        ).contains_key(k) && pairs_map(b@)[k] == pairs_map(a@)[k] by {
            lemma_pairs_map_keys(a@, k);
            let j = choose|j: int| 0 <= j < a@.len() && (#[trigger] a@[j]).0@ == k;
            lemma_pairs_map_value(a@, j);
        }
    }
    true
}

impl PartialEq for HksEntry {
    /// Two entries are equal if they have the same title, stand on the
    /// same line and hold the same properties, in whatever order.
    fn eq(&self, other: &HksEntry) -> (r: bool) {
        proof {
            use_type_invariant(self);
            use_type_invariant(other);
        }
        if !str_eq(self.title.as_str(), other.title.as_str()) || self.line != other.line {
            return false;
        }
        let r = pairs_included(&self.kv, &other.kv) && pairs_included(&other.kv, &self.kv);
        proof {
            if r {
                assert(self@.props =~= other@.props);
            }
        }
        r
    }
}

impl vstd::std_specs::cmp::PartialEqSpecImpl for HksEntry {
    open spec fn obeys_eq_spec() -> bool {
        true
    }

    open spec fn eq_spec(&self, other: &HksEntry) -> bool {
        self@ == other@
    }
}

/// The value of a property, or the error that names the key that is not
/// there.
pub open spec fn taken(props: Map<Seq<char>, Seq<char>>, key: Seq<char>) -> Result<
    Seq<char>,
    HksParseErrorView,
> {
    if props.contains_key(key) {
        Ok(props[key])
    } else {
        Err(HksParseErrorView::MissingKey(key))
    }
}

/// The value of a property as `true` or `false`.
pub open spec fn taken_bool(props: Map<Seq<char>, Seq<char>>, key: Seq<char>) -> Result<
    bool,
    HksParseErrorView,
> {
    match taken(props, key) {
        Err(e) => Err(e),
        Ok(value) => match bool_of(value) {
            Some(b) => Ok(b),
            None => Err(HksParseErrorView::InvalidTypeValue("bool"@, value)),
        },
    }
}

/// The value of a property as an address.
pub open spec fn taken_address(props: Map<Seq<char>, Seq<char>>, key: Seq<char>) -> Result<
    u32,
    HksParseErrorView,
> {
    match taken(props, key) {
        Err(e) => Err(e),
        Ok(value) => match address_of(value) {
            Some(a) => Ok(a),
            None => Err(HksParseErrorView::InvalidTypeValue("address"@, value)),
        },
    }
}

/// What `get_bool` makes of a value.
pub open spec fn bool_of(value: Seq<char>) -> Option<bool> {
    if value == "true"@ {
        Some(true)
    } else if value == "false"@ {
        Some(false)
    } else {
        None
    }
}

impl HksEntry {
    /// No key occurs twice.
    #[verifier::type_invariant]
    spec fn keys_are_distinct(&self) -> bool {
        distinct_keys(self.kv@)
    }

    /// An entry with the given title, line and properties; of two
    /// properties with one key the later one stays.
    pub fn from_parts(title: String, line: usize, pairs: Vec<(String, String)>) -> (r: HksEntry)
        ensures
            r@.title == title@,
            r@.line == line,
            r@.props == pairs_map(pairs@),
    {
        let mut kv: Vec<(String, String)> = Vec::new();
        let mut i: usize = 0;
        while i < pairs.len()
            invariant
                i <= pairs.len(),
                distinct_keys(kv@),
                pairs_map(kv@) == pairs_map(pairs@.take(i as int)),
            decreases pairs.len() - i,
        {
            let key = pairs[i].0.clone();
            let value = pairs[i].1.clone();
            let ghost before = kv@;
            proof {
                assert(pairs@.take(i + 1).drop_last() == pairs@.take(i as int));
                assert(pairs@.take(i + 1).last() == pairs@[i as int]);
            }
            match position_of(&kv, key.as_str()) {
                Some(j) => {
                    proof {
                        lemma_pairs_map_remove(kv@, j as int);
                    }
                    let _ = kv.remove(j);
                    proof {
                        lemma_pairs_map_keys(kv@, key@);
                    }
                    kv.push((key, value));
                    proof {
                        assert(kv@.drop_last() == before.remove(j as int));
                        assert(pairs_map(kv@) =~= pairs_map(before).insert(key@, value@));
                    }
                },
                None => {
                    proof {
                        lemma_pairs_map_keys(kv@, key@);
                    }
                    kv.push((key, value));
                    proof {
                        assert(kv@.drop_last() == before);
                    }
                },
            }
            proof {
                assert forall|a: int, b: int| 0 <= a < b < kv@.len() implies (#[trigger] kv@[a]).0@
                    != (#[trigger] kv@[b]).0@ by {
                    let front = kv@.drop_last();
                    if b < kv@.len() - 1 {
                        assert(front[a].0@ != front[b].0@);
                    } else {
                        assert(front[a].0@ != key@);
                    }
                }
            }
            i += 1;
        }
        assert(pairs@.take(pairs.len() as int) == pairs@);
        HksEntry { title, line, kv }
    }

    /// The 1-based number of the line on which the entry's title stands.
    pub fn line(&self) -> (r: usize)
        ensures
            r == self@.line,
    {
        self.line
    }

    /// Whether every property has been taken out.
    pub fn is_done(&self) -> (r: bool)
        ensures
            r == (self@.props == Map::<Seq<char>, Seq<char>>::empty()),
    {
        let r = self.kv.len() == 0;
        proof {
            if self.kv.len() > 0 {
                lemma_pairs_map_keys(self.kv@, self.kv@[0].0@);
                assert(pairs_map(self.kv@).contains_key(self.kv@[0].0@));
            }
        }
        r
    }

    /// The keys of the properties that are still there, each once.
    pub fn remaining_keys(&self) -> (r: Vec<&str>)
        ensures
            forall|i: int| 0 <= i < r.len() ==> self@.props.contains_key(#[trigger] r[i]@),
            forall|k: Seq<char>|
                self@.props.contains_key(k) ==> exists|i: int| 0 <= i < r.len() && #[trigger] r[i]@ == k,
            forall|i: int, j: int| 0 <= i < j < r.len() ==> #[trigger] r[i]@ != #[trigger] r[j]@,
    {
        let mut r: Vec<&str> = Vec::new();
        let mut i: usize = 0;
        proof {
            use_type_invariant(self);
        }
        while i < self.kv.len()
            invariant
                i <= self.kv.len(),
                r.len() == i,
                forall|j: int| 0 <= j < i ==> #[trigger] r[j]@ == self.kv@[j].0@,
            decreases self.kv.len() - i,
        {
            r.push(self.kv[i].0.as_str());
            i += 1;
        }
        proof {
            assert forall|i: int| 0 <= i < r.len() implies self@.props.contains_key(
                #[trigger] r[i]@,
            ) by {
                lemma_pairs_map_keys(self.kv@, r[i]@);
                assert(self.kv@[i].0@ == r[i]@);
            }
            assert forall|k: Seq<char>| self@.props.contains_key(k) implies exists|i: int|
                0 <= i < r.len() && #[trigger] r[i]@ == k by {
                lemma_pairs_map_keys(self.kv@, k);
                let i = choose|i: int| 0 <= i < self.kv@.len() && (#[trigger] self.kv@[i]).0@ == k;
                assert(r[i]@ == k);
            }
            assert forall|i: int, j: int| 0 <= i < j < r.len() implies #[trigger] r[i]@
                != #[trigger] r[j]@ by {
                assert(self.kv@[i].0@ != self.kv@[j].0@);
            }
        }
        r
    }

    /// Whether the entry still holds a property of this key.
    pub fn has(&self, key: &str) -> (r: bool)
        ensures
            r == self@.props.contains_key(key@),
    {
        position_of(&self.kv, key).is_some()
    }

    /// Takes the property of this key out of the entry and returns its
    /// value.
    pub fn get(&mut self, key: &str) -> (r: Result<String, HksParseError>)
        ensures
            final(self)@.title == old(self)@.title,
            final(self)@.line == old(self)@.line,
            final(self)@.props == old(self)@.props.remove(key@),
            match r {
                Ok(value) => taken(old(self)@.props, key@) == Ok::<Seq<char>, HksParseErrorView>(
                    value@,
                ),
                Err(e) => taken(old(self)@.props, key@) == Err::<Seq<char>, HksParseErrorView>(e@),
            },
    {
        proof {
            use_type_invariant(&*self);
        }
        match position_of(&self.kv, key) {
            Some(i) => {
                proof {
                    lemma_pairs_map_remove(self.kv@, i as int);
                    lemma_pairs_map_value(self.kv@, i as int);
                }
                let mut kv: Vec<(String, String)> = Vec::new();
                std::mem::swap(&mut self.kv, &mut kv);
                let (_, value) = kv.remove(i);
                std::mem::swap(&mut self.kv, &mut kv);
                Ok(value)
            },
            None => {
                assert(old(self)@.props.remove(key@) =~= old(self)@.props);
                Err(HksParseError::MissingKey(key.to_owned()))
            },
        }
    }

    /// Takes a property out and reads its value as `true` or `false`.  The
    /// property is gone whether or not its value could be read.
    pub fn get_bool(&mut self, key: &str) -> (r: Result<bool, HksParseError>)
        ensures
            final(self)@.title == old(self)@.title,
            final(self)@.line == old(self)@.line,
            final(self)@.props == old(self)@.props.remove(key@),
            match r {
                Ok(b) => taken_bool(old(self)@.props, key@) == Ok::<bool, HksParseErrorView>(b),
                Err(e) => taken_bool(old(self)@.props, key@) == Err::<bool, HksParseErrorView>(e@),
            },
    {
        let value = match self.get(key) {
            Ok(value) => value,
            Err(e) => {
                return Err(e);
            },
        };
        if str_eq(value.as_str(), "true") {
            Ok(true)
        } else if str_eq(value.as_str(), "false") {
            Ok(false)
        } else {
            Err(HksParseError::InvalidTypeValue("bool".to_owned(), value))
        }
    }

    /// Takes a property out and reads its value as an address.  The
    /// property is gone whether or not its value could be read.
    pub fn get_address(&mut self, key: &str) -> (r: Result<u32, HksParseError>)
        ensures
            final(self)@.title == old(self)@.title,
            final(self)@.line == old(self)@.line,
            final(self)@.props == old(self)@.props.remove(key@),
            match r {
                Ok(a) => taken_address(old(self)@.props, key@) == Ok::<u32, HksParseErrorView>(a),
                Err(e) => taken_address(old(self)@.props, key@) == Err::<u32, HksParseErrorView>(
                    e@,
                ),
            },
    {
        let value = match self.get(key) {
            Ok(value) => value,
            Err(e) => {
                return Err(e);
            },
        };
        match parse_address(value.as_str()) {
            Ok(a) => Ok(a),
            Err(_) => Err(HksParseError::InvalidTypeValue("address".to_owned(), value)),
        }
    }
}

/// Index of the pair with this key.
fn position_of(kv: &Vec<(String, String)>, key: &str) -> (r: Option<usize>)
    ensures
        match r {
            Some(i) => i < kv.len() && kv@[i as int].0@ == key@,
            None => !pairs_map(kv@).contains_key(key@),
        },
        r is Some == pairs_map(kv@).contains_key(key@),
{
    let mut i: usize = 0;
    proof {
        lemma_pairs_map_keys(kv@, key@);
    }
    while i < kv.len()
        invariant
            i <= kv.len(),
            forall|j: int| 0 <= j < i ==> (#[trigger] kv@[j]).0@ != key@,
        decreases kv.len() - i,
    {
        if str_eq(kv[i].0.as_str(), key) {
            proof {
                lemma_pairs_map_keys(kv@, key@);
            }
            return Some(i);
        }
        i += 1;
    }
    proof {
        lemma_pairs_map_keys(kv@, key@);
    }
    None
}

/// `l` without one carriage return at its end.
pub open spec fn strip_cr(l: Seq<char>) -> Seq<char> {
    if l.len() > 0 && l.last() == '\r' {
        l.drop_last()
    } else {
        l
    }
}

/// The lines of a text, each without its line feed and without a carriage
/// return before it.  What follows the last line feed is a line only if it
/// is not empty, and it keeps a carriage return at its end.
pub open spec fn text_lines(s: Seq<char>) -> Seq<Seq<char>> {
    let parts = split_fields(s, '\n');
    let count = if parts.last().len() == 0 {
        parts.len() - 1
    } else {
        parts.len() as int
    };
    Seq::new(
        count as nat,
        |i: int|
            if i < parts.len() - 1 {
                strip_cr(parts[i])
            } else {
                parts[i]
            },
    )
}

/// A line without its comment, which starts at the first `#`, and without
/// the white space at its end.
pub open spec fn clean_line(l: Seq<char>) -> Seq<char> {
    match l.index_of_first('#') {
        Some(i) => trim_end(l.take(i)),
        None => trim_end(l),
    }
}

/// A title line without the colon at its end, if it has one.
pub open spec fn title_of(l: Seq<char>) -> Seq<char> {
    if l.len() > 0 && l.last() == ':' {
        l.drop_last()
    } else {
        l
    }
}

/// The key that a property line has before the colon at index `colon`.
pub open spec fn key_of(l: Seq<char>, colon: int) -> Seq<char> {
    lowercase(trim(l.take(colon)))
}

/// The value that a property line has after the colon at index `colon`.
pub open spec fn value_of(l: Seq<char>, colon: int) -> Seq<char> {
    trim(l.skip(colon + 1))
}

/// How the search for the next title ends.  The number is that of the last
/// line read, counted from one.
pub enum TitleScan {
    /// No line is left.
    Exhausted,
    /// An indented line came first.
    Invalid(int),
    /// A title, on the line of that number.
    Found(Seq<char>, int),
}

/// Looks for the next title from line index `i` on: lines that are empty
/// once cleaned are passed over, and the first other line is the title
/// unless it begins with white space.
pub open spec fn seek_title(lines: Seq<Seq<char>>, i: int) -> TitleScan
    decreases lines.len() - i,
{
    if i < 0 || i >= lines.len() {
        TitleScan::Exhausted
    } else {
        let l = clean_line(lines[i]);
        if l.len() == 0 {
            seek_title(lines, i + 1)
        } else if is_space(l[0]) {
            TitleScan::Invalid(i + 1)
        } else {
            TitleScan::Found(title_of(l), i + 1)
        }
    }
}

/// How the reading of an entry's properties ends.
pub enum PropScan {
    /// The properties, the number of lines read so far, and the title of the
    /// next entry with its line if one was met.
    Done { props: Map<Seq<char>, Seq<char>>, consumed: int, next_title: Option<(Seq<char>, usize)> },
    /// The error of the first line that breaks the format, and the number
    /// of lines read so far.
    Failed { error: HksErrorView, consumed: int },
}

/// Reads property lines from line index `i` on into `props`, up to the end
/// of the text or the next line that is not indented.
pub open spec fn read_props(
    lines: Seq<Seq<char>>,
    i: int,
    props: Map<Seq<char>, Seq<char>>,
) -> PropScan
    decreases lines.len() - i,
{
    if i < 0 || i >= lines.len() {
        PropScan::Done { props, consumed: i, next_title: None }
    } else {
        let l = clean_line(lines[i]);
        let number = (i + 1) as usize;
        if l.len() == 0 {
            read_props(lines, i + 1, props)
        } else if !is_space(l[0]) {
            PropScan::Done { props, consumed: i + 1, next_title: Some((title_of(l), number)) }
        } else {
            match l.index_of_first(':') {
                None => PropScan::Failed {
                    error: HksErrorView::InvalidKeyValueLine(number),
                    consumed: i + 1,
                },
                Some(colon) => {
                    let key = key_of(l, colon);
                    let value = value_of(l, colon);
                    if key.len() == 0 {
                        PropScan::Failed { error: HksErrorView::EmptyKey(number), consumed: i + 1 }
                    } else if value.len() == 0 {
                        PropScan::Failed {
                            error: HksErrorView::EmptyValue(number),
                            consumed: i + 1,
                        }
                    } else if props.contains_key(key) {
                        PropScan::Failed {
                            error: HksErrorView::DuplicateKey(number, key),
                            consumed: i + 1,
                        }
                    } else {
                        read_props(lines, i + 1, props.insert(key, value))
                    }
                },
            }
        }
    }
}

/// The state of a reader: the lines of its text, how many of them it has
/// read, and the title that it has read ahead, with its line.
pub struct HksReaderView {
    pub lines: Seq<Seq<char>>,
    pub line_i: int,
    pub next_title: Option<(Seq<char>, usize)>,
}

/// The entry with this title whose properties start at line index `i`, or
/// the error that its property lines hold, and the reader after it.
pub open spec fn entry_step(lines: Seq<Seq<char>>, i: int, title: Seq<char>, line: usize) -> (
    Option<Result<HksEntryView, HksErrorView>>,
    HksReaderView,
) {
    match read_props(lines, i, Map::empty()) {
        PropScan::Done { props, consumed, next_title } => (
            Some(Ok(HksEntryView { title, line, props })),
            HksReaderView { lines, line_i: consumed, next_title },
        ),
        PropScan::Failed { error, consumed } => (
            Some(Err(error)),
            HksReaderView { lines, line_i: consumed, next_title: None },
        ),
    }
}

/// What the reader hands out next, and the reader after that: nothing at
/// the end of the text, else the next entry or the first error on the way
/// to its end.  After an error the reader goes on behind the line that
/// held it.
pub open spec fn next_step(st: HksReaderView) -> (
    Option<Result<HksEntryView, HksErrorView>>,
    HksReaderView,
) {
    match st.next_title {
        Some((title, line)) => entry_step(st.lines, st.line_i, title, line),
        None => match seek_title(st.lines, st.line_i) {
            TitleScan::Exhausted => (
                None,
                HksReaderView { lines: st.lines, line_i: st.lines.len() as int, next_title: None },
            ),
            TitleScan::Invalid(n) => (
                Some(Err(HksErrorView::InvalidTitleLine(n as usize))),
                HksReaderView { lines: st.lines, line_i: n, next_title: None },
            ),
            TitleScan::Found(title, n) => entry_step(st.lines, n, title, n as usize),
        },
    }
}

/// The views of a result of `next`.
pub open spec fn item_view(r: Option<Result<HksEntry, HksError>>) -> Option<
    Result<HksEntryView, HksErrorView>,
> {
    match r {
        None => None,
        Some(Ok(e)) => Some(Ok(e@)),
        Some(Err(e)) => Some(Err(e@)),
    }
}

/// The texts of a list of lines.
pub open spec fn lines_view(lines: Seq<Vec<char>>) -> Seq<Seq<char>> {
    Seq::new(lines.len(), |i: int| lines[i]@)
}

/// Reads the entries of a declaration text one after the other.
pub struct HksReader {
    lines: Vec<Vec<char>>,
    line_i: usize,
    next_title: Option<(String, usize)>,
}

impl View for HksReader {
    type V = HksReaderView;

    closed spec fn view(&self) -> HksReaderView {
        HksReaderView {
            lines: lines_view(self.lines@),
            line_i: self.line_i as int,
            next_title: match self.next_title {
                Some((t, n)) => Some((t@, n)),
                None => None,
            },
        }
    }
}

/// How the search for a title ended.
enum TitleFound {
    Exhausted,
    Invalid(usize),
    Found(String, usize),
}

/// How the reading of an entry's properties ended.
enum PropsFound {
    Done(Vec<(String, String)>, usize, Option<(String, usize)>),
    Failed(HksError, usize),
}

/// Length of the line once its comment and the white space before the
/// comment are gone.
fn cleaned_len(line: &Vec<char>) -> (e: usize)
    ensures
        e <= line.len(),
        line@.take(e as int) == clean_line(line@),
{
    assert(line@.subrange(0, line.len() as int) == line@);
    let c = match find_char(line, 0, line.len(), '#') {
        Some(i) => i,
        None => line.len(),
    };
    let e = trim_end_index(line, 0, c);
    assert(line@.subrange(0, c as int) == line@.take(c as int));
    assert(line@.take(c as int).take(e as int) == line@.take(e as int));
    assert(line@.take(line.len() as int) == line@);
    e
}

/// The title that the first `e` characters of a line hold.
fn title_text(line: &Vec<char>, e: usize) -> (t: String)
    requires
        0 < e <= line.len(),
    ensures
        t@ == title_of(line@.take(e as int)),
{
    let l = Ghost(line@.take(e as int));
    let end = if line[e - 1] == ':' {
        e - 1
    } else {
        e
    };
    assert(line@.subrange(0, end as int) == title_of(l@));
    text_of(line, 0, end)
}

/// Looks for the next title from line index `from` on.
fn scan_title(lines: &Vec<Vec<char>>, from: usize) -> (r: TitleFound)
    requires
        from <= lines.len(),
    ensures
        match r {
            TitleFound::Exhausted => seek_title(lines_view(lines@), from as int)
                == TitleScan::Exhausted,
            TitleFound::Invalid(n) => from < n <= lines.len() && seek_title(
                lines_view(lines@),
                from as int,
            ) == TitleScan::Invalid(n as int),
            TitleFound::Found(t, n) => from < n <= lines.len() && seek_title(
                lines_view(lines@),
                from as int,
            ) == TitleScan::Found(t@, n as int),
        },
{
    let ghost lv = lines_view(lines@);
    let mut i: usize = from;
    while i < lines.len()
        invariant
            from <= i <= lines.len(),
            lv == lines_view(lines@),
            seek_title(lv, from as int) == seek_title(lv, i as int),
        decreases lines.len() - i,
    {
        let line = &lines[i];
        assert(lv[i as int] == line@);
        let e = cleaned_len(line);
        if e == 0 {
            i += 1;
            continue ;
        }
        assert(line@.take(e as int)[0] == line@[0]);
        if is_whitespace(line[0]) {
            return TitleFound::Invalid(i + 1);
        }
        return TitleFound::Found(title_text(line, e), i + 1);
    }
    TitleFound::Exhausted
}

/// Reads the properties of an entry from line index `from` on.
fn scan_props(lines: &Vec<Vec<char>>, from: usize) -> (r: PropsFound)
    requires
        from <= lines.len(),
    ensures
        match r {
            PropsFound::Done(kv, n, next) => from <= n <= lines.len() && distinct_keys(kv@)
                && read_props(lines_view(lines@), from as int, Map::empty()) == (PropScan::Done {
                props: pairs_map(kv@),
                consumed: n as int,
                next_title: match next {
                    Some((t, k)) => Some((t@, k)),
                    None => None,
                },
            }),
            PropsFound::Failed(e, n) => from < n <= lines.len() && read_props(
                lines_view(lines@),
                from as int,
                Map::empty(),
            ) == (PropScan::Failed { error: e@, consumed: n as int }),
        },
{
    let ghost lv = lines_view(lines@);
    let mut kv: Vec<(String, String)> = Vec::new();
    let mut i: usize = from;
    while i < lines.len()
        invariant
            from <= i <= lines.len(),
            lv == lines_view(lines@),
            distinct_keys(kv@),
            read_props(lv, from as int, Map::empty()) == read_props(lv, i as int, pairs_map(kv@)),
        decreases lines.len() - i,
    {
        let line = &lines[i];
        assert(lv[i as int] == line@);
        let e = cleaned_len(line);
        let ghost l = line@.take(e as int);
        if e == 0 {
            i += 1;
            continue ;
        }
        assert(l[0] == line@[0]);
        if !is_whitespace(line[0]) {
            let title = title_text(line, e);
            return PropsFound::Done(kv, i + 1, Some((title, i + 1)));
        }
        assert(line@.subrange(0, e as int) == l);
        let colon = match find_char(line, 0, e, ':') {
            Some(colon) => colon,
            None => {
                return PropsFound::Failed(HksError::InvalidKeyValueLine(i + 1), i + 1);
            },
        };
        let key_from = trim_start_index(line, 0, colon);
        let key_to = trim_end_index(line, key_from, colon);
        let value_from = trim_start_index(line, colon + 1, e);
        let value_to = trim_end_index(line, value_from, e);
        proof {
            assert(line@.subrange(0, colon as int) == l.take(colon as int));
            assert(l.take(colon as int).skip(key_from as int) == line@.subrange(
                key_from as int,
                colon as int,
            ));
            assert(line@.subrange(key_from as int, colon as int).take(key_to - key_from)
                == line@.subrange(key_from as int, key_to as int));
            assert(line@.subrange(colon + 1, e as int) == l.skip(colon + 1));
            assert(l.skip(colon + 1).skip(value_from - (colon + 1)) == line@.subrange(
                value_from as int,
                e as int,
            ));
            assert(line@.subrange(value_from as int, e as int).take(value_to - value_from)
                == line@.subrange(value_from as int, value_to as int));
        }
        let key_chars = to_lowercase(line, key_from, key_to);
        assert(key_chars@ == key_of(l, colon as int));
        assert(line@.subrange(value_from as int, value_to as int) == value_of(l, colon as int));
        if key_chars.len() == 0 {
            return PropsFound::Failed(HksError::EmptyKey(i + 1), i + 1);
        }
        if value_to == value_from {
            return PropsFound::Failed(HksError::EmptyValue(i + 1), i + 1);
        }
        assert(key_chars@.subrange(0, key_chars.len() as int) == key_chars@);
        let key = text_of(&key_chars, 0, key_chars.len());
        if position_of(&kv, key.as_str()).is_some() {
            return PropsFound::Failed(HksError::DuplicateKey(i + 1, key), i + 1);
        }
        let value = text_of(line, value_from, value_to);
        let ghost before = kv@;
        proof {
            lemma_pairs_map_keys(before, key@);
        }
        kv.push((key, value));
        proof {
            assert(kv@.drop_last() == before);
            assert forall|a: int, b: int| 0 <= a < b < kv@.len() implies (#[trigger] kv@[a]).0@
                != (#[trigger] kv@[b]).0@ by {
                if b < kv@.len() - 1 {
                    assert(before[a].0@ != before[b].0@);
                } else {
                    assert(before[a].0@ != key@);
                }
            }
        }
        i += 1;
    }
    PropsFound::Done(kv, i, None)
}

impl HksReader {
    /// The reader has read no more lines than there are.
    #[verifier::type_invariant]
    spec fn cursor_in_text(&self) -> bool {
        self.line_i <= self.lines.len()
    }

    /// A reader at the start of `text`.
    pub fn new(text: &str) -> (r: HksReader)
        ensures
            r@ == (HksReaderView { lines: text_lines(text@), line_i: 0, next_title: None }),
    {
        let v = chars_of(text);
        let parts = split_ranges(&v, '\n');
        let ghost fields = split_fields(v@, '\n');
        assert(fields.len() == parts.len());
        let mut lines: Vec<Vec<char>> = Vec::new();
        let count = parts.len();
        let mut k: usize = 0;
        while k < count
            invariant
                k <= count == parts.len(),
                fields == split_fields(v@, '\n'),
                ranges_text(v@, parts@) == fields,
                forall|j: int| 0 <= j < parts.len() ==> (#[trigger] parts[j]).0 <= parts[j].1
                    <= v.len(),
                lines.len() == (if k == count && fields.last().len() == 0 {
                    k - 1
                } else {
                    k as int
                }),
                forall|j: int|
                    0 <= j < lines.len() ==> (#[trigger] lines[j])@ == (if j < count - 1 {
                        strip_cr(fields[j])
                    } else {
                        fields[j]
                    }),
            decreases count - k,
        {
            let (from, to) = parts[k];
            assert(ranges_text(v@, parts@)[k as int] == fields[k as int]);
            let ghost field = v@.subrange(from as int, to as int);
            if k + 1 < count {
                let end = if to > from && v[to - 1] == '\r' {
                    to - 1
                } else {
                    to
                };
                assert(v@.subrange(from as int, end as int) == strip_cr(field));
                lines.push(slice_of(&v, from, end));
            } else if to > from {
                lines.push(slice_of(&v, from, to));
            }
            k += 1;
        }
        assert(lines_view(lines@) =~= text_lines(text@));
        HksReader { lines, line_i: 0, next_title: None }
    }

    /// The next entry of the text, the first error on the way to its end,
    /// or `None` when the text holds no further entry.
    pub fn next(&mut self) -> (r: Option<Result<HksEntry, HksError>>)
        ensures
            (item_view(r), final(self)@) == next_step(old(self)@),
    {
        proof {
            use_type_invariant(&*self);
        }
        let mut ahead: Option<(String, usize)> = None;
        std::mem::swap(&mut self.next_title, &mut ahead);
        let (title, line) = match ahead {
            Some((title, line)) => (title, line),
            None => match scan_title(&self.lines, self.line_i) {
                TitleFound::Exhausted => {
                    self.line_i = self.lines.len();
                    return None;
                },
                TitleFound::Invalid(n) => {
                    self.line_i = n;
                    return Some(Err(HksError::InvalidTitleLine(n)));
                },
                TitleFound::Found(title, n) => {
                    self.line_i = n;
                    (title, n)
                },
            },
        };
        match scan_props(&self.lines, self.line_i) {
            PropsFound::Done(kv, n, next) => {
                self.line_i = n;
                self.next_title = next;
                Some(Ok(HksEntry { title, line, kv }))
            },
            PropsFound::Failed(e, n) => {
                self.line_i = n;
                Some(Err(e))
            },
        }
    }
}

/// A comment changes nothing: what follows the first `#` of a line does
/// not count.
pub proof fn lemma_comment_is_dropped(l: Seq<char>, comment: Seq<char>)
    requires
        !l.contains('#'),
    ensures
        clean_line((l + seq!['#']) + comment) == clean_line(l),
{
    let whole = (l + seq!['#']) + comment;
    whole.index_of_first_ensures('#');
    l.index_of_first_ensures('#');
    assert(whole[l.len() as int] == '#');
    assert(whole.contains('#'));
    let i = whole.index_of_first('#').unwrap();
    if i < l.len() {
        assert(l[i] == '#');
    }
    assert(whole.take(l.len() as int) == l);
}

/// A line that is blank or holds a comment only is passed over, both while
/// a title is looked for and between the properties of an entry.
pub proof fn lemma_blank_line_is_passed_over(
    lines: Seq<Seq<char>>,
    i: int,
    props: Map<Seq<char>, Seq<char>>,
)
    requires
        0 <= i < lines.len(),
        clean_line(lines[i]).len() == 0,
    ensures
        seek_title(lines, i) == seek_title(lines, i + 1),
        read_props(lines, i, props) == read_props(lines, i + 1, props),
{
}

/// A property line is split at its first colon only: the colons of the
/// value stay in the value.
pub proof fn lemma_value_keeps_colons(key: Seq<char>, value: Seq<char>)
    requires
        !key.contains(':'),
    ensures
        ((key + seq![':']) + value).index_of_first(':') == Some(key.len() as int),
        key_of((key + seq![':']) + value, key.len() as int) == lowercase(trim(key)),
        value_of((key + seq![':']) + value, key.len() as int) == trim(value),
{
    let l = (key + seq![':']) + value;
    l.index_of_first_ensures(':');
    assert(l[key.len() as int] == ':');
    assert(l.contains(':'));
    let i = l.index_of_first(':').unwrap();
    if i < key.len() {
        assert(key[i] == ':');
    }
    assert(l.take(key.len() as int) == key);
    assert(l.skip(key.len() as int + 1) == value);
}

/// How far a reader is from the end of its text: two for each line that
/// it has not read, and one for a title that it has read ahead.
pub open spec fn reader_measure(st: HksReaderView) -> nat {
    let unread = if st.line_i < st.lines.len() {
        st.lines.len() - st.line_i
    } else {
        0
    };
    let ahead: int = if st.next_title is Some {
        1
    } else {
        0
    };
    (2 * unread + ahead) as nat
}

/// The search for a title reads at least one line when it finds something, and
/// never more than there are.
proof fn lemma_seek_title_bounds(lines: Seq<Seq<char>>, i: int)
    requires
        0 <= i,
    ensures
        match seek_title(lines, i) {
            TitleScan::Exhausted => true,
            TitleScan::Invalid(n) => i < n <= lines.len(),
            TitleScan::Found(_, n) => i < n <= lines.len(),
        },
    decreases lines.len() - i,
{
    if i < lines.len() && clean_line(lines[i]).len() == 0 {
        lemma_seek_title_bounds(lines, i + 1);
    }
}

/// The reading of properties never goes back, never reads more lines than
/// there are, and has read at least one when it ends on a title or an error.
proof fn lemma_read_props_bounds(lines: Seq<Seq<char>>, i: int, props: Map<Seq<char>, Seq<char>>)
    requires
        0 <= i <= lines.len(),
    ensures
        match read_props(lines, i, props) {
            PropScan::Done { consumed, next_title, .. } => i <= consumed <= lines.len() && (
            next_title is Some ==> i < consumed),
            PropScan::Failed { consumed, .. } => i < consumed <= lines.len(),
        },
    decreases lines.len() - i,
{
    if i < lines.len() {
        let l = clean_line(lines[i]);
        if l.len() == 0 {
            lemma_read_props_bounds(lines, i + 1, props);
        } else if is_space(l[0]) {
            match l.index_of_first(':') {
                None => {},
                Some(colon) => {
                    let key = key_of(l, colon);
                    let value = value_of(l, colon);
                    if key.len() != 0 && value.len() != 0 && !props.contains_key(key) {
                        lemma_read_props_bounds(lines, i + 1, props.insert(key, value));
                    }
                },
            }
        }
    }
}

/// A reader that hands something out comes closer to the end of its text,
/// and never leaves it.
pub proof fn lemma_next_step_progress(st: HksReaderView)
    requires
        0 <= st.line_i <= st.lines.len(),
    ensures
        next_step(st).1.lines == st.lines,
        st.line_i <= next_step(st).1.line_i <= st.lines.len(),
        next_step(st).0 is Some ==> reader_measure(next_step(st).1) < reader_measure(st),
        next_step(st).0 is None ==> next_step(st).1.next_title is None && next_step(st).1.line_i
            == st.lines.len(),
{
    match st.next_title {
        Some((title, line)) => {
            lemma_read_props_bounds(st.lines, st.line_i, Map::empty());
        },
        None => {
            lemma_seek_title_bounds(st.lines, st.line_i);
            match seek_title(st.lines, st.line_i) {
                TitleScan::Found(title, n) => {
                    lemma_read_props_bounds(st.lines, n, Map::empty());
                },
                _ => {},
            }
        },
    }
}

} // verus!

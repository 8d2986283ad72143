//! ARM instruction words: branches, register pushes and pops, and the
//! relocation of a branch whose host instruction moves.

use vstd::prelude::*;

use super::error::{ParsingError, ParsingErrorView};
use super::util::{address_of, parse_address};
use crate::text::{chars_of, has_prefix, lowercase, text_of, to_lowercase};
use vstd::utf8::encode_utf8;

verus! {

/// The condition field of an ARM instruction.
#[allow(clippy::upper_case_acronyms)]
#[derive(Debug, Copy, Clone, PartialEq, Eq, Structural)]
pub enum ArmCondition {
    EQ,
    NE,
    CS,
    CC,
    MI,
    PL,
    VS,
    VC,
    HI,
    LS,
    GE,
    LT,
    GT,
    LE,
    AL,
    NV,
}

/// The condition that two lower-case letters name; `hs` and `lo` are other
/// names of `cs` and `cc`.
pub open spec fn condition_of_letters(a: char, b: char) -> Option<ArmCondition> {
    if a == 'e' && b == 'q' {
        Some(ArmCondition::EQ)
    } else if a == 'n' && b == 'e' {
        Some(ArmCondition::NE)
    } else if a == 'c' && b == 's' {
        Some(ArmCondition::CS)
    } else if a == 'h' && b == 's' {
        Some(ArmCondition::CS)
    } else if a == 'c' && b == 'c' {
        Some(ArmCondition::CC)
    } else if a == 'l' && b == 'o' {
        Some(ArmCondition::CC)
    } else if a == 'm' && b == 'i' {
        Some(ArmCondition::MI)
    } else if a == 'p' && b == 'l' {
        Some(ArmCondition::PL)
    } else if a == 'v' && b == 's' {
        Some(ArmCondition::VS)
    } else if a == 'v' && b == 'c' {
        Some(ArmCondition::VC)
    } else if a == 'h' && b == 'i' {
        Some(ArmCondition::HI)
    } else if a == 'l' && b == 's' {
        Some(ArmCondition::LS)
    } else if a == 'g' && b == 'e' {
        Some(ArmCondition::GE)
    } else if a == 'l' && b == 't' {
        Some(ArmCondition::LT)
    } else if a == 'g' && b == 't' {
        Some(ArmCondition::GT)
    } else if a == 'l' && b == 'e' {
        Some(ArmCondition::LE)
    } else if a == 'a' && b == 'l' {
        Some(ArmCondition::AL)
    } else if a == 'n' && b == 'v' {
        Some(ArmCondition::NV)
    } else {
        None
    }
}

/// The condition that a lower-case mnemonic names; the empty text means
/// "always".
pub open spec fn condition_named(s: Seq<char>) -> Option<ArmCondition> {
    if s.len() == 0 {
        Some(ArmCondition::AL)
    } else if s.len() == 2 {
        condition_of_letters(s[0], s[1])
    } else {
        None
    }
}

/// The condition that `s` names, whatever the case of its letters.
pub open spec fn parse_condition(s: Seq<char>) -> Option<ArmCondition> {
    condition_named(lowercase(s))
}

/// The condition that two lower-case letters name.
fn letters_condition(a: char, b: char) -> (r: Option<ArmCondition>)
    ensures
        r == condition_of_letters(a, b),
{
    if a == 'e' && b == 'q' {
        Some(ArmCondition::EQ)
    } else if a == 'n' && b == 'e' {
        Some(ArmCondition::NE)
    } else if a == 'c' && b == 's' {
        Some(ArmCondition::CS)
    } else if a == 'h' && b == 's' {
        Some(ArmCondition::CS)
    } else if a == 'c' && b == 'c' {
        Some(ArmCondition::CC)
    } else if a == 'l' && b == 'o' {
        Some(ArmCondition::CC)
    } else if a == 'm' && b == 'i' {
        Some(ArmCondition::MI)
    } else if a == 'p' && b == 'l' {
        Some(ArmCondition::PL)
    } else if a == 'v' && b == 's' {
        Some(ArmCondition::VS)
    } else if a == 'v' && b == 'c' {
        Some(ArmCondition::VC)
    } else if a == 'h' && b == 'i' {
        Some(ArmCondition::HI)
    } else if a == 'l' && b == 's' {
        Some(ArmCondition::LS)
    } else if a == 'g' && b == 'e' {
        Some(ArmCondition::GE)
    } else if a == 'l' && b == 't' {
        Some(ArmCondition::LT)
    } else if a == 'g' && b == 't' {
        Some(ArmCondition::GT)
    } else if a == 'l' && b == 'e' {
        Some(ArmCondition::LE)
    } else if a == 'a' && b == 'l' {
        Some(ArmCondition::AL)
    } else if a == 'n' && b == 'v' {
        Some(ArmCondition::NV)
    } else {
        None
    }
}

impl ArmCondition {
    /// The four-bit code of the condition.
    pub open spec fn code_spec(self) -> u32 {
        match self {
            ArmCondition::EQ => 0x0,
            ArmCondition::NE => 0x1,
            ArmCondition::CS => 0x2,
            ArmCondition::CC => 0x3,
            ArmCondition::MI => 0x4,
            ArmCondition::PL => 0x5,
            ArmCondition::VS => 0x6,
            ArmCondition::VC => 0x7,
            ArmCondition::HI => 0x8,
            ArmCondition::LS => 0x9,
            ArmCondition::GE => 0xA,
            ArmCondition::LT => 0xB,
            ArmCondition::GT => 0xC,
            ArmCondition::LE => 0xD,
            ArmCondition::AL => 0xE,
            ArmCondition::NV => 0xF,
        }
    }

    /// The four-bit code of the condition.
    #[verifier::when_used_as_spec(code_spec)]
    pub fn code(self) -> (r: u32)
        ensures
            r == self.code_spec(),
            r < 16,
    {
        match self {
            ArmCondition::EQ => 0x0,
            ArmCondition::NE => 0x1,
            ArmCondition::CS => 0x2,
            ArmCondition::CC => 0x3,
            ArmCondition::MI => 0x4,
            ArmCondition::PL => 0x5,
            ArmCondition::VS => 0x6,
            ArmCondition::VC => 0x7,
            ArmCondition::HI => 0x8,
            ArmCondition::LS => 0x9,
            ArmCondition::GE => 0xA,
            ArmCondition::LT => 0xB,
            ArmCondition::GT => 0xC,
            ArmCondition::LE => 0xD,
            ArmCondition::AL => 0xE,
            ArmCondition::NV => 0xF,
        }
    }

    /// The canonical lower-case mnemonic of the condition.
    pub open spec fn mnemonic(self) -> Seq<char> {
        match self {
            ArmCondition::EQ => seq!['e', 'q'],
            ArmCondition::NE => seq!['n', 'e'],
            ArmCondition::CS => seq!['c', 's'],
            ArmCondition::CC => seq!['c', 'c'],
            ArmCondition::MI => seq!['m', 'i'],
            ArmCondition::PL => seq!['p', 'l'],
            ArmCondition::VS => seq!['v', 's'],
            ArmCondition::VC => seq!['v', 'c'],
            ArmCondition::HI => seq!['h', 'i'],
            ArmCondition::LS => seq!['l', 's'],
            ArmCondition::GE => seq!['g', 'e'],
            ArmCondition::LT => seq!['l', 't'],
            ArmCondition::GT => seq!['g', 't'],
            ArmCondition::LE => seq!['l', 'e'],
            ArmCondition::AL => seq!['a', 'l'],
            ArmCondition::NV => seq!['n', 'v'],
        }
    }

    /// Reads a condition mnemonic of either case; a text that names no
    /// condition is handed back in the error.
    pub fn from_str(s: &str) -> (r: Result<ArmCondition, ParsingError>)
        ensures
            match r {
                Ok(c) => parse_condition(s@) == Some(c),
                Err(e) => parse_condition(s@) is None && e@ == ParsingErrorView::InvalidCondition(
                    s@,
                ),
            },
    {
        let v = chars_of(s);
        assert(v@.subrange(0, v.len() as int) == v@);
        let l = to_lowercase(&v, 0, v.len());
        let found = if l.len() == 0 {
            Some(ArmCondition::AL)
        } else if l.len() == 2 {
            letters_condition(l[0], l[1])
        } else {
            None
        };
        match found {
            Some(c) => Ok(c),
            None => Err(ParsingError::InvalidCondition(s.to_owned())),
        }
    }
}

/// Lower-casing a text that is in lower case already changes nothing.
pub proof fn lemma_lowercase_idempotent(s: Seq<char>)
    ensures
        lowercase(lowercase(s)) == lowercase(s),
{
    assert(lowercase(lowercase(s)) =~= lowercase(s));
}

/// Every condition is read back from its mnemonic, so the sixteen mnemonics
/// name sixteen different conditions.
pub proof fn lemma_condition_round_trip(c: ArmCondition)
    ensures
        parse_condition(c.mnemonic()) == Some(c),
{
    assert(lowercase(c.mnemonic()) =~= c.mnemonic());
}

/// The mnemonic is read whatever the case of its letters.
pub proof fn lemma_condition_ignores_case(s: Seq<char>)
    ensures
        parse_condition(lowercase(s)) == parse_condition(s),
{
    lemma_lowercase_idempotent(s);
}

/// `hs` and `lo` are read as `cs` and `cc`, and the empty text as `al`.
pub proof fn lemma_condition_aliases()
    ensures
        parse_condition(seq!['h', 's']) == Some(ArmCondition::CS),
        parse_condition(seq!['l', 'o']) == Some(ArmCondition::CC),
        parse_condition(Seq::<char>::empty()) == Some(ArmCondition::AL),
{
    assert(lowercase(seq!['h', 's']) =~= seq!['h', 's']);
    assert(lowercase(seq!['l', 'o']) =~= seq!['l', 'o']);
    assert(lowercase(Seq::<char>::empty()) =~= Seq::<char>::empty());
}

/// A branch instruction that waits for its destination: where it stands,
/// under which condition it is taken, and whether it links.
#[derive(Debug, PartialEq, Eq, Clone, Copy, Structural)]
pub struct ArmBranch {
    pub condition: ArmCondition,
    pub link: bool,
    pub from_addr: u32,
}

/// Distance of a branch in instructions, counted from the instruction two
/// after the branch, which is where the processor's prefetch stands.
pub open spec fn branch_offset(from_addr: u32, to_addr: u32) -> int {
    (to_addr / 4) as int - (from_addr / 4) as int - 2
}

/// The offsets that the encoder accepts.
pub open spec fn offset_fits(offset: int) -> bool {
    -0x100_0000 <= offset <= 0xFF_FFFF
}

/// The low 24 bits of an offset in two's complement.
pub open spec fn offset_field(offset: int) -> u32 {
    (offset % 0x100_0000) as u32
}

/// The bit that tells a linking branch from a plain one.
pub open spec fn link_bit(link: bool) -> u32 {
    if link {
        1
    } else {
        0
    }
}

/// A B or BL word: condition in bits 31..28, `101` in bits 27..25, the link
/// flag in bit 24 and the offset in bits 23..0.
pub open spec fn branch_word(condition: ArmCondition, link: bool, offset: int) -> u32 {
    (0b101u32 << 25) | (condition.code() << 28) | (link_bit(link) << 24) | offset_field(offset)
}

/// The word that branches from `from_addr` to `to_addr`, where the distance
/// can be encoded.
pub open spec fn branch_encoding(
    link: bool,
    from_addr: u32,
    to_addr: u32,
    condition: ArmCondition,
) -> Option<u32> {
    let offset = branch_offset(from_addr, to_addr);
    if offset_fits(offset) {
        Some(branch_word(condition, link, offset))
    } else {
        None
    }
}

/// A STMDB sp! word that pushes the registers of the mask.
pub open spec fn push_word(registers: u16, condition: ArmCondition) -> u32 {
    0x092D_0000u32 | (condition.code() << 28) | (registers as u32)
}

/// A LDMIA sp! word that pops the registers of the mask.
pub open spec fn pop_word(registers: u16, condition: ArmCondition) -> u32 {
    0x08BD_0000u32 | (condition.code() << 28) | (registers as u32)
}

/// Whether the word is a B or BL instruction.
pub open spec fn is_branch_word(word: u32) -> bool {
    (word >> 24) & 0xF == 0xA || (word >> 24) & 0xF == 0xB
}

/// The offset that a branch word holds: its low 24 bits read as a signed
/// number.
pub open spec fn word_offset(word: u32) -> int {
    let field = word & 0xFF_FFFF;
    if field >= 0x80_0000 {
        field - 0x100_0000
    } else {
        field as int
    }
}

/// The address that a branch word standing at `at` jumps to.
pub open spec fn branch_target(word: u32, at: u32) -> int {
    at + 8 + 4 * word_offset(word)
}

/// The offset of a branch once its host instruction has moved from
/// `src_address` to `dest_address`.
pub open spec fn relocated_offset(word: u32, src_address: u32, dest_address: u32) -> int {
    (src_address / 4) as int - (dest_address / 4) as int + word_offset(word)
}

/// The offsets that the 24-bit field of a branch word holds: the signed
/// numbers of 24 bits.
pub open spec fn offset_is_signed_24(offset: int) -> bool {
    -0x80_0000 <= offset < 0x80_0000
}

/// The word to put at `dest_address` in place of `word` at `src_address`:
/// a branch gets the offset that reaches its old destination, or nothing
/// where the field of the word cannot hold that offset; any other word
/// stays as it is.
pub open spec fn relocation(word: u32, src_address: u32, dest_address: u32) -> Option<u32> {
    if is_branch_word(word) {
        let offset = relocated_offset(word, src_address, dest_address);
        if offset_is_signed_24(offset) {
            Some((word & 0xFF00_0000) | offset_field(offset))
        } else {
            None
        }
    } else {
        Some(word)
    }
}

/// The branch that a condition text, a link flag and an address text make.
pub open spec fn branch_with(cond: Seq<char>, link: bool, arg: Seq<char>) -> Result<
    ArmBranch,
    ParsingErrorView,
> {
    match parse_condition(cond) {
        None => Err(ParsingErrorView::InvalidCondition(cond)),
        Some(condition) => match address_of(arg) {
            None => Err(ParsingErrorView::InvalidAddress(arg)),
            Some(from_addr) => Ok(ArmBranch { condition, link, from_addr }),
        },
    }
}

/// The branch that a mnemonic `b[cond]` or `bl[cond]` and an address text
/// make.  Only mnemonics of one or three bytes are read as `b`, only those
/// of two or four as `bl`; the mnemonic is read in lower case.
pub open spec fn parse_branch(s: Seq<char>, arg: Seq<char>) -> Result<ArmBranch, ParsingErrorView> {
    let n = encode_utf8(s).len();
    let l = lowercase(s);
    if (n == 1 || n == 3) && has_prefix(l, seq!['b']) {
        branch_with(l.skip(1), false, arg)
    } else if (n == 2 || n == 4) && has_prefix(l, seq!['b', 'l']) {
        branch_with(l.skip(2), true, arg)
    } else {
        Err(ParsingErrorView::InvalidBranch(l))
    }
}

/// Two's-complement low 24 bits of an offset that fits.
fn field_of(offset: i64) -> (r: u32)
    requires
        offset_fits(offset as int),
    ensures
        r == offset_field(offset as int),
        r <= 0xFF_FFFF,
{
    if offset >= 0 {
        offset as u32
    } else {
        (offset + 0x100_0000) as u32
    }
}

impl ArmBranch {
    /// The instruction word of this branch with `to_addr` as destination, or
    /// `None` where the destination is too far.
    pub fn to_u32(&self, to_addr: u32) -> (r: Option<u32>)
        ensures
            r == branch_encoding(self.link, self.from_addr, to_addr, self.condition),
    {
        let offset: i64 = (to_addr / 4) as i64 - (self.from_addr / 4) as i64 - 2;
        if offset < -0x100_0000 || offset > 0xFF_FFFF {
            return None;
        }
        let link: u32 = if self.link {
            1
        } else {
            0
        };
        let code: u32 = self.condition.code();
        assert(code << 28 == code * 0x1000_0000) by (bit_vector)
            requires
                code < 16,
        ;
        Some((0b101u32 << 25) | (code << 28) | (link << 24) | field_of(offset))
    }

    /// Turns a branch mnemonic and the text of the address at which the
    /// branch stands into a branch.
    pub fn from_str(s: &str, from_addr_str: &str) -> (r: Result<ArmBranch, ParsingError>)
        ensures
            match r {
                Ok(b) => parse_branch(s@, from_addr_str@) == Ok::<ArmBranch, ParsingErrorView>(b),
                Err(e) => parse_branch(s@, from_addr_str@) == Err::<ArmBranch, ParsingErrorView>(
                    e@,
                ),
            },
    {
        let n = s.as_bytes().len();
        let v = chars_of(s);
        assert(v@.subrange(0, v.len() as int) == v@);
        let l = to_lowercase(&v, 0, v.len());
        let link = if (n == 1 || n == 3) && l.len() >= 1 && l[0] == 'b' {
            assert(l@.take(1) =~= seq!['b']);
            false
        } else if (n == 2 || n == 4) && l.len() >= 2 && l[0] == 'b' && l[1] == 'l' {
            assert(l@.take(2) =~= seq!['b', 'l']);
            true
        } else {
            proof {
                if has_prefix(l@, seq!['b']) {
                    assert(l@.take(1)[0] == 'b');
                }
                if has_prefix(l@, seq!['b', 'l']) {
                    assert(l@.take(2)[0] == 'b');
                    assert(l@.take(2)[1] == 'l');
                }
            }
            assert(l@.subrange(0, l.len() as int) == l@);
            return Err(ParsingError::InvalidBranch(text_of(&l, 0, l.len())));
        };
        let start: usize = if link {
            2
        } else {
            1
        };
        let cond_text = text_of(&l, start, l.len());
        assert(l@.subrange(start as int, l.len() as int) == l@.skip(start as int));
        let condition = match ArmCondition::from_str(cond_text.as_str()) {
            Ok(c) => c,
            Err(e) => {
                return Err(e);
            },
        };
        let from_addr = match parse_address(from_addr_str) {
            Ok(a) => a,
            Err(e) => {
                return Err(e);
            },
        };
        Ok(ArmBranch { condition, link, from_addr })
    }
}

/// The B or BL word that stands at `from_addr` and jumps to `to_addr`, or
/// `None` where the distance in instructions is below -2^24 or above
/// 2^24 - 1.
pub fn make_branch_u32(link: bool, from_addr: u32, to_addr: u32, condition: ArmCondition) -> (r:
    Option<u32>)
    ensures
        r == branch_encoding(link, from_addr, to_addr, condition),
{
    ArmBranch { condition, link, from_addr }.to_u32(to_addr)
}

/// The word that pushes the registers of `registers_bitfield` on the stack.
pub fn make_push_u32(registers_bitfield: u16, cond: ArmCondition) -> (r: u32)
    ensures
        r == push_word(registers_bitfield, cond),
{
    0x092D_0000u32 | (cond.code() << 28) | (registers_bitfield as u32)
}

/// The word that pops the registers of `registers_bitfield` off the stack.
pub fn make_pop_u32(registers_bitfield: u16, cond: ArmCondition) -> (r: u32)
    ensures
        r == pop_word(registers_bitfield, cond),
{
    0x08BD_0000u32 | (cond.code() << 28) | (registers_bitfield as u32)
}

/// The word to write at `dest_address` for the instruction `val` that stood
/// at `src_address`.
pub fn relocate_u32(val: u32, src_address: u32, dest_address: u32) -> (r: Option<u32>)
    ensures
        r == relocation(val, src_address, dest_address),
{
    let nybble14 = (val >> 24) & 0xF;
    if nybble14 == 0xA || nybble14 == 0xB {
        let field: u32 = val & 0xFF_FFFF;
        assert(field <= 0xFF_FFFF) by (bit_vector)
            requires
                field == val & 0xFF_FFFF,
        ;
        let old_offset: i64 = if field >= 0x80_0000 {
            field as i64 - 0x100_0000
        } else {
            field as i64
        };
        let new_offset: i64 = (src_address / 4) as i64 - (dest_address / 4) as i64 + old_offset;
        if new_offset < -0x80_0000 || new_offset > 0x7F_FFFF {
            return None;
        }
        Some((val & 0xFF00_0000) | field_of(new_offset))
    } else {
        Some(val)
    }
}

/// A branch word holds its offset in its low 24 bits and is recognised as a
/// branch.
proof fn lemma_branch_word_fields(code: u32, link: u32, field: u32)
    by (bit_vector)
    requires
        code < 16,
        link <= 1,
        field <= 0xFF_FFFF,
    ensures
        ((0b101u32 << 25) | (code << 28) | (link << 24) | field) & 0xFF_FFFF == field,
        (((0b101u32 << 25) | (code << 28) | (link << 24) | field) >> 24) & 0xF == 0xA + link,
        ((0b101u32 << 25) | (code << 28) | (link << 24) | field) >> 28 == code,
{
}

/// Replacing the low 24 bits of a word leaves its high 8 bits alone.
proof fn lemma_replaced_field(word: u32, field: u32)
    by (bit_vector)
    requires
        field <= 0xFF_FFFF,
    ensures
        ((word & 0xFF00_0000) | field) & 0xFF_FFFF == field,
        ((word & 0xFF00_0000) | field) >> 24 == word >> 24,
        ((word & 0xFF00_0000) | field) & 0xFF00_0000 == word & 0xFF00_0000,
{
}

/// The signed reading of the 24-bit field of an offset gives the offset
/// back as long as the offset is a signed 24-bit number.
proof fn lemma_field_reads_back(offset: int)
    requires
        -0x80_0000 <= offset < 0x80_0000,
    ensures
        offset_field(offset) <= 0xFF_FFFF,
        (if offset_field(offset) >= 0x80_0000 {
            offset_field(offset) - 0x100_0000
        } else {
            offset_field(offset) as int
        }) == offset,
{
}

/// A branch between two addresses of the same alignment whose distance,
/// counted from eight bytes after the branch, is at most 2^25 - 4 bytes is
/// encoded, and the word decodes to the destination: its low 24 bits, read
/// as a signed number of instructions and counted from `from_addr + 8`,
/// give `to_addr`.
pub proof fn lemma_branch_reaches_target(
    link: bool,
    from_addr: u32,
    to_addr: u32,
    condition: ArmCondition,
)
    requires
        to_addr % 4 == from_addr % 4,
        -(0x200_0000 - 4) <= to_addr - from_addr - 8 <= 0x200_0000 - 4,
    ensures
        branch_encoding(link, from_addr, to_addr, condition) is Some,
        is_branch_word(branch_encoding(link, from_addr, to_addr, condition).unwrap()),
        branch_target(branch_encoding(link, from_addr, to_addr, condition).unwrap(), from_addr)
            == to_addr,
{
    let offset = branch_offset(from_addr, to_addr);
    assert(4 * offset == to_addr - from_addr - 8);
    lemma_field_reads_back(offset);
    lemma_branch_word_fields(condition.code(), link_bit(link), offset_field(offset));
}

/// A branch that is moved between two addresses of the same alignment is
/// either refused, which happens exactly where its new offset is no signed
/// 24-bit number, or keeps its destination, its condition and its link
/// flag.
pub proof fn lemma_relocation_keeps_target(word: u32, src_address: u32, dest_address: u32)
    requires
        is_branch_word(word),
        src_address % 4 == dest_address % 4,
    ensures
        relocation(word, src_address, dest_address) is None <==> !offset_is_signed_24(
            relocated_offset(word, src_address, dest_address),
        ),
        relocation(word, src_address, dest_address) matches Some(moved) ==> is_branch_word(moved)
            && moved >> 24 == word >> 24 && branch_target(moved, dest_address) == branch_target(
            word,
            src_address,
        ),
{
    let offset = relocated_offset(word, src_address, dest_address);
    if offset_is_signed_24(offset) {
        lemma_field_reads_back(offset);
        lemma_replaced_field(word, offset_field(offset));
    }
}

/// A word that is no branch is moved as it is, wherever it goes.
pub proof fn lemma_relocation_other_cases(word: u32, src_address: u32, dest_address: u32)
    requires
        !is_branch_word(word),
    ensures
        relocation(word, src_address, dest_address) == Some(word),
{
}

/// A branch moved to where it stands stays as it is.
pub proof fn lemma_relocation_in_place(word: u32, address: u32)
    requires
        is_branch_word(word),
    ensures
        relocation(word, address, address) == Some(word),
{
    let field = word & 0xFF_FFFF;
    assert(field <= 0xFF_FFFF && (word & 0xFF00_0000) | field == word) by (bit_vector)
        requires
            field == word & 0xFF_FFFF,
    ;
    lemma_field_reads_back(word_offset(word));
}

} // verus!

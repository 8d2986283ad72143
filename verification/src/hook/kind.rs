use vstd::prelude::*;

use super::arm::{parse_branch, ArmBranch};
use super::error::{ParsingError, ParsingErrorView};
use super::util::{address_of, parse_address};
use crate::text::{chars_of, is_text, lowercase, text_of, to_lowercase};

verus! {

/// What a hook does with the address that it names.
#[derive(Debug, PartialEq, Eq, Clone, Copy, Structural)]
pub enum HookKind {
    /// Call the hook before the instruction at this address.
    Pre(u32),
    /// Call the hook after the instruction at this address.
    Post(u32),
    /// Overwrite the instruction at the branch's address with a branch to
    /// the hook.
    Branch(ArmBranch),
    /// Place the hook's section at this address.
    Replace(u32),
    /// Write the hook's address at this address.
    Symptr(u32),
}

/// The address that `arg` writes, or the error that quotes it.
pub open spec fn address_or_error(arg: Seq<char>) -> Result<u32, ParsingErrorView> {
    match address_of(arg) {
        Some(a) => Ok(a),
        None => Err(ParsingErrorView::InvalidAddress(arg)),
    }
}

/// The hook kind that a kind text and its argument make.  The kind is read
/// in lower case: `pre`, `post`, `replace` and `symptr` take an address;
/// anything else is read as a branch mnemonic, and one that is none is
/// refused as a kind, quoted as it was given.
pub open spec fn parse_kind(kind: Seq<char>, arg: Seq<char>) -> Result<HookKind, ParsingErrorView> {
    let l = lowercase(kind);
    if l == "pre"@ {
        match address_or_error(arg) {
            Ok(a) => Ok(HookKind::Pre(a)),
            Err(e) => Err(e),
        }
    } else if l == "post"@ {
        match address_or_error(arg) {
            Ok(a) => Ok(HookKind::Post(a)),
            Err(e) => Err(e),
        }
    } else if l == "replace"@ {
        match address_or_error(arg) {
            Ok(a) => Ok(HookKind::Replace(a)),
            Err(e) => Err(e),
        }
    } else if l == "symptr"@ {
        match address_or_error(arg) {
            Ok(a) => Ok(HookKind::Symptr(a)),
            Err(e) => Err(e),
        }
    } else {
        match parse_branch(l, arg) {
            Ok(b) => Ok(HookKind::Branch(b)),
            Err(ParsingErrorView::InvalidBranch(_)) => Err(ParsingErrorView::InvalidKind(kind)),
            Err(e) => Err(e),
        }
    }
}

impl HookKind {
    /// Reads the kind field of a tag together with its argument.
    pub fn from_str(kind_str: &str, arg_str: &str) -> (r: Result<HookKind, ParsingError>)
        ensures
            match r {
                Ok(k) => parse_kind(kind_str@, arg_str@) == Ok::<HookKind, ParsingErrorView>(k),
                Err(e) => parse_kind(kind_str@, arg_str@) == Err::<HookKind, ParsingErrorView>(
                    e@,
                ),
            },
    {
        let v = chars_of(kind_str);
        assert(v@.subrange(0, v.len() as int) == v@);
        let l = to_lowercase(&v, 0, v.len());
        if is_text(&l, "pre") {
            match parse_address(arg_str) {
                Ok(a) => Ok(HookKind::Pre(a)),
                Err(e) => Err(e),
            }
        } else if is_text(&l, "post") {
            match parse_address(arg_str) {
                Ok(a) => Ok(HookKind::Post(a)),
                Err(e) => Err(e),
            }
        } else if is_text(&l, "replace") {
            match parse_address(arg_str) {
                Ok(a) => Ok(HookKind::Replace(a)),
                Err(e) => Err(e),
            }
        } else if is_text(&l, "symptr") {
            match parse_address(arg_str) {
                Ok(a) => Ok(HookKind::Symptr(a)),
                Err(e) => Err(e),
            }
        } else {
            assert(l@.subrange(0, l.len() as int) == l@);
            let lower = text_of(&l, 0, l.len());
            match ArmBranch::from_str(lower.as_str(), arg_str) {
                Ok(b) => Ok(HookKind::Branch(b)),
                Err(ParsingError::InvalidBranch(_)) => Err(
                    ParsingError::InvalidKind(kind_str.to_owned()),
                ),
                Err(e) => Err(e),
            }
        }
    }
}

} // verus!

use vstd::prelude::*;

use super::error::{Error, ErrorView};
use super::kind::{parse_kind, HookKind};
use super::location::{HookLocation, HookLocationView};
use super::meta::{parse_meta, HookMeta};
use super::symbol_safe::max_token_len;
use crate::text::{chars_of, has_prefix, rfind_char, starts_with, text_of};

verus! {

/// A hook as its tag declares it.
#[derive(Debug, PartialEq)]
pub struct HookInfo {
    pub kind: HookKind,
    pub location: HookLocation,
    /// Tells hooks of one source line apart.
    pub counter: u32,
}

/// A `HookInfo` with its location as a view.
pub struct HookInfoView {
    pub kind: HookKind,
    pub location: HookLocationView,
    pub counter: u32,
}

impl View for HookInfo {
    type V = HookInfoView;

    open spec fn view(&self) -> HookInfoView {
        HookInfoView { kind: self.kind, location: self.location@, counter: self.counter }
    }
}

/// The hook that a tag declares: its fields are split first, then the kind
/// is read; an error of the kind carries the location that the tag names.
pub open spec fn parse_info(s: Seq<char>) -> Result<HookInfoView, ErrorView> {
    match parse_meta(s) {
        Err(e) => Err(ErrorView::MetaParsingError(e)),
        Ok(m) => match parse_kind(m.kind, m.arg) {
            Err(e) => Err(ErrorView::ParsingError(e, m.location)),
            Ok(kind) => Ok(HookInfoView { kind, location: m.location, counter: m.counter }),
        },
    }
}

/// The hook that a section name declares.
pub open spec fn parse_section_name(s: Seq<char>) -> Result<HookInfoView, ErrorView> {
    if has_prefix(s, HookInfo::SECTION_PREFIX@) {
        parse_info(s.skip(HookInfo::SECTION_PREFIX@.len() as int))
    } else {
        Err(ErrorView::InvalidPrefix)
    }
}

/// A symbol name's tag: what follows the prefix, up to the last `@` if
/// there is one.
pub open spec fn symbol_tag(s: Seq<char>) -> Seq<char> {
    let tail = s.skip(HookInfo::SYMBOL_PREFIX@.len() as int);
    match tail.index_of_last('@') {
        Some(i) => tail.take(i),
        None => tail,
    }
}

/// The hook that a symbol name declares.
pub open spec fn parse_symbol_name(s: Seq<char>) -> Result<HookInfoView, ErrorView> {
    if has_prefix(s, HookInfo::SYMBOL_PREFIX@) {
        parse_info(symbol_tag(s))
    } else {
        Err(ErrorView::InvalidPrefix)
    }
}

impl HookInfo {
    /// What a section name begins with when it declares a hook.
    pub const SECTION_PREFIX: &'static str = ".__mw_hook_";

    /// What a symbol name begins with when it declares a hook.
    pub const SYMBOL_PREFIX: &'static str = "__mw_hook_";

    /// Reads a tag that has lost its prefix and suffix.
    pub fn from_str(input: &str) -> (r: Result<HookInfo, Error>)
        requires
            input@.len() <= max_token_len(),
        ensures
            match r {
                Ok(h) => parse_info(input@) == Ok::<HookInfoView, ErrorView>(h@),
                Err(e) => parse_info(input@) == Err::<HookInfoView, ErrorView>(e@),
            },
    {
        let meta = match HookMeta::from_str(input) {
            Ok(meta) => meta,
            Err(e) => {
                return Err(Error::MetaParsingError(e));
            },
        };
        let kind = match HookKind::from_str(meta.kind_str, meta.arg_str) {
            Ok(kind) => kind,
            Err(e) => {
                return Err(Error::ParsingError(e, meta.location.clone()));
            },
        };
        Ok(HookInfo { kind, location: meta.location, counter: meta.counter })
    }

    /// Reads the name of a section; one that does not begin with the section
    /// prefix is no hook.
    pub fn from_section_str(section_str: &str) -> (r: Result<HookInfo, Error>)
        requires
            section_str@.len() <= max_token_len(),
        ensures
            match r {
                Ok(h) => parse_section_name(section_str@) == Ok::<HookInfoView, ErrorView>(h@),
                Err(e) => parse_section_name(section_str@) == Err::<HookInfoView, ErrorView>(e@),
            },
    {
        let v = chars_of(section_str);
        let prefix = chars_of(Self::SECTION_PREFIX);
        if starts_with(&v, &prefix) {
            assert(v@.subrange(prefix.len() as int, v.len() as int) == v@.skip(
                prefix.len() as int,
            ));
            let tag = text_of(&v, prefix.len(), v.len());
            Self::from_str(tag.as_str())
        } else {
            Err(Error::InvalidPrefix)
        }
    }

    /// Reads the name of a symbol; one that does not begin with the symbol
    /// prefix is no hook.  What follows the last `@` of the name is ignored.
    pub fn from_symbol_str(symbol_str: &str) -> (r: Result<HookInfo, Error>)
        requires
            symbol_str@.len() <= max_token_len(),
        ensures
            match r {
                Ok(h) => parse_symbol_name(symbol_str@) == Ok::<HookInfoView, ErrorView>(h@),
                Err(e) => parse_symbol_name(symbol_str@) == Err::<HookInfoView, ErrorView>(e@),
            },
    {
        let v = chars_of(symbol_str);
        let prefix = chars_of(Self::SYMBOL_PREFIX);
        if starts_with(&v, &prefix) {
            let start = prefix.len();
            let ghost tail = v@.skip(start as int);
            assert(v@.subrange(start as int, v.len() as int) == tail);
            let end = match rfind_char(&v, start, v.len(), '@') {
                Some(i) => i,
                None => v.len(),
            };
            assert(v@.subrange(start as int, end as int) == tail.take(end - start));
            assert(tail.take(tail.len() as int) == tail);
            let tag = text_of(&v, start, end);
            Self::from_str(tag.as_str())
        } else {
            Err(Error::InvalidPrefix)
        }
    }
}

} // verus!

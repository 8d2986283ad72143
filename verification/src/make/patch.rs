//! The state of the transaction, and what a symbol of the linked program
//! does to it.

use vstd::hash_map::StringHashMap;
use vstd::prelude::*;

use super::elf::{demangle, demangled, symbols_view, ElfSymbol, ElfSymbolView};
use super::error::{
    FatalError, FatalErrorView, HookProblem, HookProblemView, MakeError, MakeErrorView,
};
use super::prepost::{
    arena_conflict, entries_view, register, with_registered, PrePostEntry, PrePostEntryView, Side,
};
use crate::bytes::{le_bytes, to_le_bytes};
use crate::hook::arm::branch_encoding;
use crate::hook::error::{Error, ErrorView};
use crate::hook::info::{parse_symbol_name, HookInfo, HookInfoView};
use crate::hook::kind::HookKind;
use crate::hook::location::{HookLocation, HookLocationView};
use crate::hook::symbol_safe::max_token_len;
use crate::hook::writer::{HookExtraPos, HookWriter, HookWriterView};
use crate::text::str_eq;

verus! {

/// What the transaction has got so far: the image, the callbacks that wait
/// for their trampolines, the addresses of the symbols, and the address of
/// the symbol that marks the end of the custom text, if it has been met.
pub struct Patch {
    pub writer: HookWriter,
    pub entries: Vec<PrePostEntry>,
    pub symbols: StringHashMap<u32>,
    pub text_end: Option<u32>,
}

/// The state of the transaction as its contracts speak of it.
pub struct PatchView {
    pub writer: HookWriterView,
    pub entries: Seq<PrePostEntryView>,
    pub symbols: Map<Seq<char>, u32>,
    pub text_end: Option<u32>,
}

impl View for Patch {
    type V = PatchView;

    open spec fn view(&self) -> PatchView {
        PatchView {
            writer: self.writer@,
            entries: entries_view(self.entries@),
            symbols: self.symbols@,
            text_end: self.text_end,
        }
    }
}

impl Patch {
    /// A transaction on the given image, with nothing done yet.
    pub fn new(writer: HookWriter) -> (r: Patch)
        ensures
            r@ == (PatchView {
                writer: writer@,
                entries: Seq::empty(),
                symbols: Map::empty(),
                text_end: None,
            }),
    {
        let r = Patch {
            writer,
            entries: Vec::new(),
            symbols: StringHashMap::new(),
            text_end: None,
        };
        assert(r@.entries =~= Seq::empty());
        r
    }

    /// Makes a symbol known under its name and, where the name mangles a
    /// C++ declaration, under that declaration.
    pub fn index_symbol(&mut self, name: &str, address: u32)
        ensures
            final(self)@ == (PatchView {
                symbols: indexed(old(self)@.symbols, name@, address),
                ..old(self)@
            }),
    {
        self.symbols.insert(name.to_owned(), address);
        match demangle(name) {
            Some(plain) => {
                self.symbols.insert(plain, address);
            },
            None => {},
        }
    }

    /// The address of the symbol of this name, if it is known.
    pub fn symbol_address(&self, name: &str) -> (r: Option<u32>)
        ensures
            r == (if self@.symbols.contains_key(name@) {
                Some(self@.symbols[name@])
            } else {
                None
            }),
    {
        match self.symbols.get(name) {
            Some(address) => Some(*address),
            None => None,
        }
    }
}

/// The low 32 bits of a number.
pub open spec fn low_word(x: int) -> u32 {
    (x % 0x1_0000_0000) as u32
}

/// The low 32 bits of `x`.
pub fn low_word_of(x: u64) -> (r: u32)
    ensures
        r == low_word(x as int),
{
    let r = (x & 0xFFFF_FFFF) as u32;
    assert(x & 0xFFFF_FFFF == x % 0x1_0000_0000) by (bit_vector);
    r
}

/// The arena for the trampoline of a site: the loader arena for sites
/// below the custom text, the tail for the others.
pub open spec fn arena_of(address: u32, custom_text_address: u32) -> HookExtraPos {
    if address < custom_text_address {
        HookExtraPos::Loader
    } else {
        HookExtraPos::Tail
    }
}

/// The name of the symbol that marks the end of the custom text.
pub open spec fn text_end_name() -> Seq<char> {
    "__mw_text_end"@
}

/// The transaction after `data` has been written at `address` for the hook
/// of `location`.
pub open spec fn write_step(
    p: PatchView,
    location: HookLocationView,
    address: u32,
    data: Seq<u8>,
) -> Result<PatchView, MakeErrorView> {
    match p.writer.write_outcome(address, data) {
        Ok(()) => Ok(PatchView { writer: p.writer.written(address, data), ..p }),
        Err(e) => Err(MakeErrorView::Hook(location, HookProblemView::Write(e))),
    }
}

/// The transaction after the hook of `location` has put a callback on one
/// side of the instruction at `from_addr`.
pub open spec fn register_step(
    p: PatchView,
    location: HookLocationView,
    from_addr: u32,
    extra_pos: HookExtraPos,
    side: Side,
    callback: u32,
) -> Result<PatchView, MakeErrorView> {
    if arena_conflict(p.entries, from_addr, extra_pos) {
        Err(MakeErrorView::Hook(location, HookProblemView::ArenaConflict(from_addr)))
    } else {
        Ok(
            PatchView {
                entries: with_registered(
                    p.entries,
                    from_addr,
                    extra_pos,
                    side,
                    (callback, location),
                ),
                ..p
            },
        )
    }
}

/// The symbol addresses with one more symbol: it is found under its name
/// and, where the name mangles a C++ declaration, under that declaration.
pub open spec fn indexed(symbols: Map<Seq<char>, u32>, name: Seq<char>, address: u32) -> Map<
    Seq<char>,
    u32,
> {
    match demangled(name) {
        Some(plain) => symbols.insert(name, address).insert(plain, address),
        None => symbols.insert(name, address),
    }
}

/// What the hook that a symbol declares does: a branch is written at its
/// address, with the symbol as destination; a symbol pointer gets the
/// symbol's address; a pre or post hook puts the symbol on the list of its
/// site.  A symbol cannot declare a replacement.
pub open spec fn symbol_hook_step(
    p: PatchView,
    info: HookInfoView,
    address: u32,
    custom_text_address: u32,
) -> Result<PatchView, MakeErrorView> {
    match info.kind {
        HookKind::Branch(branch) => match branch_encoding(
            branch.link,
            branch.from_addr,
            address,
            branch.condition,
        ) {
            None => Err(
                MakeErrorView::Hook(
                    info.location,
                    HookProblemView::BranchOutOfRange(branch.from_addr, address),
                ),
            ),
            Some(word) => write_step(p, info.location, branch.from_addr, le_bytes(word)),
        },
        HookKind::Pre(from_addr) => register_step(
            p,
            info.location,
            from_addr,
            arena_of(from_addr, custom_text_address),
            Side::Before,
            address,
        ),
        HookKind::Post(from_addr) => register_step(
            p,
            info.location,
            from_addr,
            arena_of(from_addr, custom_text_address),
            Side::After,
            address,
        ),
        HookKind::Symptr(at) => write_step(p, info.location, at, le_bytes(address)),
        HookKind::Replace(_) => Err(
            MakeErrorView::Hook(info.location, HookProblemView::InvalidSymbolKind),
        ),
    }
}

/// What one symbol of the linked program does to the transaction.  A
/// symbol without a name does nothing.  Any other is indexed; then, if its
/// name has the hook prefix, the hook that it declares is carried out.
/// The address of a symbol is taken by its low 32 bits.
pub open spec fn symbol_step(
    p: PatchView,
    symbol: ElfSymbolView,
    custom_text_address: u32,
) -> Result<PatchView, MakeErrorView> {
    match symbol.name {
        None => Ok(p),
        Some(name) => {
            let address = low_word(symbol.address as int);
            let known = PatchView { symbols: indexed(p.symbols, name, address), ..p };
            if name.len() > max_token_len() {
                Err(MakeErrorView::Fatal(FatalErrorView::NameTooLong(name)))
            } else {
                match parse_symbol_name(name) {
                    Err(ErrorView::InvalidPrefix) => Ok(
                        PatchView {
                            text_end: if name == text_end_name() {
                                Some(address)
                            } else {
                                p.text_end
                            },
                            ..known
                        },
                    ),
                    Err(ErrorView::ParsingError(e, location)) => Err(
                        MakeErrorView::Hook(location, HookProblemView::Parsing(e)),
                    ),
                    Err(ErrorView::MetaParsingError(e)) => Err(
                        MakeErrorView::Fatal(FatalErrorView::SymbolHookInvalid(name, e)),
                    ),
                    Ok(info) => symbol_hook_step(known, info, address, custom_text_address),
                }
            }
        },
    }
}

/// What the symbols of the linked program do to the transaction, one after
/// the other, up to the first error.
pub open spec fn symbols_step(
    p: PatchView,
    symbols: Seq<ElfSymbolView>,
    custom_text_address: u32,
) -> Result<PatchView, MakeErrorView>
    decreases symbols.len(),
{
    if symbols.len() == 0 {
        Ok(p)
    } else {
        match symbol_step(p, symbols[0], custom_text_address) {
            Err(e) => Err(e),
            Ok(q) => symbols_step(q, symbols.drop_first(), custom_text_address),
        }
    }
}

/// Writes `data` at `address` for the hook of `location`.
pub fn write_hook(p: Patch, location: HookLocation, address: u32, data: &[u8]) -> (r: Result<
    Patch,
    MakeError,
>)
    ensures
        match r {
            Ok(q) => write_step(p@, location@, address, data@) == Ok::<PatchView, MakeErrorView>(
                q@,
            ),
            Err(e) => write_step(p@, location@, address, data@) == Err::<
                PatchView,
                MakeErrorView,
            >(e@),
        },
{
    let mut p = p;
    match p.writer.write(address, data) {
        Ok(()) => Ok(p),
        Err(e) => Err(MakeError::Hook(location, HookProblem::Write(e))),
    }
}

/// Puts a callback of the hook of `location` on one side of the instruction
/// at `from_addr`.
pub fn register_hook(
    p: Patch,
    location: HookLocation,
    from_addr: u32,
    extra_pos: HookExtraPos,
    side: Side,
    callback: u32,
) -> (r: Result<Patch, MakeError>)
    ensures
        match r {
            Ok(q) => register_step(p@, location@, from_addr, extra_pos, side, callback) == Ok::<
                PatchView,
                MakeErrorView,
            >(q@),
            Err(e) => register_step(p@, location@, from_addr, extra_pos, side, callback) == Err::<
                PatchView,
                MakeErrorView,
            >(e@),
        },
{
    let mut p = p;
    let kept = location.clone();
    if register(&mut p.entries, from_addr, extra_pos, side, (callback, location)) {
        Ok(p)
    } else {
        Err(MakeError::Hook(kept, HookProblem::ArenaConflict(from_addr)))
    }
}

/// The arena for the trampoline of a site.
pub fn arena_for(address: u32, custom_text_address: u32) -> (r: HookExtraPos)
    ensures
        r == arena_of(address, custom_text_address),
{
    if address < custom_text_address {
        HookExtraPos::Loader
    } else {
        HookExtraPos::Tail
    }
}

/// Carries out the hook that a symbol at `address` declares.
pub fn apply_symbol_hook(p: Patch, info: HookInfo, address: u32, custom_text_address: u32) -> (r:
    Result<Patch, MakeError>)
    ensures
        match r {
            Ok(q) => symbol_hook_step(p@, info@, address, custom_text_address) == Ok::<
                PatchView,
                MakeErrorView,
            >(q@),
            Err(e) => symbol_hook_step(p@, info@, address, custom_text_address) == Err::<
                PatchView,
                MakeErrorView,
            >(e@),
        },
{
    let HookInfo { kind, location, counter: _ } = info;
    match kind {
        HookKind::Branch(branch) => {
            match branch.to_u32(address) {
                None => Err(
                    MakeError::Hook(
                        location,
                        HookProblem::BranchOutOfRange(branch.from_addr, address),
                    ),
                ),
                Some(word) => {
                    let bytes = to_le_bytes(word);
                    write_hook(p, location, branch.from_addr, bytes.as_slice())
                },
            }
        },
        HookKind::Pre(from_addr) => register_hook(
            p,
            location,
            from_addr,
            arena_for(from_addr, custom_text_address),
            Side::Before,
            address,
        ),
        HookKind::Post(from_addr) => register_hook(
            p,
            location,
            from_addr,
            arena_for(from_addr, custom_text_address),
            Side::After,
            address,
        ),
        HookKind::Symptr(at) => {
            let bytes = to_le_bytes(address);
            write_hook(p, location, at, bytes.as_slice())
        },
        HookKind::Replace(_) => Err(MakeError::Hook(location, HookProblem::InvalidSymbolKind)),
    }
}

/// Indexes a symbol and carries out the hook that it declares, if it
/// declares one.
pub fn apply_symbol(p: Patch, symbol: &ElfSymbol, custom_text_address: u32) -> (r: Result<
    Patch,
    MakeError,
>)
    ensures
        match r {
            Ok(q) => symbol_step(p@, symbol@, custom_text_address) == Ok::<
                PatchView,
                MakeErrorView,
            >(q@),
            Err(e) => symbol_step(p@, symbol@, custom_text_address) == Err::<
                PatchView,
                MakeErrorView,
            >(e@),
        },
{
    let mut p = p;
    let name = match &symbol.name {
        Some(name) => name,
        None => {
            return Ok(p);
        },
    };
    let address = low_word_of(symbol.address);
    p.index_symbol(name.as_str(), address);
    if name.as_str().unicode_len() > usize::MAX / 32 {
        return Err(MakeError::Fatal(FatalError::NameTooLong(name.clone())));
    }
    match HookInfo::from_symbol_str(name.as_str()) {
        Err(Error::InvalidPrefix) => {
            if str_eq(name.as_str(), "__mw_text_end") {
                p.text_end = Some(address);
            }
            Ok(p)
        },
        Err(Error::ParsingError(e, location)) => Err(
            MakeError::Hook(location, HookProblem::Parsing(e)),
        ),
        Err(Error::MetaParsingError(e)) => Err(
            MakeError::Fatal(FatalError::SymbolHookInvalid(name.clone(), e)),
        ),
        Ok(info) => apply_symbol_hook(p, info, address, custom_text_address),
    }
}

/// Indexes the symbols of the linked program and carries out the hooks
/// that they declare, up to the first one that fails.
pub fn apply_symbols(p: Patch, symbols: &Vec<ElfSymbol>, custom_text_address: u32) -> (r: Result<
    Patch,
    MakeError,
>)
    ensures
        match r {
            Ok(q) => symbols_step(p@, symbols_view(symbols@), custom_text_address) == Ok::<
                PatchView,
                MakeErrorView,
            >(q@),
            Err(e) => symbols_step(p@, symbols_view(symbols@), custom_text_address) == Err::<
                PatchView,
                MakeErrorView,
            >(e@),
        },
{
    let ghost all = symbols_view(symbols@);
    let mut cur = p;
    let mut i: usize = 0;
    assert(all.skip(0) == all);
    while i < symbols.len()
        invariant
            i <= symbols.len(),
            all == symbols_view(symbols@),
            symbols_step(p@, all, custom_text_address) == symbols_step(
                cur@,
                all.skip(i as int),
                custom_text_address,
            ),
        decreases symbols.len() - i,
    {
        proof {
            assert(all.skip(i as int)[0] == symbols@[i as int]@);
            assert(all.skip(i as int).drop_first() == all.skip(i + 1));
        }
        cur = match apply_symbol(cur, &symbols[i], custom_text_address) {
            Ok(q) => q,
            Err(e) => {
                return Err(e);
            },
        };
        i += 1;
    }
    assert(all.skip(symbols.len() as int).len() == 0);
    Ok(cur)
}

} // verus!

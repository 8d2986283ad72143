//! What stops the patch transaction.

use vstd::prelude::*;

use super::trampoline::TrampolineError;
use crate::bytes::HexError;
use crate::hook::error::{
    MetaParsingError, MetaParsingErrorView, ParsingError, ParsingErrorView, WriterError,
};
use crate::hook::hks::{HksError, HksErrorView, HksParseError, HksParseErrorView};
use crate::hook::location::{HookLocation, HookLocationView};

verus! {

/// An error without a place in the hook sources.
#[derive(Debug, PartialEq)]
pub enum FatalError {
    /// The object file compiled from this source is no object file.
    ObjectFileInvalid(String),
    /// A section of this name, in the object of this source, has the hook
    /// prefix and a tag that lacks a field or holds one that cannot be
    /// read.
    SectionHookInvalid(String, String, MetaParsingError),
    /// A section or symbol name is longer than the path decoder takes.
    NameTooLong(String),
    /// The unpatched image does not fit between its base address and the
    /// end of the address space.
    ImageTooLarge,
    /// The linked program is no object file.
    ElfInvalid,
    /// The bytes of the hook section of this name cannot be had.
    SectionDataUnreadable(String),
    /// The hook section of this name does not go into the image.
    SectionWrite(String, WriterError),
    /// The linked program has no symbol table.
    NoSymbolTable,
    /// A symbol of this name has the hook prefix and a tag that lacks a
    /// field or holds one that cannot be read.
    SymbolHookInvalid(String, MetaParsingError),
    /// The declaration file of this path could not be read.
    HookFileUnreadable(String),
    /// The loader section takes more bytes than the arena has: its size,
    /// then the room.
    LoaderTooLarge(u32, u32),
    /// The bytes of the loader section cannot be had.
    LoaderDataUnreadable,
    /// The loader section does not go into the image.
    LoaderWrite(WriterError),
    /// The linked program has no custom text.
    NoCustomText,
    /// The bytes of the custom text cannot be had.
    CustomTextDataUnreadable,
    /// The custom text does not end within the address space.
    CustomTextTooLarge,
    /// The image cannot be made to end behind the custom text.
    CustomTextResize(WriterError),
    /// The custom text does not go into the image.
    CustomTextWrite(WriterError),
    /// No trampoline for the site at this address.
    Trampoline(u32, TrampolineError),
    /// The header does not describe a layout, or cannot take the patched
    /// image.
    HeaderInvalid,
}

/// A `FatalError` with its texts as sequences of characters.
pub enum FatalErrorView {
    ObjectFileInvalid(Seq<char>),
    SectionHookInvalid(Seq<char>, Seq<char>, MetaParsingErrorView),
    NameTooLong(Seq<char>),
    ImageTooLarge,
    ElfInvalid,
    SectionDataUnreadable(Seq<char>),
    SectionWrite(Seq<char>, WriterError),
    NoSymbolTable,
    SymbolHookInvalid(Seq<char>, MetaParsingErrorView),
    HookFileUnreadable(Seq<char>),
    LoaderTooLarge(u32, u32),
    LoaderDataUnreadable,
    LoaderWrite(WriterError),
    NoCustomText,
    CustomTextDataUnreadable,
    CustomTextTooLarge,
    CustomTextResize(WriterError),
    CustomTextWrite(WriterError),
    Trampoline(u32, TrampolineError),
    HeaderInvalid,
}

impl View for FatalError {
    type V = FatalErrorView;

    open spec fn view(&self) -> FatalErrorView {
        match self {
            FatalError::ObjectFileInvalid(s) => FatalErrorView::ObjectFileInvalid(s@),
            FatalError::SectionHookInvalid(n, s, e) => FatalErrorView::SectionHookInvalid(
                n@,
                s@,
                e@,
            ),
            FatalError::NameTooLong(n) => FatalErrorView::NameTooLong(n@),
            FatalError::ImageTooLarge => FatalErrorView::ImageTooLarge,
            FatalError::ElfInvalid => FatalErrorView::ElfInvalid,
            FatalError::SectionDataUnreadable(n) => FatalErrorView::SectionDataUnreadable(n@),
            FatalError::SectionWrite(n, e) => FatalErrorView::SectionWrite(n@, *e),
            FatalError::NoSymbolTable => FatalErrorView::NoSymbolTable,
            FatalError::SymbolHookInvalid(n, e) => FatalErrorView::SymbolHookInvalid(n@, e@),
            FatalError::HookFileUnreadable(p) => FatalErrorView::HookFileUnreadable(p@),
            FatalError::LoaderTooLarge(size, max) => FatalErrorView::LoaderTooLarge(*size, *max),
            FatalError::LoaderDataUnreadable => FatalErrorView::LoaderDataUnreadable,
            FatalError::LoaderWrite(e) => FatalErrorView::LoaderWrite(*e),
            FatalError::NoCustomText => FatalErrorView::NoCustomText,
            FatalError::CustomTextDataUnreadable => FatalErrorView::CustomTextDataUnreadable,
            FatalError::CustomTextTooLarge => FatalErrorView::CustomTextTooLarge,
            FatalError::CustomTextResize(e) => FatalErrorView::CustomTextResize(*e),
            FatalError::CustomTextWrite(e) => FatalErrorView::CustomTextWrite(*e),
            FatalError::Trampoline(a, e) => FatalErrorView::Trampoline(*a, *e),
            FatalError::HeaderInvalid => FatalErrorView::HeaderInvalid,
        }
    }
}

/// What is wrong with a hook.
#[derive(Debug, PartialEq)]
pub enum HookProblem {
    /// A section declares a hook that is no replacement.
    InvalidSectionKind,
    /// A symbol declares a replacement.
    InvalidSymbolKind,
    /// The kind or the argument of the tag cannot be read.
    Parsing(ParsingError),
    /// The declaration file breaks its format.
    File(HksError),
    /// An entry lacks a property, or holds one of the wrong type.
    Entry(HksParseError),
    /// The branch that stands at the first address does not reach the
    /// second.
    BranchOutOfRange(u32, u32),
    /// The site at this address has callbacks in both arenas.
    ArenaConflict(u32),
    /// The image does not take what the hook writes.
    Write(WriterError),
    /// No symbol of this name.
    SymbolNotFound(String),
    /// An `opcode` that is neither `pre` nor `post`.
    InvalidOpcode(String),
    /// Patch data, spaces removed, that is no list of bytes.
    InvalidPatchData(String, HexError),
    /// A `type` that names no kind of hook.
    InvalidType(String),
    /// Properties that the entry's type does not know.
    UnusedKeys(Vec<String>),
}

/// A `HookProblem` with its texts as sequences of characters; of the unused keys only which they are, not their order.
pub enum HookProblemView {
    InvalidSectionKind,
    InvalidSymbolKind,
    Parsing(ParsingErrorView),
    File(HksErrorView),
    Entry(HksParseErrorView),
    BranchOutOfRange(u32, u32),
    ArenaConflict(u32),
    Write(WriterError),
    SymbolNotFound(Seq<char>),
    InvalidOpcode(Seq<char>),
    InvalidPatchData(Seq<char>, HexError),
    InvalidType(Seq<char>),
    UnusedKeys(Set<Seq<char>>),
}

/// The texts of a list of strings.
pub open spec fn texts(list: Seq<String>) -> Set<Seq<char>> {
    Set::new(|k: Seq<char>| exists|i: int| 0 <= i < list.len() && #[trigger] list[i]@ == k)
}

impl View for HookProblem {
    type V = HookProblemView;

    open spec fn view(&self) -> HookProblemView {
        match self {
            HookProblem::InvalidSectionKind => HookProblemView::InvalidSectionKind,
            HookProblem::InvalidSymbolKind => HookProblemView::InvalidSymbolKind,
            HookProblem::Parsing(e) => HookProblemView::Parsing(e@),
            HookProblem::File(e) => HookProblemView::File(e@),
            HookProblem::Entry(e) => HookProblemView::Entry(e@),
            HookProblem::BranchOutOfRange(a, b) => HookProblemView::BranchOutOfRange(*a, *b),
            HookProblem::ArenaConflict(a) => HookProblemView::ArenaConflict(*a),
            HookProblem::Write(e) => HookProblemView::Write(*e),
            HookProblem::SymbolNotFound(s) => HookProblemView::SymbolNotFound(s@),
            HookProblem::InvalidOpcode(s) => HookProblemView::InvalidOpcode(s@),
            HookProblem::InvalidPatchData(s, e) => HookProblemView::InvalidPatchData(s@, *e),
            HookProblem::InvalidType(s) => HookProblemView::InvalidType(s@),
            HookProblem::UnusedKeys(keys) => HookProblemView::UnusedKeys(texts(keys@)),
        }
    }
}

/// Why the transaction stopped.
#[derive(Debug, PartialEq)]
pub enum MakeError {
    Fatal(FatalError),
    /// A problem with the hook declared at this location.
    Hook(HookLocation, HookProblem),
}

/// A `MakeError` with its parts as views.
pub enum MakeErrorView {
    Fatal(FatalErrorView),
    Hook(HookLocationView, HookProblemView),
}

impl View for MakeError {
    type V = MakeErrorView;

    open spec fn view(&self) -> MakeErrorView {
        match self {
            MakeError::Fatal(e) => MakeErrorView::Fatal(e@),
            MakeError::Hook(l, p) => MakeErrorView::Hook(l@, p@),
        }
    }
}

} // verus!

use vstd::prelude::*;

use super::location::{HookLocation, HookLocationView};
use super::symbol_safe::DecodeError;

verus! {

/// A hook tag that lacks a field or holds one that cannot be read.
#[derive(Debug, PartialEq)]
pub enum MetaParsingError {
    MissingKind,
    MissingArgument,
    MissingFile,
    MissingLine,
    MissingCounter,
    InvalidFile(DecodeError),
    InvalidLine(String),
    InvalidCounter(String),
}

/// A `MetaParsingError` with its texts as sequences of characters.
pub enum MetaParsingErrorView {
    MissingKind,
    MissingArgument,
    MissingFile,
    MissingLine,
    MissingCounter,
    InvalidFile(DecodeError),
    InvalidLine(Seq<char>),
    InvalidCounter(Seq<char>),
}

impl View for MetaParsingError {
    type V = MetaParsingErrorView;

    open spec fn view(&self) -> MetaParsingErrorView {
        match self {
            MetaParsingError::MissingKind => MetaParsingErrorView::MissingKind,
            MetaParsingError::MissingArgument => MetaParsingErrorView::MissingArgument,
            MetaParsingError::MissingFile => MetaParsingErrorView::MissingFile,
            MetaParsingError::MissingLine => MetaParsingErrorView::MissingLine,
            MetaParsingError::MissingCounter => MetaParsingErrorView::MissingCounter,
            MetaParsingError::InvalidFile(e) => MetaParsingErrorView::InvalidFile(*e),
            MetaParsingError::InvalidLine(s) => MetaParsingErrorView::InvalidLine(s@),
            MetaParsingError::InvalidCounter(s) => MetaParsingErrorView::InvalidCounter(s@),
        }
    }
}

/// A kind or argument field that cannot be read; each variant quotes the
/// text that was refused.
#[derive(Debug, PartialEq)]
pub enum ParsingError {
    InvalidKind(String),
    InvalidAddress(String),
    InvalidBranch(String),
    InvalidCondition(String),
}

/// A `ParsingError` with its text as a sequence of characters.
pub enum ParsingErrorView {
    InvalidKind(Seq<char>),
    InvalidAddress(Seq<char>),
    InvalidBranch(Seq<char>),
    InvalidCondition(Seq<char>),
}

impl View for ParsingError {
    type V = ParsingErrorView;

    open spec fn view(&self) -> ParsingErrorView {
        match self {
            ParsingError::InvalidKind(s) => ParsingErrorView::InvalidKind(s@),
            ParsingError::InvalidAddress(s) => ParsingErrorView::InvalidAddress(s@),
            ParsingError::InvalidBranch(s) => ParsingErrorView::InvalidBranch(s@),
            ParsingError::InvalidCondition(s) => ParsingErrorView::InvalidCondition(s@),
        }
    }
}

/// What the patch writer refuses.
#[derive(Debug, PartialEq, Eq, Clone, Copy, Structural)]
pub enum WriterError {
    OutOfBoundsRead(u32, usize),
    OutOfBoundsWrite(u32, usize),
    ResizeBelowBaseAddress(u32),
    LoaderExtraAddressNotSet,
    DuplicateWrite(u32, usize),
}

/// Why a section or symbol name is no hook.
#[derive(Debug, PartialEq)]
pub enum Error {
    InvalidPrefix,
    MetaParsingError(MetaParsingError),
    ParsingError(ParsingError, HookLocation),
}

/// An `Error` with its texts as sequences of characters.
pub enum ErrorView {
    InvalidPrefix,
    MetaParsingError(MetaParsingErrorView),
    ParsingError(ParsingErrorView, HookLocationView),
}

impl View for Error {
    type V = ErrorView;

    open spec fn view(&self) -> ErrorView {
        match self {
            Error::InvalidPrefix => ErrorView::InvalidPrefix,
            Error::MetaParsingError(e) => ErrorView::MetaParsingError(e@),
            Error::ParsingError(e, l) => ErrorView::ParsingError(e@, l@),
        }
    }
}

} // verus!

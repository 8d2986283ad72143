//! Hook metadata, the patch writer and the ARM encoder.

pub mod arm;
pub mod error;
pub mod hks;
pub mod info;
pub mod kind;
pub mod location;
pub mod meta;
pub mod symbol_safe;
pub mod util;
pub mod writer;

pub use error::{Error, MetaParsingError, ParsingError, WriterError};
pub use info::HookInfo;
pub use kind::HookKind;
pub use location::HookLocation;
pub use meta::HookMeta;
pub use writer::{HookExtraPos, HookWriter};

//! The patch transaction: what the section and symbol names of the
//! compiled hooks and the declaration files ask for is written into the
//! image, trampolines are built for the pre and post hooks, and the header
//! is rewritten for the image that results.

pub mod elf;
pub mod error;
pub mod hooks;
pub mod patch;
pub mod prepost;
pub mod run;
pub mod script;
pub mod sections;
pub mod trampoline;

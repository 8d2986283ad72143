//! Splices compiled hooks into a program image for a 3DS-style ARM target.

pub mod bytes;
pub mod exheader;
pub mod hook;
pub mod jobs;
pub mod make;
pub mod text;
pub mod worker_pool;

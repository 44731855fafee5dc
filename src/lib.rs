//! A single-file script runner: infers the external libraries a compiled
//! source file imports, merges them into a build manifest, and decides how a
//! file is run from its extension.

pub mod imports;
pub mod error;
pub mod source;
pub mod manifest;
pub mod runner;

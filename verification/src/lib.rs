//! Module loading, version negotiation and lifecycle management for
//! dynamically loadable native code units: a reference-counted registry of
//! loaded modules, the pipe-delimited metadata protocol embedded in module
//! binaries, the dependency and feature compatibility engine that guards
//! ABI identity, and the streaming scanner that locates a descriptor
//! inside an opened file. Around the loader stand verified helpers for
//! system paths, file visibility, terminal line editing and build-time
//! glue generation.
//!
//! Everything the operating system must perform — opening libraries,
//! resolving and invoking symbols, reading files and environments — stays
//! outside this crate: callers hand plain values in and carry the decided
//! actions out.

pub mod assets;
pub mod assoc;
pub mod buildtool;
pub mod cpu;
pub mod dirs;
pub mod editor;
pub mod fs;
pub mod deps;
pub mod loader;
pub mod metadata;
pub mod scan;
pub mod error;
pub mod strutil;
pub mod time;
pub mod url;

use vstd::prelude::*;

verus! {

/// The file extension of a loadable module on this platform.
pub fn module_ext() -> (r: String)
    ensures
        r@ == "so"@,
{
    String::from_str("so")
}

} // verus!


//! Run-time loading of files located relative to a source file.
//!
//! The library mirrors the shape of a compile-time "embed this file"
//! directive, but reads the file when the call runs instead of when the
//! program is built.  It has two halves:
//!
//! * a path resolver, which turns the path of the invoking source file and a
//!   caller-supplied relative path into a concrete file-system path, and
//! * a leaking loader, which takes the bytes read from that path and hands
//!   back a reference that stays valid for the rest of the program, at the
//!   deliberate cost of never freeing the buffer.
//!
//! File input itself is left to the embedding program: the functions here
//! work on plain strings and byte vectors, so every path computation, the
//! UTF-8 layering, and the diagnostic message format are verified.

pub mod diag;
pub mod errors;
pub mod loader;
pub mod path;

pub use diag::format_diagnostic;
pub use errors::LoadError;
pub use loader::load_file_bytes;
pub use loader::load_file_str;
pub use path::resolve_path;

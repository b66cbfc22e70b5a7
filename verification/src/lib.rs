//! Interactive regular-expression highlighting and diagnostics engine.
//!
//! The library turns a raw pattern string into a parsed syntax tree or a
//! structured parse error, a compiled matcher or a structured compile error,
//! a per-byte style overlay for the pattern text, a per-byte style overlay
//! for a subject text, and line/column error markers.

pub mod ast;
pub mod compile;
pub mod extern_spec;
pub mod compose;
pub mod highlight;
pub mod locate;
pub mod log_buf;
pub mod painter;
pub mod parse;
pub mod session;
pub mod style;

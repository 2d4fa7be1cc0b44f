//! Resolution of translated messages with locale fallback and inline
//! terminal styling.
//!
//! The library parses POSIX-style locale strings, ranks candidate
//! translation file names, walks a dotted message key through a nested
//! translation document (retrying with the document's fallback locale when
//! a key is missing), substitutes named arguments into the resolved
//! template, and compiles an inline `(ansi ...)` styling markup into
//! styled runs rendered with terminal escape codes.

pub mod ansi;
pub mod colors;
pub mod document;
pub mod errors;
pub mod markup;
pub mod message_key;
pub mod posix_language;
pub mod resolver;
pub mod strutil;
pub mod substitute;

pub use errors::TranslateError;

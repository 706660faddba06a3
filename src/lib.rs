//! Constructor generation for annotated type declarations.
//!
//! A declaration (struct, enum or union) is handed over as plain values: its
//! fields, their types and the `ctor` attributes attached to it, each as a flat
//! token sequence. The library parses the directive language, decides for every
//! field and every requested constructor how the field gets its value, and
//! returns the resulting constructor plan, or the diagnostic that replaces it.

pub mod token;
pub mod names;
pub mod error;
pub mod field;
pub mod config;
pub mod plan;
pub mod enums;
pub mod laws;

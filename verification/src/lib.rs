//! A verified reader for JVM class files.
//!
//! The crate decodes the binary class-file layout (constant pool, access
//! flags, fields, methods, attributes), parses the descriptor and generic
//! signature mini-languages, and extracts a language-level summary of each
//! compiled unit.

pub mod class;
pub mod class_file;
pub mod component;
pub mod descriptor;
pub mod error;
pub mod signature;

//! Audit of installed binary crates for broken dynamic-library links.
//!
//! After an upgrade of the compiler, binaries that were installed earlier may miss the
//! shared libraries they were linked against. This library holds the logic of the
//! audit, free of input and output: it decodes the manifest of installed crates
//! (`parse`), reads what the inspection of a binary printed and decides which crates
//! need a rebuild (`audit`), and derives the arguments that install a broken crate
//! again from where it came (`audit`). The caller reads the manifest, runs the
//! inspections and the installer, and prints.
//!
//! `text` holds the scanning of text that the rest is built on, `text_lemmas` facts
//! about it, and `line_format` states how a line of the manifest is written and
//! proves that decoding gives back what was written.

pub mod audit;
pub mod check_external_cmds;
pub mod errors;
pub mod line_format;
pub mod parse;
pub mod text;
pub mod text_lemmas;

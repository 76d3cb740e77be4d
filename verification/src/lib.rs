//! Core of a managed-file decompression tool.
//!
//! Two components make up the library. The configuration merger
//! ([`cfg`]) builds one effective configuration out of up to three layers —
//! an explicit file, a project-root file, and a complete built-in default —
//! merged field by field with explicit-over-root-over-default precedence.
//! The format resolver and invocation protocol ([`file_archiver`]) match a
//! file name's dot-suffixes against the configured format table, longest
//! suffix first, and classify the life cycle of the external decompression
//! command that a caller launches for the resolved format.
//!
//! The library performs no I/O itself: reading configuration files, walking
//! directories, and spawning child processes belong to the surrounding
//! program, which feeds results back as plain values.

pub mod cfg;
pub mod file_archiver;
pub mod text;

//! A column-oriented line filter.
//!
//! Given one input source — a plain file, a compressed file, or a tar archive
//! whose members are plain or compressed files — the library streams each
//! logical input file line by line, splits each line on a configurable
//! delimiter, extracts one column by index, and emits the whole line unchanged
//! when that column matches either a regular expression or membership in a
//! fixed set of literal values.
//!
//! File handling stays outside: the library takes the raw input bytes and
//! hands back the emitted lines, together with the error that stopped the
//! run, if one did.

pub mod archive;
pub mod compress;
pub mod config;
pub mod errors;
pub mod infer;
pub mod lines;
pub mod matcher;
pub mod pattern;
pub mod pipeline;
pub mod predicate;
pub mod split;
pub mod text;

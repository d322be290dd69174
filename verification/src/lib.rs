//! Project snapshots: choose the files of a directory tree by include
//! patterns, list them, and lay their contents out as one document.
//!
//! The library computes; it reads and writes nothing. A program that uses
//! it walks the tree and hands what the walk reported to
//! [`collector::collect_files`], reads the files selected, and has
//! [`formatter::build_tree_and_content`] and [`writer::write_project_md`]
//! lay out the document that it then writes. [`config::resolve`] combines
//! the command line with the configuration file, and [`init::run`] decides
//! what scaffolding writes.
//!
//! An include pattern is a glob, matched against the path relative to the
//! root by the `glob` crate: `*` and `?` stay within one path segment, `**`
//! spans segments. A pattern without any wildcard also selects every file
//! whose base name it is, at any depth. No pattern at all selects every
//! file.

use vstd::prelude::*;

pub mod collector;
pub mod config;
pub mod formatter;
pub mod init;
pub mod pattern;
pub mod search;
pub mod text;
pub mod writer;

verus! {

/// `std::path::PathBuf`, carried through as it is: nothing is said of what
/// a path holds.
#[verifier::external_type_specification]
#[verifier::external_body]
pub struct ExPathBuf(std::path::PathBuf);

/// What the program can be asked to do.
pub enum Commands {
    /// Write the default configuration file and skip file.
    Init {
        /// Overwrite files that exist.
        force: bool,
    },
    /// Write the snapshot document.
    Run {
        /// The file to write the document to.
        output: std::path::PathBuf,
        /// Text to put before the document.
        top: Option<String>,
        /// Text to put after the document.
        down: Option<String>,
        /// The include patterns; none leaves the choice to the
        /// configuration file.
        files: Vec<String>,
        /// The configuration file to read.
        config: std::path::PathBuf,
    },
}

} // verus!

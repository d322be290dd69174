//! The configuration file's contents, and how they combine with what the
//! command line gave.

use vstd::prelude::*;
use crate::text::text_of;

verus! {

/// A block of free text.
#[derive(Debug)]
pub struct Content {
    pub text: String,
}

/// The include patterns of the configuration file.
#[derive(Debug)]
pub struct Files {
    pub patterns: Vec<String>,
}

/// What the configuration file holds; every part may be missing.
#[derive(Debug)]
pub struct Config {
    pub top: Option<Content>,
    pub down: Option<Content>,
    pub files: Option<Files>,
}

impl Default for Config {
    /// The configuration of a missing file: nothing is set.
    fn default() -> (config: Config)
        ensures
            config.top is None,
            config.down is None,
            config.files is None,
    {
        Config { top: None, down: None, files: None }
    }
}

/// What a run works with, once command line and configuration are combined.
#[derive(Debug)]
pub struct Settings {
    /// Text to put before the document, if any.
    pub top: Option<String>,
    /// Text to put after the document, if any.
    pub down: Option<String>,
    /// The include patterns.
    pub files: Vec<String>,
}

/// The text of an optional block of the configuration.
pub open spec fn block_text(block: Option<Content>) -> Option<Seq<char>> {
    match block {
        Some(content) => Some(content.text@),
        None => None,
    }
}

/// A value of the command line, or else that of the configuration.
pub open spec fn first_of(
    given: Option<Seq<char>>,
    configured: Option<Seq<char>>,
) -> Option<Seq<char>> {
    if given is Some {
        given
    } else {
        configured
    }
}

/// The include patterns of a run: those of the command line unless it gave
/// none, then those of the configuration, then none at all.
pub open spec fn patterns_of(given: Seq<Seq<char>>, configured: Option<Files>) -> Seq<Seq<char>> {
    if given.len() > 0 {
        given
    } else {
        match configured {
            Some(files) => files.patterns.deep_view(),
            None => Seq::empty(),
        }
    }
}

/// Combines the command line with the configuration: each text of the
/// command line wins over the configured one, and the configured patterns
/// are used only where the command line names no pattern.
pub fn resolve(
    top: Option<String>,
    down: Option<String>,
    files: Vec<String>,
    config: Config,
) -> (s: Settings)
    ensures
        text_of(s.top) == first_of(text_of(top), block_text(config.top)),
        text_of(s.down) == first_of(text_of(down), block_text(config.down)),
        s.files.deep_view() == patterns_of(files.deep_view(), config.files),
{
    let Config { top: config_top, down: config_down, files: config_files } = config;
    let top = match top {
        Some(text) => Some(text),
        None => match config_top {
            Some(content) => Some(content.text),
            None => None,
        },
    };
    let down = match down {
        Some(text) => Some(text),
        None => match config_down {
            Some(content) => Some(content.text),
            None => None,
        },
    };
    let files = if files.len() > 0 {
        files
    } else {
        match config_files {
            Some(configured) => configured.patterns,
            None => Vec::new(),
        }
    };
    Settings { top, down, files }
}

} // verus!

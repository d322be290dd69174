//! Scaffolding: the default configuration file and skip file, and the
//! decision which of them to write.

use vstd::prelude::*;
use crate::text::text_of;

verus! {

/// The skip file that is written where none exists.
pub const DEFAULT_GPSKIP_CONTENT: &'static str =
    "\n.git/\n.vscode/\n.idea/\ntarget/\nbuild/\ndist/\nnode_modules/\n*.log\n*.tmp\n*.swp\n*.bak\n.DS_Store\nThumbs.db\n";

/// The configuration file that is written where none exists.
pub const DEFAULT_GINPEE_TOML_CONTENT: &'static str =
    "\n[top]\ntext = \"\"\n\n[down]\ntext = \"\"\n\n[files]\ninclude = []\n";

/// The name of the configuration file.
pub const CONFIG_FILE_NAME: &'static str = "ginpee.toml";

/// The name of the skip file.
pub const SKIP_FILE_NAME: &'static str = ".gpskip";

/// What scaffolding does: the files to write, and what to say about it.
#[derive(Debug)]
pub struct InitPlan {
    /// The text to write to the configuration file, or `None` to leave the
    /// file as it is.
    pub toml: Option<String>,
    /// The text to write to the skip file, or `None` to leave the file as
    /// it is.
    pub gpskip: Option<String>,
    /// The lines to print, in order.
    pub messages: Vec<String>,
    /// How many files are written.
    pub created: usize,
}

/// A file is written where it does not exist yet, or where overwriting is
/// forced.
pub open spec fn is_written(present: bool, force: bool) -> bool {
    !present || force
}

/// The text of a new skip file: the default rules, followed by the rules
/// of the version-control ignore file where there is one.
pub open spec fn skip_text(gitignore: Option<Seq<char>>) -> Seq<char> {
    match gitignore {
        Some(rules) => DEFAULT_GPSKIP_CONTENT@ + rules,
        None => DEFAULT_GPSKIP_CONTENT@,
    }
}

/// How many of the two files are written.
pub open spec fn created_count(force: bool, toml_exists: bool, gpskip_exists: bool) -> int {
    (if is_written(toml_exists, force) {
        1int
    } else {
        0int
    }) + (if is_written(gpskip_exists, force) {
        1int
    } else {
        0int
    })
}

/// The line that gives the number of files written.
pub open spec fn total_line(created: int) -> Seq<char> {
    if created == 0 {
        "Total files created: 0"@
    } else if created == 1 {
        "Total files created: 1"@
    } else {
        "Total files created: 2"@
    }
}

/// The lines to print: one per file, the total, and a hint where nothing
/// was written.
pub open spec fn report(force: bool, toml_exists: bool, gpskip_exists: bool) -> Seq<Seq<char>> {
    let lines = seq![
        if is_written(toml_exists, force) {
            "Created ginpee.toml"@
        } else {
            "ginpee.toml already exists. Use --force to overwrite."@
        },
        if is_written(gpskip_exists, force) {
            "Created .gpskip"@
        } else {
            ".gpskip already exists. Use --force to overwrite."@
        },
        total_line(created_count(force, toml_exists, gpskip_exists)),
    ];
    if created_count(force, toml_exists, gpskip_exists) == 0 {
        lines.push("Nothing to create. Use --force to overwrite existing files."@)
    } else {
        lines
    }
}

/// Decides what scaffolding writes. Each of the two files is written where
/// it does not exist or `force` is set: the configuration file with its
/// default text, the skip file with the default rules followed by
/// `gitignore`, the text of the version-control ignore file if there is one.
pub fn run(
    force: bool,
    toml_exists: bool,
    gpskip_exists: bool,
    gitignore: Option<String>,
) -> (plan: InitPlan)
    ensures
        text_of(plan.toml) == (if is_written(toml_exists, force) {
            Some(DEFAULT_GINPEE_TOML_CONTENT@)
        } else {
            None
        }),
        text_of(plan.gpskip) == (if is_written(gpskip_exists, force) {
            Some(skip_text(text_of(gitignore)))
        } else {
            None
        }),
        plan.created == created_count(force, toml_exists, gpskip_exists),
        plan.messages.deep_view() == report(force, toml_exists, gpskip_exists),
{
    let write_toml = !toml_exists || force;
    let write_gpskip = !gpskip_exists || force;
    let mut messages: Vec<String> = Vec::new();
    let mut created: usize = 0;

    let mut toml: Option<String> = None;
    if write_toml {
        toml = Some(DEFAULT_GINPEE_TOML_CONTENT.to_owned());
        messages.push("Created ginpee.toml".to_owned());
        created += 1;
    } else {
        messages.push("ginpee.toml already exists. Use --force to overwrite.".to_owned());
    }

    let mut gpskip: Option<String> = None;
    if write_gpskip {
        let mut text = DEFAULT_GPSKIP_CONTENT.to_owned();
        if let Some(rules) = &gitignore {
            text.append(rules.as_str());
        }
        gpskip = Some(text);
        messages.push("Created .gpskip".to_owned());
        created += 1;
    } else {
        messages.push(".gpskip already exists. Use --force to overwrite.".to_owned());
    }

    if created == 0 {
        messages.push("Total files created: 0".to_owned());
        messages.push("Nothing to create. Use --force to overwrite existing files.".to_owned());
    } else if created == 1 {
        messages.push("Total files created: 1".to_owned());
    } else {
        messages.push("Total files created: 2".to_owned());
    }
    assert(messages.deep_view() =~= report(force, toml_exists, gpskip_exists));
    InitPlan { toml, gpskip, messages, created }
}

} // verus!

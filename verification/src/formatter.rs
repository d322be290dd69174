//! The listing of the selected files and their contents, as the document
//! shows them.

use vstd::prelude::*;
use crate::text::chars_of;

verus! {

/// A file of the snapshot: its path relative to the root, and its text.
#[derive(Debug)]
pub struct FileContent {
    pub path: String,
    pub content: String,
}

/// A path as the document shows it: every backslash becomes a slash.
pub open spec fn display_path(path: Seq<char>) -> Seq<char> {
    path.map_values(
        |c: char|
            if c == '\\' {
                '/'
            } else {
                c
            },
    )
}

/// The listing: the displayed path of each file, one per line.
pub open spec fn tree_of(files: Seq<FileContent>) -> Seq<char>
    decreases files.len(),
{
    if files.len() == 0 {
        Seq::empty()
    } else {
        tree_of(files.drop_last()) + display_path(files.last().path@).push('\n')
    }
}

/// The displayed form of `path`.
pub fn displayed(path: &str) -> (shown: String)
    ensures
        shown@ == display_path(path@),
{
    let chars = chars_of(path);
    let mut shown = String::new();
    let mut i: usize = 0;
    while i < chars.len()
        invariant
            i <= chars.len(),
            chars@ == path@,
            shown@ == display_path(path@.take(i as int)),
        decreases chars.len() - i,
    {
        let c = chars[i];
        if c == '\\' {
            shown.push('/');
        } else {
            shown.push(c);
        }
        assert(shown@ =~= display_path(path@.take(i + 1)));
        i += 1;
    }
    assert(path@.take(i as int) =~= path@);
    shown
}

/// Builds the listing and the content blocks of the files given, in their
/// order. Each block keeps the file's text and shows its path with slashes.
pub fn build_tree_and_content(files: &[FileContent]) -> (r: (String, Vec<FileContent>))
    ensures
        r.0@ == tree_of(files@),
        r.1@.len() == files@.len(),
        forall|i: int|
            0 <= i < files@.len() ==> (#[trigger] r.1@[i]).path@ == display_path(files@[i].path@)
                && r.1@[i].content@ == files@[i].content@,
{
    let mut tree = String::new();
    let mut contents: Vec<FileContent> = Vec::new();
    let mut i: usize = 0;
    while i < files.len()
        invariant
            i <= files.len(),
            tree@ == tree_of(files@.take(i as int)),
            contents@.len() == i,
            forall|j: int|
                0 <= j < i ==> (#[trigger] contents@[j]).path@ == display_path(files@[j].path@)
                    && contents@[j].content@ == files@[j].content@,
        decreases files.len() - i,
    {
        let shown = displayed(files[i].path.as_str());
        tree.append(shown.as_str());
        tree.push('\n');
        assert(files@.take(i + 1).drop_last() =~= files@.take(i as int));
        assert(tree@ =~= tree_of(files@.take(i + 1)));
        contents.push(FileContent { path: shown, content: files[i].content.clone() });
        i += 1;
    }
    assert(files@.take(i as int) =~= files@);
    (tree, contents)
}

} // verus!

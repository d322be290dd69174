//! The text of the snapshot document.

use vstd::prelude::*;
use crate::formatter::FileContent;
use crate::text::text_of;

verus! {

/// A text given on the outside of the document, with what follows it: a
/// line break. Nothing where no text is given.
pub open spec fn top_part(top: Option<Seq<char>>) -> Seq<char> {
    match top {
        Some(text) => text + "\n"@,
        None => Seq::empty(),
    }
}

/// The closing text: an empty line, the text, a line break. Nothing where
/// no text is given.
pub open spec fn down_part(down: Option<Seq<char>>) -> Seq<char> {
    match down {
        Some(text) => "\n"@ + text + "\n"@,
        None => Seq::empty(),
    }
}

/// The heading and the fenced listing.
pub open spec fn structure_part(tree: Seq<char>) -> Seq<char> {
    "# Project Structure\n\n"@ + "```\n"@ + tree + "\n```\n"@
}

/// The block of one file: a heading with its path, and its text in a fence.
pub open spec fn file_part(path: Seq<char>, content: Seq<char>) -> Seq<char> {
    "\n## File: `"@ + path + "`\n\n"@ + "```\n"@ + content + "\n"@ + "```\n"@
}

/// The blocks of all files, in order.
pub open spec fn files_part(contents: Seq<FileContent>) -> Seq<char>
    decreases contents.len(),
{
    if contents.len() == 0 {
        Seq::empty()
    } else {
        files_part(contents.drop_last()) + file_part(
            contents.last().path@,
            contents.last().content@,
        )
    }
}

/// The whole document.
pub open spec fn document(
    top: Option<Seq<char>>,
    tree: Seq<char>,
    contents: Seq<FileContent>,
    down: Option<Seq<char>>,
) -> Seq<char> {
    top_part(top) + structure_part(tree) + files_part(contents) + down_part(down)
}

/// Lays the document out: the opening text if there is one, the heading
/// and the listing in a fence, one block per file, and the closing text if
/// there is one.
pub fn write_project_md(
    top: Option<String>,
    tree: &str,
    contents: &[FileContent],
    down: Option<String>,
) -> (text: String)
    ensures
        text@ == document(text_of(top), tree@, contents@, text_of(down)),
{
    let mut text = String::new();
    if let Some(opening) = &top {
        text.append(opening.as_str());
        text.append("\n");
    }
    assert(text@ =~= top_part(text_of(top)));
    text.append("# Project Structure\n\n");
    text.append("```\n");
    text.append(tree);
    text.append("\n```\n");
    assert(text@ =~= top_part(text_of(top)) + structure_part(tree@));
    let ghost head = text@;
    let mut i: usize = 0;
    while i < contents.len()
        invariant
            i <= contents.len(),
            text@ == head + files_part(contents@.take(i as int)),
        decreases contents.len() - i,
    {
        let ghost before = text@;
        text.append("\n## File: `");
        text.append(contents[i].path.as_str());
        text.append("`\n\n");
        text.append("```\n");
        text.append(contents[i].content.as_str());
        text.append("\n");
        text.append("```\n");
        assert(contents@.take(i + 1).drop_last() =~= contents@.take(i as int));
        assert(text@ =~= before + file_part(contents@[i as int].path@, contents@[i as int].content@));
        assert(text@ =~= head + files_part(contents@.take(i + 1)));
        i += 1;
    }
    assert(contents@.take(i as int) =~= contents@);
    let ghost body = text@;
    if let Some(closing) = &down {
        text.append("\n");
        text.append(closing.as_str());
        text.append("\n");
    }
    assert(text@ =~= body + down_part(text_of(down)));
    text
}

} // verus!

//! The delimited text blocks that carry each selected file and the tree.
use vstd::prelude::*;

use crate::text::append_str;

verus! {

/// The line that opens the block of `path` under `label`.
pub open spec fn begin_line(label: Seq<char>, path: Seq<char>) -> Seq<char> {
    "===== BEGIN "@ + label + "/"@ + path + " =====\n"@
}

/// What closes the block of `path` under `label`: the closing line and two
/// blank lines. It follows the content directly.
pub open spec fn end_lines(label: Seq<char>, path: Seq<char>) -> Seq<char> {
    "===== END "@ + label + "/"@ + path + " =====\n\n\n"@
}

/// The block of one file: its content, unchanged, between the two markers.
pub open spec fn file_block_text(label: Seq<char>, path: Seq<char>, content: Seq<char>) -> Seq<
    char,
> {
    begin_line(label, path) + content + end_lines(label, path)
}

/// The block of the rendered tree.
pub open spec fn tree_block_text(tree: Seq<char>) -> Seq<char> {
    "===== BEGIN TREE =====\n"@ + tree + "===== END TREE =====\n\n\n"@
}

/// The block of the file `path` with content `content`, under `label`.
pub fn file_block(label: &str, path: &str, content: &str) -> (r: String)
    ensures
        r@ == file_block_text(label@, path@, content@),
{
    let mut r = String::new();
    append_str(&mut r, "===== BEGIN ");
    append_str(&mut r, label);
    append_str(&mut r, "/");
    append_str(&mut r, path);
    append_str(&mut r, " =====\n");
    append_str(&mut r, content);
    append_str(&mut r, "===== END ");
    append_str(&mut r, label);
    append_str(&mut r, "/");
    append_str(&mut r, path);
    append_str(&mut r, " =====\n\n\n");
    assert(r@ =~= file_block_text(label@, path@, content@));
    r
}

/// The block of the rendered tree `tree`.
pub fn tree_block(tree: &str) -> (r: String)
    ensures
        r@ == tree_block_text(tree@),
{
    let mut r = String::new();
    append_str(&mut r, "===== BEGIN TREE =====\n");
    append_str(&mut r, tree);
    append_str(&mut r, "===== END TREE =====\n\n\n");
    assert(r@ =~= tree_block_text(tree@));
    r
}

/// A selected file and its content as text, or `None` where it could not be
/// read as text.
pub struct SourceFile {
    pub path: String,
    pub content: Option<String>,
}

/// The blocks of the readable files of `fs`, in order; unreadable files are
/// left out.
pub open spec fn code_text(label: Seq<char>, fs: Seq<SourceFile>) -> Seq<char>
    decreases fs.len(),
{
    if fs.len() == 0 {
        seq![]
    } else {
        code_text(label, fs.drop_last()) + match fs.last().content {
            Some(c) => file_block_text(label, fs.last().path@, c@),
            None => seq![],
        }
    }
}

/// The text of all file blocks of `files`, under `label`.
pub fn render_code(label: &str, files: &Vec<SourceFile>) -> (r: String)
    ensures
        r@ == code_text(label@, files@),
{
    let mut r = String::new();
    let mut i: usize = 0;
    while i < files.len()
        invariant
            i <= files@.len(),
            r@ == code_text(label@, files@.take(i as int)),
        decreases files@.len() - i,
    {
        assert(files@.take(i + 1).drop_last() =~= files@.take(i as int));
        assert(files@.take(i + 1).last() == files@[i as int]);
        let f = &files[i];
        match &f.content {
            Some(c) => {
                let b = file_block(label, f.path.as_str(), c.as_str());
                append_str(&mut r, b.as_str());
            },
            None => {},
        }
        assert(r@ =~= code_text(label@, files@.take(i + 1)));
        i = i + 1;
    }
    assert(files@.take(i as int) =~= files@);
    r
}

} // verus!

//! What surrounds the editing of a text in the user's editor: which editors
//! to try, what to call the file that the editor opens, and whether the
//! editor changed anything.

use vstd::prelude::*;
use crate::templates::extension_text;
use crate::text::{opt_view, views};

verus! {

/// The name of the file that the editor opens for a text that comes from
/// `source_file_path`: `script`, with the extension of that path, so that
/// the editor knows the language.
pub open spec fn editor_file_name_of(source_file_path: Seq<char>) -> Seq<char> {
    "script"@ + extension_text(source_file_path)
}

/// The name of the file that the editor opens.
pub fn editor_file_name(source_file_path: &str) -> (r: String)
    ensures
        r@ == editor_file_name_of(source_file_path@),
{
    let mut name = String::from_str("script");
    let ext = crate::templates::filename_extension(source_file_path);
    name.append(ext.as_str());
    name
}

/// The editors to try, in order: what the user's `VISUAL` and `EDITOR`
/// name, where they name any, and then `vim` and `vi`.
pub open spec fn editors_of(visual: Option<Seq<char>>, editor: Option<Seq<char>>) -> Seq<Seq<char>> {
    (match visual {
        Some(v) => seq![v],
        None => Seq::empty(),
    }) + (match editor {
        Some(e) => seq![e],
        None => Seq::empty(),
    }) + seq!["vim"@, "vi"@]
}

/// The editors to try, in order.
pub fn editor_candidates(visual: Option<String>, editor: Option<String>) -> (r: Vec<String>)
    ensures
        views(r@) == editors_of(opt_view(visual), opt_view(editor)),
{
    let mut r: Vec<String> = Vec::new();
    match visual {
        Some(v) => {
            r.push(v);
        },
        None => {},
    }
    match editor {
        Some(e) => {
            r.push(e);
        },
        None => {},
    }
    r.push(String::from_str("vim"));
    r.push(String::from_str("vi"));
    assert(views(r@) =~= editors_of(opt_view(visual), opt_view(editor)));
    r
}

/// What an edit gives: the text that the editor left, if it is not the text
/// that it began with.
pub fn edit(content: &str, content_after_editor: String) -> (r: Option<String>)
    ensures
        opt_view(r) == (if content_after_editor@ == content@ {
            None
        } else {
            Some(content_after_editor@)
        }),
{
    if crate::text::str_eq(content_after_editor.as_str(), content) {
        None
    } else {
        Some(content_after_editor)
    }
}

} // verus!

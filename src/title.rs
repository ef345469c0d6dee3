use vstd::prelude::*;

use crate::registry::opt_view;

verus! {

/// The name shown for a document: its file name, or `Untitled`.
pub open spec fn display_name(name: Option<Seq<char>>) -> Seq<char> {
    match name {
        Some(n) => n,
        None => "Untitled"@,
    }
}

/// A window title: a dot when there are unsaved changes, the document's
/// name, and the application's name.
pub open spec fn title_text(name: Option<Seq<char>>, unsaved: bool) -> Seq<char> {
    let mark = if unsaved {
        "● "@
    } else {
        Seq::<char>::empty()
    };
    mark + display_name(name) + "  -  Logical Node 3"@
}

/// The display name for an optional file name.
pub fn display_file_name(name: Option<String>) -> (r: String)
    ensures
        r@ == display_name(opt_view(name)),
{
    match name {
        Some(n) => n,
        None => String::from_str("Untitled"),
    }
}

/// The title of a window showing `file_name`.
pub fn window_title(file_name: Option<String>, has_unsaved_changes: bool) -> (r: String)
    ensures
        r@ == title_text(opt_view(file_name), has_unsaved_changes),
{
    let mut t = if has_unsaved_changes {
        String::from_str("● ")
    } else {
        String::new()
    };
    let name = display_file_name(file_name);
    t.append(name.as_str());
    t.append("  -  Logical Node 3");
    assert(t@ =~= title_text(opt_view(file_name), has_unsaved_changes));
    t
}

} // verus!

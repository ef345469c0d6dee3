use vstd::prelude::*;

use crate::handoff::PendingFileData;
use crate::registry::opt_view;
use crate::title::{display_file_name, display_name};

verus! {

/// The last component of a path, as `std::path::Path::file_name` finds it.
pub uninterp spec fn file_name_of(path: Seq<char>) -> Option<Seq<char>>;

/// Relies on `std::path::Path::file_name`: the final component of the path,
/// or none where the path ends in `..` or has no component; it depends on the
/// path's text alone. A component of a `&str` is valid UTF-8, so `to_str`
/// only converts.
#[verifier::external_body]
fn path_file_name(path: &String) -> (r: Option<String>)
    ensures
        opt_view(r) == file_name_of(path@),
{
    match std::path::Path::new(path.as_str()).file_name() {
        Some(n) => n.to_str().map(String::from),
        None => None,
    }
}

/// The name under which a file opened from `path` is shown: its file name,
/// or `Untitled` where the path has none.
pub fn open_file_name(path: &String) -> (r: String)
    ensures
        r@ == display_name(file_name_of(path@)),
{
    let name = path_file_name(path);
    display_file_name(name)
}

/// What a window opened on the file at `path` with `content` is handed at
/// start-up.
pub fn opened_file(path: &String, content: String) -> (r: PendingFileData)
    ensures
        r.content@ == content@,
        r.file_name@ == display_name(file_name_of(path@)),
{
    PendingFileData { content, file_name: open_file_name(path) }
}

} // verus!

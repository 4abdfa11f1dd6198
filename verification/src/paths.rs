//! Local paths of mirrored folders and files.
//!
//! A local path is kept as text. A remote name becomes one component of it
//! after sanitising, so that it can only name an entry of the directory it is
//! placed in.

use crate::canvas::{Folder, FolderView};
use vstd::prelude::*;
use vstd::string::*;

verus! {

/// The name that `sanitize_filename` makes of `name`, under Windows rules when
/// `windows` is set and under the general rules otherwise.
pub uninterp spec fn sanitized(name: Seq<char>, windows: bool) -> Seq<char>;

/// Characters that separate the components of a path on some platform.
pub open spec fn is_separator(c: char) -> bool {
    c == '/' || c == '\\'
}

/// `name` is a single component that refers neither to the directory it is
/// placed in nor to that directory's parent.
pub open spec fn is_plain_name(name: Seq<char>) -> bool {
    &&& forall|i: int| 0 <= i < name.len() ==> !is_separator(#[trigger] name[i])
    &&& !(name.len() == 1 && name[0] == '.')
    &&& !(name.len() == 2 && name[0] == '.' && name[1] == '.')
}

/// The path of the entry `name` of the directory `parent`.
pub open spec fn joined(parent: Seq<char>, name: Seq<char>) -> Seq<char> {
    parent + seq!['/'] + name
}

/// `path` consists of `parent`, one separator and a single plain component:
/// it names an entry of `parent` (or, with an empty component, `parent`
/// itself) and nothing outside it.
pub open spec fn stays_under(path: Seq<char>, parent: Seq<char>) -> bool {
    &&& path.len() > parent.len()
    &&& path.subrange(0, parent.len() as int) == parent
    &&& path[parent.len() as int] == '/'
    &&& is_plain_name(path.subrange(parent.len() as int + 1, path.len() as int))
}

/// Joining a plain name to a directory never leaves that directory.
pub proof fn lemma_join_stays_under(parent: Seq<char>, name: Seq<char>)
    requires
        is_plain_name(name),
    ensures
        stays_under(joined(parent, name), parent),
{
    let path = joined(parent, name);
    assert(path.subrange(0, parent.len() as int) =~= parent);
}

/// The local directory of a remote folder whose sanitised name is
/// `clean_name`: the root folder of a course, which has no parent, is the
/// course directory `parent` itself; any other folder is nested in it.
pub open spec fn folder_directory_of(
    parent: Seq<char>,
    folder: FolderView,
    clean_name: Seq<char>,
) -> Seq<char> {
    if folder.parent_folder_id is Some {
        joined(parent, clean_name)
    } else {
        parent
    }
}

/// The local directory of a remote folder listed under the directory
/// `parent`.
pub open spec fn folder_path_of(parent: Seq<char>, folder: FolderView, windows: bool) -> Seq<
    char,
> {
    folder_directory_of(parent, folder, sanitized(folder.name, windows))
}

/// The local path of a remote file named `filename` that belongs to the
/// directory `parent`.
pub open spec fn file_path_of(parent: Seq<char>, filename: Seq<char>, windows: bool) -> Seq<char> {
    joined(parent, sanitized(filename, windows))
}

/// Calls `sanitize_filename::sanitize_with_options` with the crate's default
/// options and the given platform flag. The crate deletes every `/`, `\`,
/// `?`, `<`, `>`, `:`, `*`, `|`, `"` and control character, turns a name made
/// only of dots into the empty name, under Windows rules also a reserved
/// device name, and cuts the result to at most 255 bytes. Trusted: the result
/// is that name, it contains no separator and it is neither `.` nor `..` (a
/// cut name keeps at least 252 bytes).
#[verifier::external_body]
fn sanitize_name(name: &str, windows: bool) -> (clean: String)
    ensures
        clean@ == sanitized(name@, windows),
        is_plain_name(clean@),
{
    let options = sanitize_filename::Options { windows, ..Default::default() };
    sanitize_filename::sanitize_with_options(name, options)
}

/// Appends the component `name` to the directory `parent`.
pub fn join(parent: &str, name: &str) -> (path: String)
    ensures
        path@ == joined(parent@, name@),
{
    let mut path = String::from_str(parent);
    proof {
        reveal_strlit("/");
    }
    path.append("/");
    path.append(name);
    path
}

/// Places a folder whose name has already been sanitised: the root folder of
/// a course maps to `parent` unchanged, any other folder to
/// `parent/clean_name`.
pub fn folder_directory(parent: &str, folder: &Folder, clean_name: &str) -> (path: String)
    ensures
        path@ == folder_directory_of(parent@, folder@, clean_name@),
{
    if folder.parent_folder_id.is_some() {
        join(parent, clean_name)
    } else {
        String::from_str(parent)
    }
}

/// The local directory of `folder`, listed under the directory `parent`. A
/// nested folder stays under `parent` whatever its remote name holds.
pub fn folder_path(parent: &str, folder: &Folder, windows: bool) -> (path: String)
    ensures
        path@ == folder_path_of(parent@, folder@, windows),
        folder@.parent_folder_id is None ==> path@ == parent@,
        folder@.parent_folder_id is Some ==> stays_under(path@, parent@),
{
    let clean = sanitize_name(folder.name.as_str(), windows);
    proof {
        lemma_join_stays_under(parent@, clean@);
    }
    folder_directory(parent, folder, clean.as_str())
}

/// The local path of the remote file `filename` in the directory `parent`.
/// The path stays under `parent` whatever the remote name holds.
pub fn file_path(parent: &str, filename: &str, windows: bool) -> (path: String)
    ensures
        path@ == file_path_of(parent@, filename@, windows),
        stays_under(path@, parent@),
{
    let clean = sanitize_name(filename, windows);
    proof {
        lemma_join_stays_under(parent@, clean@);
    }
    join(parent, clean.as_str())
}

} // verus!

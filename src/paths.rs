//! Moving a file name under another directory.
use vstd::prelude::*;
use vstd::string::*;

use crate::text::push_char;

verus! {

/// The final component of a path, as `std::path::Path::file_name` finds it.
pub uninterp spec fn file_name_of(path: Seq<char>) -> Option<Seq<char>>;

/// Relies on `std::path::Path::file_name`: the final component of the path,
/// if it has one. A component is never empty and holds no separator.
#[verifier::external_body]
fn path_file_name(path: &str) -> (r: Option<String>)
    ensures
        match r {
            Some(n) => file_name_of(path@) == Some(n@) && n@.len() > 0 && forall|i: int|
                0 <= i < n@.len() ==> n@[i] != '/',
            None => file_name_of(path@) is None,
        },
{
    match std::path::Path::new(path).file_name() {
        Some(n) => Some(n.to_string_lossy().into_owned()),
        None => None,
    }
}

/// `dir` followed by the relative name `name`, with one `/` between them
/// where `dir` does not already end with one.
pub open spec fn joined(dir: Seq<char>, name: Seq<char>) -> Seq<char> {
    if dir.len() == 0 {
        name
    } else if dir.last() == '/' {
        dir + name
    } else {
        dir + seq!['/'] + name
    }
}

/// `name` under `dir`: an absolute name stands alone.
pub open spec fn join_spec(dir: Seq<char>, name: Seq<char>) -> Seq<char> {
    if name.len() > 0 && name[0] == '/' {
        name
    } else {
        joined(dir, name)
    }
}

/// Joins `name` under `dir` as `std::path::Path::join` does on Unix.
pub fn path_join(dir: &str, name: &str) -> (r: String)
    ensures
        r@ == join_spec(dir@, name@),
{
    let nl = name.unicode_len();
    if nl > 0 && name.get_char(0) == '/' {
        return String::from_str(name);
    }
    let dl = dir.unicode_len();
    if dl == 0 {
        return String::from_str(name);
    }
    let mut s = String::from_str(dir);
    if dir.get_char(dl - 1) != '/' {
        push_char(&mut s, '/');
    }
    s.append(name);
    assert(s@ =~= join_spec(dir@, name@));
    s
}

/// The path of the file that `path` names, placed under `new_folder`; the
/// folder itself where `path` names no file.
pub fn move_to_new_folder(path: &str, new_folder: &str) -> (r: String)
    ensures
        r@ == match file_name_of(path@) {
            Some(n) => joined(new_folder@, n),
            None => new_folder@,
        },
{
    match path_file_name(path) {
        Some(name) => {
            assert(name@[0] != '/');
            path_join(new_folder, name.as_str())
        },
        None => String::from_str(new_folder),
    }
}

/// Position of the last `.` in `n`, or -1.
pub open spec fn last_dot(n: Seq<char>) -> int
    decreases n.len(),
{
    if n.len() == 0 {
        -1
    } else if n.last() == '.' {
        n.len() - 1
    } else {
        last_dot(n.drop_last())
    }
}

/// The extension of a path, as `std::path::Path::extension` finds it: what
/// follows the last `.` of the file name; none where the name has no `.`,
/// or where its only `.` is its first character.
pub open spec fn extension_of(path: Seq<char>) -> Option<Seq<char>> {
    match file_name_of(path) {
        Some(n) => if last_dot(n) <= 0 {
            None
        } else {
            Some(n.subrange(last_dot(n) + 1, n.len() as int))
        },
        None => None,
    }
}

proof fn lemma_last_dot(n: Seq<char>, k: int)
    requires
        -1 <= k < n.len(),
        k >= 0 ==> n[k] == '.',
        forall|j: int| k < j < n.len() ==> n[j] != '.',
    ensures
        last_dot(n) == k,
    decreases n.len(),
{
    if n.len() > 0 && k < n.len() - 1 {
        assert(n[n.len() - 1] != '.');
        lemma_last_dot(n.drop_last(), k);
    }
}

fn path_extension(path: &str) -> (r: Option<String>)
    ensures
        match r {
            Some(e) => extension_of(path@) == Some(e@),
            None => extension_of(path@) is None,
        },
{
    let name = match path_file_name(path) {
        Some(n) => n,
        None => return None,
    };
    let len = name.unicode_len();
    let mut i: usize = len;
    while i > 0 && name.as_str().get_char(i - 1) != '.'
        invariant
            len == name@.len(),
            i <= len,
            forall|j: int| i <= j < len ==> name@[j] != '.',
        decreases i,
    {
        i = i - 1;
    }
    proof {
        lemma_last_dot(name@, i - 1);
    }
    if i <= 1 {
        return None;
    }
    let ext = name.as_str().substring_char(i, len);
    Some(String::from_str(ext))
}

/// `new_filename` under `new_dir`, keeping the extension of `original_path`.
pub fn replace_path_keep_extension_inplace(original_path: &str, new_dir: &str, new_filename: &str) -> (r: String)
    ensures
        r@ == join_spec(
            new_dir@,
            match extension_of(original_path@) {
                Some(e) => new_filename@ + "."@ + e,
                None => new_filename@,
            },
        ),
{
    match path_extension(original_path) {
        Some(ext) => {
            let mut name = String::from_str(new_filename);
            name.append(".");
            name.append(ext.as_str());
            path_join(new_dir, name.as_str())
        },
        None => path_join(new_dir, new_filename),
    }
}

} // verus!

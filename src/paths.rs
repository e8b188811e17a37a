//! Path arithmetic on plain strings: extensions, file names, and the place
//! where a packed archive goes.

use vstd::prelude::*;

use crate::constant::OUT_PATH;
use crate::my_error::{CustomError, MyError};
use crate::text::chars_of;
use std::path::Path;

verus! {

/// What `Path::extension` gives for `path`.
pub uninterp spec fn path_extension(path: Seq<char>) -> Option<Seq<char>>;

/// What `Path::file_name` gives for `path`.
pub uninterp spec fn path_file_name(path: Seq<char>) -> Option<Seq<char>>;

/// What `Path::with_extension` gives for `path` and `ext`.
pub uninterp spec fn path_with_extension(path: Seq<char>, ext: Seq<char>) -> Seq<char>;

/// Relies on `Path::extension`: the part of the last component after its
/// final `.`, if there is one; a part of a `&str`, so valid UTF-8.
#[verifier::external_body]
pub(crate) fn extension_of(path: &str) -> (r: Option<String>)
    ensures
        r is Some <==> path_extension(path@) is Some,
        r matches Some(e) ==> path_extension(path@) == Some(e@),
{
    Path::new(path).extension().and_then(|e| e.to_str()).map(|e| e.to_string())
}

/// Relies on `Path::file_name`: the last component, unless it is `..` or
/// there is none; a part of a `&str`, so valid UTF-8.
#[verifier::external_body]
pub(crate) fn file_name_of(path: &str) -> (r: Option<String>)
    ensures
        r is Some <==> path_file_name(path@) is Some,
        r matches Some(n) ==> path_file_name(path@) == Some(n@),
{
    Path::new(path).file_name().and_then(|n| n.to_str()).map(|n| n.to_string())
}

/// Relies on `Path::with_extension`: the path with its extension replaced
/// by (or extended with) `ext`; built from `&str`s, so valid UTF-8. It
/// panics on an extension that holds a path separator, which `requires`
/// leaves out.
#[verifier::external_body]
pub(crate) fn replace_extension(path: &str, ext: &str) -> (r: String)
    requires
        forall|i: int| 0 <= i < ext@.len() ==> ext@[i] != '/',
    ensures
        r@ == path_with_extension(path@, ext@),
{
    Path::new(path).with_extension(ext).to_string_lossy().into_owned()
}

/// The extension of `name`, or the whole name where it has none.
pub open spec fn ext_or_name(name: Seq<char>) -> Seq<char> {
    match path_extension(name) {
        Some(e) => e,
        None => name,
    }
}

/// The key under which a file is counted: its extension, or the whole name
/// where it has none.
pub fn get_file_ext_or_itself(filename: &str) -> (r: String)
    ensures
        r@ == ext_or_name(filename@),
{
    match extension_of(filename) {
        Some(e) => e,
        None => String::from_str(filename),
    }
}

/// `rel` appended to `base` with one separator between them; an absolute
/// `rel` stands alone.
pub open spec fn join_spec(base: Seq<char>, rel: Seq<char>) -> Seq<char> {
    if rel.len() > 0 && rel[0] == '/' {
        rel
    } else if base.len() == 0 || base.last() == '/' {
        base + rel
    } else {
        base + seq!['/'] + rel
    }
}

/// `rel` appended to `base` with one separator between them; an absolute
/// `rel` stands alone.
pub fn join_path(base: &str, rel: &str) -> (r: String)
    ensures
        r@ == join_spec(base@, rel@),
{
    let rel_len = rel.unicode_len();
    if rel_len > 0 && rel.get_char(0) == '/' {
        return String::from_str(rel);
    }
    let base_len = base.unicode_len();
    let mut r = String::from_str(base);
    if base_len > 0 && base.get_char(base_len - 1) != '/' {
        r.append("/");
        proof {
            reveal_strlit("/");
        }
    }
    r.append(rel);
    assert(r@ =~= join_spec(base@, rel@));
    r
}

/// Where the repacked form of `archive_path` goes: the fixed output folder
/// under `home`, with the archive's own file name.
pub fn out_zip_path(home: &str, archive_path: &str) -> (r: Result<String, MyError>)
    ensures
        path_file_name(archive_path@) matches Some(n) ==> (r matches Ok(p) && p@ == join_spec(
            join_spec(home@, OUT_PATH@),
            n,
        )),
        path_file_name(archive_path@) is None ==> r matches Err(MyError::Custom(_)),
{
    match file_name_of(archive_path) {
        Some(name) => {
            let dir = join_path(home, OUT_PATH);
            Ok(join_path(dir.as_str(), name.as_str()))
        },
        None => {
            let mut msg = String::from_str("cannot get file name from ");
            msg.append(archive_path);
            Err(MyError::Custom(CustomError::new(msg.as_str())))
        },
    }
}

/// The entry is a file whose path ends with `.zip`.
pub open spec fn is_zip_file(path: Seq<char>, is_file: bool) -> bool {
    is_file && path.len() >= 4 && path.subrange(path.len() - 4, path.len() as int) == ".zip"@
}

/// Whether a walked entry is an archive to repackage: a file whose path
/// ends with `.zip` (matched exactly).
pub fn is_archive_candidate(path: &str, is_file: bool) -> (r: bool)
    ensures
        r == is_zip_file(path@, is_file),
{
    proof {
        reveal_strlit(".zip");
    }
    if !is_file {
        return false;
    }
    let c = chars_of(path);
    let n = c.len();
    if n < 4 {
        return false;
    }
    let r = c[n - 4] == '.' && c[n - 3] == 'z' && c[n - 2] == 'i' && c[n - 1] == 'p';
    let ghost sub = path@.subrange(n - 4, n as int);
    let ghost z = ".zip"@;
    assert(z.len() == 4 && z[0] == '.' && z[1] == 'z' && z[2] == 'i' && z[3] == 'p');
    assert(sub[0] == c@[n - 4] && sub[1] == c@[n - 3] && sub[2] == c@[n - 2] && sub[3] == c@[n
        - 1]);
    if r {
        assert(sub =~= z);
    }
    r
}

} // verus!

//! The check that keeps decoded entry names inside the staging directory.

use vstd::prelude::*;

use crate::my_error::MyError;
use crate::text::chars_of;

verus! {

pub open spec fn is_ascii_letter(c: char) -> bool {
    ('a' <= c && c <= 'z') || ('A' <= c && c <= 'Z')
}

/// `n` begins with a drive letter such as `C:`.
pub open spec fn has_drive_prefix(n: Seq<char>) -> bool {
    n.len() >= 2 && is_ascii_letter(n[0]) && n[1] == ':'
}

/// Some `/`-delimited segment of `n` is exactly `..`.
pub open spec fn has_parent_segment(n: Seq<char>) -> bool {
    exists|i: int|
        #![trigger n[i]]
        0 <= i && i + 2 <= n.len() && n[i] == '.' && n[i + 1] == '.' && (i == 0 || n[i - 1]
            == '/') && (i + 2 == n.len() || n[i + 2] == '/')
}

/// A name that could escape the directory it is joined to.
pub open spec fn is_unsafe_name(n: Seq<char>) -> bool {
    ||| n.contains('\\')
    ||| has_drive_prefix(n)
    ||| (n.len() > 0 && n[0] == '/')
    ||| has_parent_segment(n)
}

/// Rejects a decoded entry name that holds a backslash, begins with a drive
/// letter or with `/`, or has a `..` segment; accepts every other name.
pub fn validate_file_name(file_name: &str) -> (r: Result<(), MyError>)
    ensures
        r is Ok <==> !is_unsafe_name(file_name@),
        r matches Err(e) ==> e matches MyError::PathTraversal(m) && m@ == file_name@,
{
    let n = chars_of(file_name);
    let len = n.len();
    let mut bad = len >= 2 && n[1] == ':' && (('a' <= n[0] && n[0] <= 'z') || ('A' <= n[0]
        && n[0] <= 'Z'));
    if len > 0 && n[0] == '/' {
        bad = true;
    }
    let mut i: usize = 0;
    while i < len
        invariant
            len == n@.len(),
            n@ == file_name@,
            i <= len,
            bad == (has_drive_prefix(n@) || (len > 0 && n@[0] == '/') || (exists|k: int|
                0 <= k < i && n@[k] == '\\') || (exists|k: int|
                #![trigger n@[k]]
                0 <= k < i && k + 2 <= len && n@[k] == '.' && n@[k + 1] == '.' && (k == 0
                    || n@[k - 1] == '/') && (k + 2 == len || n@[k + 2] == '/'))),
        decreases len - i,
    {
        if n[i] == '\\' {
            bad = true;
        }
        if i + 1 < len && n[i] == '.' && n[i + 1] == '.' && (i == 0 || n[i - 1] == '/') && (i
            + 2 == len || n[i + 2] == '/') {
            bad = true;
        }
        i = i + 1;
    }
    if bad {
        Err(MyError::PathTraversal(String::from_str(file_name)))
    } else {
        Ok(())
    }
}

} // verus!

//! The decisions around image conversion: which staged files are converted
//! to JPEG and under which name, and how the removal of a source image that was
//! converted ends. The conversion and the removal are left to the caller.

use vstd::prelude::*;

use crate::constant::{JPEG_EXT, JPEG_QUALITY};
use crate::pack::views;
use crate::paths::{extension_of, path_extension, path_with_extension, replace_extension};

verus! {

/// The extensions converted by the standard policy, matched exactly: the
/// upper-case `JPG` is one of them, and `jpg` is not.
pub open spec fn standard_transform_extensions() -> Seq<Seq<char>> {
    seq!["png"@, "bmp"@, "JPG"@, "webm"@, "webp"@]
}

/// Which staged files are converted to JPEG, and at which quality.
#[derive(Debug, Clone)]
pub struct TransformPolicy {
    pub extensions: Vec<String>,
    pub quality: u8,
}

impl TransformPolicy {
    /// The file at `path` is converted: its extension is one of the list.
    pub open spec fn converts(&self, path: Seq<char>, is_file: bool) -> bool {
        is_file && (path_extension(path) matches Some(e) && views(self.extensions@).contains(e))
    }

    /// png, bmp, JPG, webm and webp files, at the fixed JPEG quality.
    pub fn standard() -> (r: TransformPolicy)
        ensures
            views(r.extensions@) == standard_transform_extensions(),
            r.quality == JPEG_QUALITY,
    {
        let mut v: Vec<String> = Vec::new();
        v.push(String::from_str("png"));
        v.push(String::from_str("bmp"));
        v.push(String::from_str("JPG"));
        v.push(String::from_str("webm"));
        v.push(String::from_str("webp"));
        let r = TransformPolicy { extensions: v, quality: JPEG_QUALITY };
        assert(views(r.extensions@) =~= standard_transform_extensions());
        r
    }

    /// Whether the entry at `path` is converted.
    pub fn needs_transform(&self, path: &str, is_file: bool) -> (r: bool)
        ensures
            r == self.converts(path@, is_file),
    {
        if !is_file {
            return false;
        }
        let ext = match extension_of(path) {
            Some(e) => e,
            None => {
                return false;
            },
        };
        let mut k: usize = 0;
        while k < self.extensions.len()
            invariant
                is_file,
                path_extension(path@) == Some(ext@),
                k <= self.extensions@.len(),
                forall|m: int| 0 <= m < k ==> #[trigger] self.extensions@[m]@ != ext@,
            decreases self.extensions@.len() - k,
        {
            if self.extensions[k] == ext {
                assert(views(self.extensions@)[k as int] == ext@);
                return true;
            }
            k = k + 1;
        }
        assert(!views(self.extensions@).contains(ext@)) by {
            if views(self.extensions@).contains(ext@) {
                let m = choose|m: int| 0 <= m < views(self.extensions@).len() && views(self.extensions@)[m] == ext@;
                assert(self.extensions@[m]@ == ext@);
            }
        }
        false
    }

    /// Where the JPEG form of the file at `path` goes, if it is converted:
    /// the same path with the extension `jpg`.
    pub fn target_path(&self, path: &str, is_file: bool) -> (r: Option<String>)
        ensures
            r is Some <==> self.converts(path@, is_file),
            r matches Some(t) ==> t@ == path_with_extension(path@, JPEG_EXT@),
    {
        if self.needs_transform(path, is_file) {
            proof {
                reveal_strlit("jpg");
            }
            Some(replace_extension(path, JPEG_EXT))
        } else {
            None
        }
    }
}

/// How one attempt to remove a file ended.
#[derive(Debug, Clone, Copy, PartialEq, Eq)]
pub enum RemoveOutcome {
    Removed,
    /// The file was already gone.
    NotFound,
    /// Any other failure.
    Failed,
}

/// What to do after an attempt to remove a file.
#[derive(Debug, Clone, Copy, PartialEq, Eq)]
pub enum RemoveStep {
    Done,
    Retry,
}

pub open spec fn removal_step(o: RemoveOutcome) -> RemoveStep {
    match o {
        RemoveOutcome::Failed => RemoveStep::Retry,
        _ => RemoveStep::Done,
    }
}

/// Removal is retried until the file no longer exists; finding it already
/// gone counts as success.
pub fn after_remove_attempt(outcome: RemoveOutcome) -> (r: RemoveStep)
    ensures
        r == removal_step(outcome),
        outcome is NotFound ==> r is Done,
{
    match outcome {
        RemoveOutcome::Failed => RemoveStep::Retry,
        _ => RemoveStep::Done,
    }
}

/// Cleanup is idempotent: once a file is gone, every further attempt to
/// remove it, however many, ends in success.
pub proof fn lemma_cleanup_idempotent(attempts: Seq<RemoveOutcome>)
    requires
        forall|i: int| 0 <= i < attempts.len() ==> #[trigger] attempts[i] is NotFound,
    ensures
        forall|i: int| 0 <= i < attempts.len() ==> #[trigger] removal_step(attempts[i]) is Done,
{
}

} // verus!

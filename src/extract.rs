//! The decisions of extraction: what each archive entry is called once
//! decoded, whether it may be staged at all, whether it is a directory, and
//! the histogram of staged files. Reading the archive and writing the staging
//! directory are left to the caller, which follows the plan.

use vstd::prelude::*;

use crate::charset::{
    charset_of_name, decode_zip_filename, decoded_text, has_whatwg_decoder, whatwg_label_of,
};
use crate::histogram::{histogram_of, lemma_count_positive, lemma_histogram_push, ExtensionHistogram};
use crate::my_error::MyError;
use crate::paths::{ext_or_name, get_file_ext_or_itself};
use crate::text::chars_of;
use crate::validate::{is_unsafe_name, validate_file_name};

verus! {

/// An archive entry as the container stores it.
#[derive(Debug, Clone)]
pub struct RawEntry {
    pub name_bytes: Vec<u8>,
    /// The container marks the entry as a directory.
    pub is_directory: bool,
}

/// An archive entry whose name was decoded and found safe.
#[derive(Debug, Clone, PartialEq, Eq)]
pub struct DecodedEntry {
    pub decoded_name: String,
    pub is_directory: bool,
}

/// What extraction stages, in container order, and the histogram of its files.
#[derive(Debug)]
pub struct ExtractionPlan {
    pub entries: Vec<DecodedEntry>,
    pub histogram: ExtensionHistogram,
}

/// The decoded form of a raw name, where a decoder exists for its charset.
pub open spec fn resolved_name(raw: Seq<u8>) -> Option<Seq<char>> {
    let label = whatwg_label_of(charset_of_name(raw));
    if has_whatwg_decoder(label) {
        Some(decoded_text(label, raw))
    } else {
        None
    }
}

/// A name that ends with a path separator names a directory.
pub open spec fn names_directory(n: Seq<char>) -> bool {
    n.len() > 0 && n.last() == '/'
}

/// The entry decodes to a safe name.
pub open spec fn entry_accepted(raw: Seq<u8>) -> bool {
    resolved_name(raw) matches Some(n) && !is_unsafe_name(n)
}

/// `e` is the error that a refused entry with this raw name gives.
pub open spec fn entry_error(raw: Seq<u8>, e: MyError) -> bool {
    match resolved_name(raw) {
        None => (e matches MyError::EncodingUnavailable(c) && c@ == charset_of_name(raw)),
        Some(n) => (e matches MyError::PathTraversal(m) && m@ == n),
    }
}

/// `d` is what `raw` stages as.
pub open spec fn entry_matches(raw: RawEntry, d: DecodedEntry) -> bool {
    &&& resolved_name(raw.name_bytes@) == Some(d.decoded_name@)
    &&& d.is_directory == (raw.is_directory || names_directory(d.decoded_name@))
}

/// The histogram keys of the files among `es`, in order.
pub open spec fn file_keys(es: Seq<DecodedEntry>) -> Seq<Seq<char>>
    decreases es.len(),
{
    if es.len() == 0 {
        seq![]
    } else {
        let prev = file_keys(es.drop_last());
        if es.last().is_directory {
            prev
        } else {
            prev.push(ext_or_name(es.last().decoded_name@))
        }
    }
}

/// Decodes one entry's name and checks it; a directory is one that the
/// container marks so or whose name ends with `/`.
pub fn plan_entry(raw: &RawEntry) -> (r: Result<DecodedEntry, MyError>)
    ensures
        r is Ok <==> entry_accepted(raw.name_bytes@),
        r matches Ok(d) ==> entry_matches(*raw, d),
        r matches Err(e) ==> entry_error(raw.name_bytes@, e),
{
    let name = match decode_zip_filename(raw.name_bytes.as_slice()) {
        Ok(n) => n,
        Err(e) => {
            return Err(e);
        },
    };
    match validate_file_name(name.as_str()) {
        Ok(()) => {},
        Err(e) => {
            return Err(e);
        },
    }
    let chars = chars_of(name.as_str());
    let ends_with_slash = chars.len() > 0 && chars[chars.len() - 1] == '/';
    Ok(DecodedEntry { decoded_name: name, is_directory: raw.is_directory || ends_with_slash })
}

/// Plans the extraction of an archive's entries, in container order. The
/// first entry whose name cannot be decoded or is unsafe fails the whole
/// archive; otherwise every entry is staged and every file counted under
/// its extension (or its full name where it has none).
pub fn plan_extraction(raws: &Vec<RawEntry>) -> (r: Result<ExtractionPlan, MyError>)
    ensures
        r is Ok <==> forall|i: int| 0 <= i < raws@.len() ==> entry_accepted(#[trigger] raws@[i].name_bytes@),
        r matches Ok(p) ==> {
            &&& p.entries@.len() == raws@.len()
            &&& forall|i: int| 0 <= i < raws@.len() ==> entry_matches(#[trigger] raws@[i], p.entries@[i])
            &&& p.histogram.wf()
            &&& p.histogram@ == histogram_of(file_keys(p.entries@))
        },
        r matches Err(e) ==> exists|k: int|
            0 <= k < raws@.len() && (forall|j: int| 0 <= j < k ==> entry_accepted(#[trigger] raws@[j].name_bytes@))
                && !entry_accepted(raws@[k].name_bytes@) && entry_error(raws@[k].name_bytes@, e),
{
    let mut entries: Vec<DecodedEntry> = Vec::new();
    let mut histogram = ExtensionHistogram::new();
    assert(histogram_of(seq![]) =~= Map::<Seq<char>, nat>::empty());
    let mut i: usize = 0;
    while i < raws.len()
        invariant
            i <= raws@.len(),
            entries@.len() == i,
            forall|j: int| 0 <= j < i ==> entry_accepted(#[trigger] raws@[j].name_bytes@),
            forall|j: int| 0 <= j < i ==> entry_matches(#[trigger] raws@[j], entries@[j]),
            histogram.wf(),
            histogram@ == histogram_of(file_keys(entries@)),
            file_keys(entries@).len() <= i,
        decreases raws@.len() - i,
    {
        let d = match plan_entry(&raws[i]) {
            Ok(d) => d,
            Err(e) => {
                return Err(e);
            },
        };
        let ghost before = entries@;
        if !d.is_directory {
            let key = get_file_ext_or_itself(d.decoded_name.as_str());
            proof {
                let fk = file_keys(before);
                lemma_count_positive(fk, key@);
                lemma_histogram_push(fk, key@);
                assert(usize::MAX <= u64::MAX);
            }
            histogram.record(&key);
        }
        entries.push(d);
        proof {
            assert(entries@.drop_last() =~= before);
        }
        i = i + 1;
    }
    Ok(ExtractionPlan { entries, histogram })
}

} // verus!

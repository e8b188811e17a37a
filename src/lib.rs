//! Repackaging of legacy ZIP archives whose entry names were written under
//! non-UTF-8 locales: charset resolution of entry names, path-safety checks,
//! extraction and packing plans, and the filter that drops junk entries.

pub mod charset;
pub mod constant;
pub mod extract;
pub mod histogram;
pub mod my_error;
pub mod pack;
pub mod paths;
pub mod text;
pub mod transform;
pub mod validate;

pub use charset::{charset_for_name, choose_charset, decode_as, decode_zip_filename, escape_only};
pub use extract::{plan_entry, plan_extraction, DecodedEntry, ExtractionPlan, RawEntry};
pub use histogram::{count_of, histogram_of, ExtensionHistogram};
pub use my_error::{CustomError, MyError};
pub use pack::{plan_pack, EntryFilter, PackRecord, StagedEntry};
pub use paths::{get_file_ext_or_itself, is_archive_candidate, join_path, out_zip_path};
pub use text::{pad_end, pad_start};
pub use transform::{after_remove_attempt, RemoveOutcome, RemoveStep, TransformPolicy};
pub use validate::validate_file_name;

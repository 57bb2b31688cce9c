//! Source staging: where a submission's text goes on disk.
//!
//! A submission is written to `<staging dir>/<id>.<ext>` where `id` is a
//! fresh submission id and `ext` the canonical extension of its language.
//! The file writing itself is the callers' work; this module computes the
//! plan — extension, file name, full path — and owns the staged handle.

use vstd::prelude::*;

use crate::text::spec_decimal;
use crate::text::str_eq;
use crate::text::u64_to_string;

verus! {

/// The staged handle: the submission's fresh id and the absolute path of
/// its source file.
pub struct SavedSource {
    pub submission_id: u64,
    pub full_path: String,
}

impl SavedSource {
    /// A staged handle.
    pub fn new(submission_id: u64, full_path: String) -> (r: SavedSource)
        ensures
            r.submission_id == submission_id,
            r.full_path == full_path,
    {
        SavedSource { submission_id, full_path }
    }

    /// The submission id this staging serves.
    pub fn get_submission_id(&self) -> (r: u64)
        ensures
            r == self.submission_id,
    {
        self.submission_id
    }

    /// The absolute path of the staged source file.
    pub fn get_full_path(&self) -> (r: &str)
        ensures
            r@ == self.full_path@,
    {
        self.full_path.as_str()
    }
}

/// The canonical source-file extension of each supported language.
pub open spec fn spec_lang_extension(lang: Seq<char>) -> Option<Seq<char>> {
    if lang == "c"@ {
        Option::Some("c"@)
    } else if lang == "cpp"@ {
        Option::Some("cpp"@)
    } else if lang == "rust"@ {
        Option::Some("rs"@)
    } else if lang == "python"@ {
        Option::Some("py"@)
    } else {
        Option::None
    }
}

/// Look up the canonical source-file extension of a language. `None` means
/// the language is unsupported and the submission is rejected before any
/// file is touched.
pub fn lang_extension(lang: &str) -> (r: Option<&str>)
    ensures
        (r is Some) == (spec_lang_extension(lang@) is Some),
        r matches Option::Some(e) ==> Option::Some(e@) == spec_lang_extension(lang@),
{
    if str_eq(lang, "c") {
        Option::Some("c")
    } else if str_eq(lang, "cpp") {
        Option::Some("cpp")
    } else if str_eq(lang, "rust") {
        Option::Some("rs")
    } else if str_eq(lang, "python") {
        Option::Some("py")
    } else {
        Option::None
    }
}

/// The staging directory.
pub open spec fn spec_staging_dir() -> Seq<char> {
    "assets/src"@
}

/// The file name of a staged submission: `<id>.<ext>`.
pub open spec fn spec_staged_file_name(id: u64, ext: Seq<char>) -> Seq<char> {
    spec_decimal(id as nat) + "."@ + ext
}

/// The full path of a staged submission: `<staging dir>/<file name>`.
pub open spec fn spec_staged_full_path(filename: Seq<char>) -> Seq<char> {
    spec_staging_dir() + "/"@ + filename
}

/// The bound under which fresh submission ids are drawn.
pub open spec fn submission_id_bound() -> u64 {
    1000000
}

/// Draw a fresh submission id.
///
/// Relies on `random_number::random_exclusively`, which returns a value in
/// `[lo, hi)` and panics when `lo >= hi`. Nothing more is assumed of the
/// outcome: every caller must work for every value in the range.
#[verifier::external_body]
fn random_submission_id(lo: u64, hi: u64) -> (r: u64)
    requires
        lo < hi,
    ensures
        lo <= r < hi,
{
    random_number::random_exclusively(lo, hi)
}

/// The staging plan of one submission: a fresh id, the file name and the
/// full path its source will live under. An unsupported language is
/// rejected.
pub fn staging_request(lang: &str) -> (r: Result<(u64, String, String), String>)
    ensures
        (r is Ok) == (spec_lang_extension(lang@) is Some),
        r matches Result::Ok(plan) ==> {
            &&& plan.0 < submission_id_bound()
            &&& plan.1@ == spec_staged_file_name(plan.0, spec_lang_extension(lang@)->0)
            &&& plan.2@ == spec_staged_full_path(plan.1@)
        },
        r matches Result::Err(e) ==> e@ == "Unsupported language"@,
{
    let ext: &str = match lang_extension(lang) {
        Option::Some(e) => e,
        Option::None => {
            return Result::Err("Unsupported language".to_owned());
        },
    };
    let id: u64 = random_submission_id(0, 1000000);
    let filename: String = u64_to_string(id).concat(".").concat(ext);
    let full_path: String = "assets/src".to_owned().concat("/").concat(filename.as_str());
    Result::Ok((id, filename, full_path))
}

} // verus!

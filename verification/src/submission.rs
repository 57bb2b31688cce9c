//! A submission as it arrives over the external interface.

use vstd::prelude::*;

use crate::text::str_eq;

verus! {

/// The request body of a submission: source text, language tag, and the
/// problem id as the client sent it.
pub struct Submission {
    pub source: String,
    pub lang: String,
    pub problem_id: String,
}

impl Submission {
    /// A submission.
    pub fn new(source: &str, lang: &str, problem_id: &str) -> (r: Self)
        ensures
            r.source@ == source@,
            r.lang@ == lang@,
            r.problem_id@ == problem_id@,
    {
        Submission {
            source: source.to_owned(),
            lang: lang.to_owned(),
            problem_id: problem_id.to_owned(),
        }
    }
}

/// The dotted source-file extension shown to the external interface for
/// each supported language.
pub open spec fn spec_code_ext(lang: Seq<char>) -> Option<Seq<char>> {
    if lang == "c"@ {
        Option::Some(".c"@)
    } else if lang == "cpp"@ {
        Option::Some(".cpp"@)
    } else if lang == "rust"@ {
        Option::Some(".rs"@)
    } else if lang == "python"@ {
        Option::Some(".py"@)
    } else {
        Option::None
    }
}

/// Look up the dotted extension of a language; `None` rejects the
/// submission at the boundary.
pub fn code_ext(lang: &str) -> (r: Option<&str>)
    ensures
        (r is Some) == (spec_code_ext(lang@) is Some),
        r matches Option::Some(e) ==> Option::Some(e@) == spec_code_ext(lang@),
{
    if str_eq(lang, "c") {
        Option::Some(".c")
    } else if str_eq(lang, "cpp") {
        Option::Some(".cpp")
    } else if str_eq(lang, "rust") {
        Option::Some(".rs")
    } else if str_eq(lang, "python") {
        Option::Some(".py")
    } else {
        Option::None
    }
}

} // verus!

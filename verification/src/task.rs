//! A judging task and the terminal verdicts of its failure paths.
//!
//! A task carries one submission through the pipeline: stage the source,
//! compile it, discover the testcases, expand into runner jobs. Each step's
//! file and process work lives with the callers; the error routing — which
//! failure yields which terminal verdict — is decided here.

use vstd::prelude::*;

use crate::compiler;
use crate::runner;
use crate::text::spec_decimal;
use crate::text::u64_to_string;
use crate::verdict::JudgeStatus;

verus! {

/// One submission to judge: the problem, where its testcases live, the
/// language tag and the source text.
pub struct Task {
    pub problem_id: u64,
    pub testcases_path: String,
    pub lang: String,
    pub source_code: String,
}

impl Task {
    /// A task for one submission.
    pub fn new(problem_id: u64, testcases_path: &str, lang: &str, source_code: &str) -> (r: Task)
        ensures
            r.problem_id == problem_id,
            r.testcases_path@ == testcases_path@,
            r.lang@ == lang@,
            r.source_code@ == source_code@,
    {
        Task {
            problem_id,
            testcases_path: testcases_path.to_owned(),
            lang: lang.to_owned(),
            source_code: source_code.to_owned(),
        }
    }
}

/// The directory that holds a problem's testcases: `assets/<problem id>`.
pub open spec fn spec_testcases_dir(problem_id: u64) -> Seq<char> {
    "assets/"@ + spec_decimal(problem_id as nat)
}

/// The testcase directory of a problem.
pub fn testcases_dir(problem_id: u64) -> (r: String)
    ensures
        r@ == spec_testcases_dir(problem_id),
{
    "assets/".to_owned().concat(u64_to_string(problem_id).as_str())
}

/// The terminal verdict of a failed staging step.
pub fn staging_error_status(msg: String) -> (r: JudgeStatus)
    ensures
        r == JudgeStatus::UnknownError(msg),
{
    JudgeStatus::UnknownError(msg)
}

/// The terminal verdict of a failed compilation: the compiler's own
/// diagnostic verbatim, and each internal failure under its name.
pub fn compile_error_status(e: compiler::Error) -> (r: JudgeStatus)
    ensures
        r is CompilationError,
        (e matches compiler::Error::CompilationError(msg) ==> r == JudgeStatus::CompilationError(
            msg,
        )),
        (e is LanguageNotFoundError ==> (r matches JudgeStatus::CompilationError(m) && m@
            == "LanguageNotFoundError"@)),
        (e is ForkFailed ==> (r matches JudgeStatus::CompilationError(m) && m@ == "ForkFailed"@)),
        (e is NoCompilationLogError ==> (r matches JudgeStatus::CompilationError(m) && m@
            == "NoCompilationLogError"@)),
{
    match e {
        compiler::Error::CompilationError(msg) => JudgeStatus::CompilationError(msg),
        compiler::Error::LanguageNotFoundError => JudgeStatus::CompilationError(
            "LanguageNotFoundError".to_owned(),
        ),
        compiler::Error::ForkFailed => JudgeStatus::CompilationError("ForkFailed".to_owned()),
        compiler::Error::NoCompilationLogError => JudgeStatus::CompilationError(
            "NoCompilationLogError".to_owned(),
        ),
    }
}

/// The terminal verdict of a failed fan-out: an internal error, reported
/// under the failure's name.
pub fn runner_error_status(e: runner::Error) -> (r: JudgeStatus)
    ensures
        r is UnknownError,
        (e is ForkFailed ==> (r matches JudgeStatus::UnknownError(m) && m@ == "ForkFailed"@)),
        (e is LanguageNotFoundError ==> (r matches JudgeStatus::UnknownError(m) && m@
            == "LanguageNotFoundError"@)),
        (e is CommandEmptyError ==> (r matches JudgeStatus::UnknownError(m) && m@
            == "CommandEmptyError"@)),
        (e is FileSystemError ==> (r matches JudgeStatus::UnknownError(m) && m@
            == "FileSystemError"@)),
        (e is IOError ==> (r matches JudgeStatus::UnknownError(m) && m@ == "IOError"@)),
{
    match e {
        runner::Error::ForkFailed => JudgeStatus::UnknownError("ForkFailed".to_owned()),
        runner::Error::LanguageNotFoundError => JudgeStatus::UnknownError(
            "LanguageNotFoundError".to_owned(),
        ),
        runner::Error::CommandEmptyError => JudgeStatus::UnknownError(
            "CommandEmptyError".to_owned(),
        ),
        runner::Error::FileSystemError => JudgeStatus::UnknownError("FileSystemError".to_owned()),
        runner::Error::IOError => JudgeStatus::UnknownError("IOError".to_owned()),
    }
}

} // verus!

//! Verdicts: the terminal status of a submission and its stable ordinal
//! encoding for the external interface.

use vstd::prelude::*;

verus! {

/// Terminal status of one submission, as produced by the judging pipeline.
///
/// `WrongAnswer(p, n)` carries the number of passed testcases `p` and the
/// total number of testcases `n`.
#[derive(Debug, PartialEq, Eq, Clone)]
pub enum JudgeStatus {
    Halt,
    Pending,
    Accepted,
    WrongAnswer(usize, usize),
    CompilationError(String),
    RuntimeError(String),
    TimeLimitExceeded(u64),
    MemoLimitExceeded(u64),
    UnknownError(String),
}

/// The verdict collapsed to the variant tag alone, as reported over the
/// external interface.
#[derive(Debug, PartialEq, Eq, Clone, Copy)]
pub enum SubmissionStatus {
    Accepted,
    WrongAnswer,
    CompilationError,
    RuntimeError,
    TimeLimitExceeded,
    MemoLimitExceeded,
    UnknownError,
}

impl SubmissionStatus {
    /// The stable ordinal encoding of each status tag.
    pub open spec fn spec_code(self) -> i16 {
        match self {
            SubmissionStatus::Accepted => 0,
            SubmissionStatus::WrongAnswer => 1,
            SubmissionStatus::CompilationError => 2,
            SubmissionStatus::RuntimeError => 3,
            SubmissionStatus::TimeLimitExceeded => 4,
            SubmissionStatus::MemoLimitExceeded => 5,
            SubmissionStatus::UnknownError => 6,
        }
    }

    /// Status code sent over the external interface.
    pub fn code(self) -> (c: i16)
        ensures
            c == self.spec_code(),
    {
        match self {
            SubmissionStatus::Accepted => 0,
            SubmissionStatus::WrongAnswer => 1,
            SubmissionStatus::CompilationError => 2,
            SubmissionStatus::RuntimeError => 3,
            SubmissionStatus::TimeLimitExceeded => 4,
            SubmissionStatus::MemoLimitExceeded => 5,
            SubmissionStatus::UnknownError => 6,
        }
    }
}

/// The status tag that belongs to a full verdict.
pub open spec fn spec_submission_status(j: JudgeStatus) -> SubmissionStatus {
    match j {
        JudgeStatus::Accepted => SubmissionStatus::Accepted,
        JudgeStatus::WrongAnswer(_, _) => SubmissionStatus::WrongAnswer,
        JudgeStatus::CompilationError(_) => SubmissionStatus::CompilationError,
        JudgeStatus::RuntimeError(_) => SubmissionStatus::RuntimeError,
        JudgeStatus::TimeLimitExceeded(_) => SubmissionStatus::TimeLimitExceeded,
        JudgeStatus::MemoLimitExceeded(_) => SubmissionStatus::MemoLimitExceeded,
        JudgeStatus::UnknownError(_) => SubmissionStatus::UnknownError,
        JudgeStatus::Halt => SubmissionStatus::UnknownError,
        JudgeStatus::Pending => SubmissionStatus::UnknownError,
    }
}

/// Collapse a verdict to the status tag of the external interface.
///
/// The transient states `Halt` and `Pending` never reach the interface;
/// they are reported as `UnknownError`.
pub fn submission_status_of(j: &JudgeStatus) -> (s: SubmissionStatus)
    ensures
        s == spec_submission_status(*j),
{
    match j {
        JudgeStatus::Accepted => SubmissionStatus::Accepted,
        JudgeStatus::WrongAnswer(_, _) => SubmissionStatus::WrongAnswer,
        JudgeStatus::CompilationError(_) => SubmissionStatus::CompilationError,
        JudgeStatus::RuntimeError(_) => SubmissionStatus::RuntimeError,
        JudgeStatus::TimeLimitExceeded(_) => SubmissionStatus::TimeLimitExceeded,
        JudgeStatus::MemoLimitExceeded(_) => SubmissionStatus::MemoLimitExceeded,
        JudgeStatus::UnknownError(_) => SubmissionStatus::UnknownError,
        JudgeStatus::Halt => SubmissionStatus::UnknownError,
        JudgeStatus::Pending => SubmissionStatus::UnknownError,
    }
}

} // verus!

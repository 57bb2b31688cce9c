//! The runner: expanding a compiled submission into its per-testcase
//! execution units.
//!
//! Resolving the execute recipe must succeed — a supported language without
//! an execute command is a hard error — and for an interpreted language
//! both placeholders resolve to the artifact path. The fan-out produces one
//! `RunnerJob` per testcase; all of them report into one shared aggregation
//! record. Forking the child processes and redirecting their streams is the
//! callers' work.

use vstd::prelude::*;

use crate::aggregation::RunnerJobSharedData;
use crate::comparer::ComparerResult;
use crate::recipe::Registry;
use crate::recipe::resolve_tokens;
use crate::recipe::subst_token;
use crate::testcases::Testcase;

verus! {

/// The roles a redirected stream can play for a child process.
#[derive(Debug, PartialEq, PartialOrd, Eq, Ord, Clone)]
pub enum FileType {
    Stdout,
    Stdin,
    Stderr,
    File(String),
}

/// Internal failures of the execution layer, as reported to a judgement.
#[derive(Debug, PartialEq, PartialOrd, Eq, Ord, Clone)]
pub enum RunnerErr {
    MissingConfig,
    MissingCompConfig(String),
    MissingExecConfig(String),
    CompErr(String),
    UnknownErr(String),
}

/// What can go wrong while expanding or executing a submission.
#[derive(Debug, PartialEq, PartialOrd, Eq, Ord, Clone)]
pub enum Error {
    ForkFailed,
    LanguageNotFoundError,
    CommandEmptyError,
    FileSystemError,
    IOError,
}

/// The execute side of the recipe registry.
pub struct Runner {
    pub running_recipe: Registry,
}

/// One deferred testcase execution.
pub struct RunnerJob {
    pub testcase: Testcase,
}

impl RunnerJob {
    /// A job for one testcase.
    pub fn new(testcase: Testcase) -> (r: RunnerJob)
        ensures
            r.testcase == testcase,
    {
        RunnerJob { testcase }
    }

    /// Where the child's standard output is captured:
    /// `<exec>-<outname>-stdout`.
    pub fn stdout_capture_path(&self, executable_path: &str) -> (r: String)
        ensures
            r@ == executable_path@ + "-"@ + self.testcase.output_file.filename@ + "-stdout"@,
    {
        executable_path.to_owned().concat("-").concat(
            self.testcase.output_file.get_name(),
        ).concat("-stdout")
    }

    /// Where the child's standard error is captured:
    /// `<exec>-<outname>-stderr`.
    pub fn stderr_capture_path(&self, executable_path: &str) -> (r: String)
        ensures
            r@ == executable_path@ + "-"@ + self.testcase.output_file.filename@ + "-stderr"@,
    {
        executable_path.to_owned().concat("-").concat(
            self.testcase.output_file.get_name(),
        ).concat("-stderr")
    }
}

/// What one finished run contributes to the aggregation: whether the
/// comparison counts it wrong, and the captured error-stream content if the
/// child wrote any. A child that wrote to its error stream marks the
/// submission for a runtime-error verdict, whatever its output compared to.
pub fn judge_run(cmp: &ComparerResult, stderr_content: String) -> (r: (bool, Option<String>))
    ensures
        r.0 == !(cmp is Consistent),
        r.1 == (if stderr_content@.len() == 0 {
            Option::<String>::None
        } else {
            Option::Some(stderr_content)
        }),
{
    let is_wrong = match cmp {
        ComparerResult::Consistent => false,
        ComparerResult::Inconsistent(_, _, _) => true,
    };
    if stderr_content.as_str().is_empty() {
        (is_wrong, Option::None)
    } else {
        (is_wrong, Option::Some(stderr_content))
    }
}

impl Runner {
    /// A runner over the given execute recipes.
    pub fn new(running_recipe: Registry) -> (r: Runner)
        ensures
            r.running_recipe == running_recipe,
    {
        Runner { running_recipe }
    }

    /// Resolve the execute command of an artifact. A language without an
    /// execute recipe is a hard error, and so is a recipe that resolves to
    /// nothing. Both placeholders resolve to the artifact path, which for
    /// an interpreted language is the staged source itself.
    pub fn generate_execution_command(&self, executable_path: &str, lang: &str) -> (r: Result<
        Vec<String>,
        Error,
    >)
        requires
            self.running_recipe.wf(),
        ensures
            (r is Err) == (self.running_recipe.spec_get(lang@) is None
                || self.running_recipe.spec_get(lang@) == Option::Some(
                Option::<Seq<Seq<char>>>::None,
            ) || self.running_recipe.spec_get(lang@)->0->0.len() == 0),
            r matches Result::Err(e) ==> {
                if self.running_recipe.spec_get(lang@) is None || self.running_recipe.spec_get(
                    lang@,
                ) == Option::Some(Option::<Seq<Seq<char>>>::None) {
                    e is LanguageNotFoundError
                } else {
                    e is CommandEmptyError
                }
            },
            r matches Result::Ok(cmd) ==> {
                let template = self.running_recipe.spec_get(lang@)->0->0;
                &&& cmd.deep_view().len() == template.len()
                &&& cmd.deep_view().len() > 0
                &&& forall|i: int|
                    0 <= i < template.len() ==> cmd.deep_view()[i] == subst_token(
                        template[i],
                        executable_path@,
                        executable_path@,
                    )
            },
    {
        let template: Vec<String> = match self.running_recipe.lookup(lang) {
            Option::Some(Option::Some(t)) => t,
            _ => {
                return Result::Err(Error::LanguageNotFoundError);
            },
        };
        let command: Vec<String> = resolve_tokens(&template, executable_path, executable_path);
        if command.is_empty() {
            return Result::Err(Error::CommandEmptyError);
        }
        Result::Ok(command)
    }

    /// Expand a submission into its fan-out: the shared aggregation record,
    /// initialized with the testcase count, the resolved command and the
    /// artifact path, and one job per testcase, in order. The callers wire
    /// the record to the jobs and supply the finalizer.
    pub fn execute(&self, executable_path: String, lang: &str, testcases: &Vec<Testcase>) -> (r:
        Result<(RunnerJobSharedData, Vec<RunnerJob>), Error>)
        requires
            self.running_recipe.wf(),
        ensures
            (r is Ok) == !((self.running_recipe.spec_get(lang@) is None
                || self.running_recipe.spec_get(lang@) == Option::Some(
                Option::<Seq<Seq<char>>>::None,
            ) || self.running_recipe.spec_get(lang@)->0->0.len() == 0)),
            r matches Result::Err(e) ==> {
                if self.running_recipe.spec_get(lang@) is None || self.running_recipe.spec_get(
                    lang@,
                ) == Option::Some(Option::<Seq<Seq<char>>>::None) {
                    e is LanguageNotFoundError
                } else {
                    e is CommandEmptyError
                }
            },
            r matches Result::Ok(out) ==> {
                let template = self.running_recipe.spec_get(lang@)->0->0;
                &&& out.0.inv()
                &&& out.0.cnt_testcases == testcases@.len()
                &&& out.0.cnt_checked == 0
                &&& out.0.cnt_wrong_answer == 0
                &&& out.0.cnt_runtime_error == 0
                &&& out.0.defer_present
                &&& out.0.executable_path@ == executable_path@
                &&& out.0.command.deep_view().len() == template.len()
                &&& forall|i: int|
                    0 <= i < template.len() ==> out.0.command.deep_view()[i] == subst_token(
                        template[i],
                        executable_path@,
                        executable_path@,
                    )
                &&& out.1@.len() == testcases@.len()
                &&& forall|i: int|
                    0 <= i < testcases@.len() ==> (#[trigger] out.1@[i]).testcase
                        == testcases@[i]
            },
    {
        let command: Vec<String> = match self.generate_execution_command(
            executable_path.as_str(),
            lang,
        ) {
            Result::Ok(c) => c,
            Result::Err(e) => {
                return Result::Err(e);
            },
        };
        let shared_data = RunnerJobSharedData::new(testcases.len(), executable_path, command);
        let mut runner_jobs: Vec<RunnerJob> = Vec::new();
        let mut i: usize = 0;
        while i < testcases.len()
            invariant
                i <= testcases@.len(),
                runner_jobs@.len() == i,
                forall|j: int|
                    0 <= j < i ==> (#[trigger] runner_jobs@[j]).testcase == testcases@[j],
            decreases testcases@.len() - i,
        {
            let tc = Testcase::new(
                testcases[i].input_file.duplicate(),
                testcases[i].output_file.duplicate(),
            );
            runner_jobs.push(RunnerJob::new(tc));
            i = i + 1;
        }
        Result::Ok((shared_data, runner_jobs))
    }
}

} // verus!

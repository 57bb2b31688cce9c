use coffee_oj_judge::compiler::{self, compile_log_path, compile_outcome};
use coffee_oj_judge::recipe::Registry;
use coffee_oj_judge::runner::{self, judge_run, Runner, RunnerJob};
use coffee_oj_judge::comparer::ComparerResult;
use coffee_oj_judge::task::{compile_error_status, runner_error_status, staging_error_status};
use coffee_oj_judge::testcases::{Testcase, TestcaseFile};
use coffee_oj_judge::verdict::{submission_status_of, JudgeStatus};

fn strings(v: &[&str]) -> Vec<String> {
    v.iter().map(|s| s.to_string()).collect()
}

fn pairs(v: &[(&str, &str)]) -> Vec<(String, String)> {
    v.iter().map(|(a, b)| (a.to_string(), b.to_string())).collect()
}

fn testcase(n: &str) -> Testcase {
    Testcase::new(
        TestcaseFile::new(&format!("{}.in", n), &format!("assets/1/{}.in", n)),
        TestcaseFile::new(&format!("{}.out", n), &format!("assets/1/{}.out", n)),
    )
}

#[test]
fn empty_log_means_success() {
    let out = compile_outcome("a.exe".to_string(), Some(String::new()));
    assert_eq!(out.unwrap(), "a.exe".to_string());
}

#[test]
fn non_empty_log_is_the_diagnostic() {
    let out = compile_outcome("a.exe".to_string(), Some("error: expected `;`".to_string()));
    match out.unwrap_err() {
        compiler::Error::CompilationError(msg) => assert_eq!(msg, "error: expected `;`"),
        other => panic!("expected a compilation error, got {:?}", other),
    }
}

#[test]
fn missing_log_is_an_internal_error() {
    let out = compile_outcome("a.exe".to_string(), None);
    assert!(matches!(out, Err(compiler::Error::NoCompilationLogError)));
}

#[test]
fn log_path_follows_the_target() {
    assert_eq!(compile_log_path("assets/src/1.cpp.exe"), "assets/src/1.cpp.exe.log".to_string());
}

#[test]
fn compile_failure_becomes_its_verdict() {
    let verdict = compile_error_status(compiler::Error::CompilationError("boom".to_string()));
    assert_eq!(verdict, JudgeStatus::CompilationError("boom".to_string()));
    assert_eq!(submission_status_of(&verdict).code(), 2);
    let verdict = compile_error_status(compiler::Error::ForkFailed);
    assert_eq!(verdict, JudgeStatus::CompilationError("ForkFailed".to_string()));
}

#[test]
fn staging_failure_becomes_unknown_error() {
    let verdict = staging_error_status("Unsupported language".to_string());
    assert_eq!(
        verdict,
        JudgeStatus::UnknownError("Unsupported language".to_string())
    );
    assert_eq!(submission_status_of(&verdict).code(), 6);
}

#[test]
fn runner_failure_becomes_unknown_error() {
    let verdict = runner_error_status(runner::Error::CommandEmptyError);
    assert_eq!(
        verdict,
        JudgeStatus::UnknownError("CommandEmptyError".to_string())
    );
}

#[test]
fn fan_out_builds_one_job_per_testcase() {
    let runner = Runner::new(Registry::build(
        &strings(&["cpp"]),
        &pairs(&[("cpp", "$target")]),
    ));
    let cases = vec![testcase("1"), testcase("2"), testcase("3")];
    let (shared, jobs) = runner
        .execute("assets/src/5.cpp.exe".to_string(), "cpp", &cases)
        .unwrap();
    assert_eq!(shared.get_cnt_testcases(), 3);
    assert_eq!(shared.get_cnt_checked(), 0);
    assert_eq!(jobs.len(), 3);
    assert_eq!(jobs[1].testcase.input_file.get_name(), "2.in");
}

#[test]
fn fan_out_fails_without_an_execute_recipe() {
    let runner = Runner::new(Registry::build(&strings(&["cpp"]), &pairs(&[])));
    let out = runner.execute("a.exe".to_string(), "cpp", &vec![testcase("1")]);
    assert!(matches!(out, Err(runner::Error::LanguageNotFoundError)));
}

#[test]
fn capture_paths_name_the_streams() {
    let job = RunnerJob::new(testcase("4"));
    assert_eq!(
        job.stdout_capture_path("assets/src/9.exe"),
        "assets/src/9.exe-4.out-stdout".to_string()
    );
    assert_eq!(
        job.stderr_capture_path("assets/src/9.exe"),
        "assets/src/9.exe-4.out-stderr".to_string()
    );
}

#[test]
fn run_outcome_counts_inconsistency_and_stderr() {
    let (wrong, log) = judge_run(&ComparerResult::Consistent, String::new());
    assert!(!wrong);
    assert!(log.is_none());
    let (wrong, log) = judge_run(
        &ComparerResult::Inconsistent(1, "3".to_string(), "7".to_string()),
        String::new(),
    );
    assert!(wrong);
    assert!(log.is_none());
    let (wrong, log) = judge_run(&ComparerResult::Consistent, "trace".to_string());
    assert!(!wrong);
    assert_eq!(log, Some("trace".to_string()));
}

use coffee_oj_judge::aggregation::{verdict_of, RunnerJobSharedData};
use coffee_oj_judge::verdict::{submission_status_of, JudgeStatus, SubmissionStatus};

fn fresh(total: usize) -> RunnerJobSharedData {
    RunnerJobSharedData::new(total, "a.exe".to_string(), vec!["a.exe".to_string()])
}

#[test]
fn finalizer_fires_exactly_once() {
    let mut shared = fresh(3);
    assert!(!shared.is_complete());
    shared.record_testcase(false, None, 1, 1);
    assert!(!shared.is_complete());
    shared.record_testcase(true, None, 1, 1);
    assert!(!shared.is_complete());
    shared.record_testcase(false, None, 1, 1);
    assert_eq!(shared.get_cnt_checked(), 3);
    assert!(shared.is_complete());
    assert!(!shared.is_complete());
    assert!(!shared.is_complete());
}

#[test]
fn counters_accumulate() {
    let mut shared = fresh(2);
    shared.record_testcase(true, None, 1, 1);
    shared.record_testcase(false, None, 1, 1);
    assert_eq!(shared.get_cnt_testcases(), 2);
    assert_eq!(shared.get_cnt_checked(), 2);
    assert_eq!(shared.get_cnt_wrong_answer(), 1);
    assert_eq!(shared.get_mem_cost(), 2);
    assert_eq!(shared.get_time_cost(), 2);
}

#[test]
fn fan_out_aggregation_wrong_answer() {
    let mut shared = fresh(10);
    let mut fired = 0;
    for i in 0..10 {
        shared.record_testcase(i < 3, None, 1, 1);
        if shared.is_complete() {
            fired += 1;
        }
    }
    assert_eq!(fired, 1);
    let verdict = verdict_of(&shared);
    assert_eq!(verdict, JudgeStatus::WrongAnswer(7, 10));
    assert_eq!(submission_status_of(&verdict).code(), 1);
}

#[test]
fn passed_plus_wrong_is_total() {
    for (total, wrong) in [(1usize, 1usize), (10, 3), (5, 5)] {
        let mut shared = fresh(total);
        for i in 0..total {
            shared.record_testcase(i < wrong, None, 1, 1);
        }
        match verdict_of(&shared) {
            JudgeStatus::WrongAnswer(p, n) => {
                assert_eq!(p + wrong, n);
                assert_eq!(n, total);
            }
            other => panic!("expected a wrong answer, got {:?}", other),
        }
    }
}

#[test]
fn all_consistent_is_accepted() {
    let mut shared = fresh(2);
    shared.record_testcase(false, None, 1, 1);
    shared.record_testcase(false, None, 1, 1);
    let verdict = verdict_of(&shared);
    assert_eq!(verdict, JudgeStatus::Accepted);
    assert_eq!(submission_status_of(&verdict).code(), 0);
}

#[test]
fn stderr_output_overrides_wrong_answer() {
    let mut shared = fresh(2);
    shared.record_testcase(true, Some("segfault".to_string()), 1, 1);
    shared.record_testcase(false, None, 1, 1);
    let verdict = verdict_of(&shared);
    assert_eq!(verdict, JudgeStatus::RuntimeError("segfault".to_string()));
    assert_eq!(submission_status_of(&verdict).code(), 3);
}

#[test]
fn first_error_log_is_kept() {
    let mut shared = fresh(2);
    shared.record_testcase(false, Some("first".to_string()), 1, 1);
    shared.record_testcase(false, Some("second".to_string()), 1, 1);
    assert_eq!(
        verdict_of(&shared),
        JudgeStatus::RuntimeError("first".to_string())
    );
}

#[test]
fn cost_counters_wrap_like_machine_counters() {
    let mut shared = fresh(2);
    shared.record_testcase(false, None, u64::MAX, 0);
    shared.record_testcase(false, None, 2, 0);
    assert_eq!(shared.get_mem_cost(), 1);
    assert_eq!(shared.get_time_cost(), 0);
}

#[test]
fn status_codes_are_stable() {
    assert_eq!(SubmissionStatus::Accepted.code(), 0);
    assert_eq!(SubmissionStatus::WrongAnswer.code(), 1);
    assert_eq!(SubmissionStatus::CompilationError.code(), 2);
    assert_eq!(SubmissionStatus::RuntimeError.code(), 3);
    assert_eq!(SubmissionStatus::TimeLimitExceeded.code(), 4);
    assert_eq!(SubmissionStatus::MemoLimitExceeded.code(), 5);
    assert_eq!(SubmissionStatus::UnknownError.code(), 6);
}

#[test]
fn transient_states_map_to_unknown_error() {
    assert_eq!(
        submission_status_of(&JudgeStatus::Halt),
        SubmissionStatus::UnknownError
    );
    assert_eq!(
        submission_status_of(&JudgeStatus::Pending),
        SubmissionStatus::UnknownError
    );
}

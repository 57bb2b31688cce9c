use coffee_oj_judge::testcases::{get_pairwise_testcase_files, DiffTask, TestcaseFile};
use coffee_oj_judge::verdict::JudgeStatus;

fn file(name: &str) -> TestcaseFile {
    TestcaseFile::new(name, &format!("assets/1/{}", name))
}

#[test]
fn pairs_matched_by_stem() {
    let files = vec![
        file("1.in"),
        file("1.out"),
        file("2.in"),
        file("readme.txt"),
        file("3.out"),
    ];
    let pairs = get_pairwise_testcase_files(files);
    assert_eq!(pairs.len(), 1);
    assert_eq!(pairs[0].input_file.get_name(), "1.in");
    assert_eq!(pairs[0].input_file.get_path(), "assets/1/1.in");
    assert_eq!(pairs[0].output_file.get_name(), "1.out");
}

#[test]
fn pairs_come_out_ordered_by_stem() {
    let files = vec![
        file("b.in"),
        file("a.in"),
        file("b.out"),
        file("a.out"),
        file("c.out"),
    ];
    let pairs = get_pairwise_testcase_files(files);
    assert_eq!(pairs.len(), 2);
    assert_eq!(pairs[0].input_file.get_name(), "a.in");
    assert_eq!(pairs[1].input_file.get_name(), "b.in");
}

#[test]
fn later_file_with_the_same_stem_wins() {
    let files = vec![
        TestcaseFile::new("1.in", "assets/1/old/1.in"),
        TestcaseFile::new("1.out", "assets/1/1.out"),
        TestcaseFile::new("1.in", "assets/1/new/1.in"),
    ];
    let pairs = get_pairwise_testcase_files(files);
    assert_eq!(pairs.len(), 1);
    assert_eq!(pairs[0].input_file.get_path(), "assets/1/new/1.in");
}

#[test]
fn stem_order_is_lexicographic() {
    let files = vec![
        file("9.in"),
        file("10.in"),
        file("9.out"),
        file("10.out"),
    ];
    let pairs = get_pairwise_testcase_files(files);
    assert_eq!(pairs.len(), 2);
    assert_eq!(pairs[0].input_file.get_name(), "10.in");
    assert_eq!(pairs[1].input_file.get_name(), "9.in");
}

#[test]
fn no_files_no_pairs() {
    let pairs = get_pairwise_testcase_files(vec![]);
    assert!(pairs.is_empty());
}

#[test]
fn unmatched_sides_are_ignored() {
    let files = vec![file("only.in"), file("other.out")];
    let pairs = get_pairwise_testcase_files(files);
    assert!(pairs.is_empty());
}

#[test]
fn testcase_file_accessors() {
    let f = TestcaseFile::new("5.in", "assets/9/5.in");
    assert_eq!(f.get_name(), "5.in");
    assert_eq!(f.get_path(), "assets/9/5.in");
}

#[test]
fn diff_task_halts() {
    let status = DiffTask::default().do_diff();
    assert!(matches!(status, JudgeStatus::Halt));
}

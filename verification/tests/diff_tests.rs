use coffee_oj_judge::diff::{Differ, Judge};
use coffee_oj_judge::testcases::TestcaseFile;
use coffee_oj_judge::text::split_ascii_ws;

#[test]
fn equal_contents_have_no_diffs() {
    let differ = Differ::new("a.txt", vec!["1", "2"], "b.txt", vec!["1", "2"]);
    assert!(differ.diffs.is_empty());
    assert_eq!(differ.lhs_path, "a.txt".to_string());
    assert_eq!(differ.rhs_path, "b.txt".to_string());
}

#[test]
fn empty_lines_are_skipped_anywhere() {
    let differ = Differ::new(
        "a.txt",
        vec!["", "1", "", "2"],
        "b.txt",
        vec!["1", "2", "", ""],
    );
    assert!(differ.diffs.is_empty());
}

#[test]
fn first_unequal_lines_are_recorded() {
    let differ = Differ::new("a.txt", vec!["1", "x"], "b.txt", vec!["1", "y"]);
    assert_eq!(
        differ.diffs,
        vec![(1usize, "x".to_string(), 1usize, "y".to_string())]
    );
}

#[test]
fn leftover_line_is_recorded_against_eof() {
    let differ = Differ::new("a.txt", vec!["1", "2"], "b.txt", vec!["1"]);
    assert_eq!(
        differ.diffs,
        vec![(1usize, "2".to_string(), 1usize, "(eof)".to_string())]
    );
    let differ = Differ::new("a.txt", vec!["1"], "b.txt", vec!["1", "2"]);
    assert_eq!(
        differ.diffs,
        vec![(1usize, "(eof)".to_string(), 1usize, "2".to_string())]
    );
}

#[test]
fn judge_accepts_equal_modulo_empty_lines() {
    let stdout_file = TestcaseFile::new("1.in.stdout", "assets/1/1.in.stdout");
    let preset_file = TestcaseFile::new("1.out", "assets/1/1.out");
    assert!(Judge::judge(
        &stdout_file,
        &preset_file,
        vec!["6", ""],
        vec!["6"]
    ));
    assert!(!Judge::judge(
        &stdout_file,
        &preset_file,
        vec!["6"],
        vec!["7"]
    ));
}

#[test]
fn whitespace_tokenization() {
    assert_eq!(
        split_ascii_ws("g++  $source\t-o\n$target "),
        vec![
            "g++".to_string(),
            "$source".to_string(),
            "-o".to_string(),
            "$target".to_string()
        ]
    );
    assert_eq!(split_ascii_ws("   "), Vec::<String>::new());
    assert_eq!(split_ascii_ws(""), Vec::<String>::new());
}

use coffee_oj_judge::comparer::{compare_lines, ComparerResult};

fn lines(v: &[&str]) -> Vec<String> {
    v.iter().map(|s| s.to_string()).collect()
}

#[test]
fn identical_files_are_consistent() {
    let f = lines(&["hello\n", "world\n"]);
    assert_eq!(compare_lines(&f, &f), ComparerResult::Consistent);
}

#[test]
fn empty_files_are_consistent() {
    let f: Vec<String> = vec![];
    assert_eq!(compare_lines(&f, &f), ComparerResult::Consistent);
}

#[test]
fn trailing_newline_is_insignificant() {
    let left = lines(&["6"]);
    let right = lines(&["6\n"]);
    assert_eq!(compare_lines(&left, &right), ComparerResult::Consistent);
}

#[test]
fn single_trailing_blank_line_tolerated() {
    let f = lines(&["a\n", "b\n"]);
    let g = lines(&["a\n", "b\n", "\n"]);
    assert_eq!(compare_lines(&f, &g), ComparerResult::Consistent);
    assert_eq!(compare_lines(&g, &f), ComparerResult::Consistent);
}

#[test]
fn trailing_blank_with_spaces_tolerated() {
    let f = lines(&["a\n"]);
    let g = lines(&["a\n", "   \t\n"]);
    assert_eq!(compare_lines(&f, &g), ComparerResult::Consistent);
}

#[test]
fn trailing_non_blank_line_rejected() {
    let f = lines(&["a\n", "b\n"]);
    let g = lines(&["a\n", "b\n", "c\n"]);
    let result = compare_lines(&f, &g);
    assert_eq!(
        result,
        ComparerResult::Inconsistent(3, String::new(), String::new())
    );
    assert_ne!(compare_lines(&g, &f), ComparerResult::Consistent);
}

#[test]
fn two_trailing_blank_lines_rejected() {
    let f = lines(&["a\n"]);
    let g = lines(&["a\n", "\n", "\n"]);
    assert_eq!(
        compare_lines(&f, &g),
        ComparerResult::Inconsistent(2, String::new(), String::new())
    );
}

#[test]
fn first_difference_is_reported_one_based() {
    let left = lines(&["same\n", "left\n", "more\n"]);
    let right = lines(&["same\n", "right\n", "more\n"]);
    assert_eq!(
        compare_lines(&left, &right),
        ComparerResult::Inconsistent(2, "left".to_string(), "right".to_string())
    );
}

#[test]
fn difference_on_first_line() {
    let left = lines(&["3\n"]);
    let right = lines(&["7\n"]);
    assert_eq!(
        compare_lines(&left, &right),
        ComparerResult::Inconsistent(1, "3".to_string(), "7".to_string())
    );
}

use coffee_oj_judge::staging::{lang_extension, staging_request, SavedSource};
use coffee_oj_judge::submission::{code_ext, Submission};
use coffee_oj_judge::task::{testcases_dir, Task};

#[test]
fn extensions_of_supported_languages() {
    assert_eq!(lang_extension("c"), Some("c"));
    assert_eq!(lang_extension("cpp"), Some("cpp"));
    assert_eq!(lang_extension("rust"), Some("rs"));
    assert_eq!(lang_extension("python"), Some("py"));
    assert_eq!(lang_extension("haskell"), None);
    assert_eq!(lang_extension(""), None);
}

#[test]
fn dotted_extensions_of_supported_languages() {
    assert_eq!(code_ext("c"), Some(".c"));
    assert_eq!(code_ext("cpp"), Some(".cpp"));
    assert_eq!(code_ext("rust"), Some(".rs"));
    assert_eq!(code_ext("python"), Some(".py"));
    assert_eq!(code_ext("java"), None);
}

#[test]
fn staging_plan_places_the_file() {
    let (id, filename, full_path) = staging_request("cpp").unwrap();
    assert!(id < 1000000);
    assert_eq!(filename, format!("{}.cpp", id));
    assert_eq!(full_path, format!("assets/src/{}", filename));
}

#[test]
fn staging_rejects_unknown_language() {
    let out = staging_request("brainfudge");
    assert_eq!(out.unwrap_err(), "Unsupported language".to_string());
}

#[test]
fn decimal_rendering_in_paths() {
    assert_eq!(testcases_dir(0), "assets/0".to_string());
    assert_eq!(testcases_dir(1000000), "assets/1000000".to_string());
}

#[test]
fn saved_source_accessors() {
    let s = SavedSource::new(42, "assets/src/42.py".to_string());
    assert_eq!(s.get_submission_id(), 42);
    assert_eq!(s.get_full_path(), "assets/src/42.py");
}

#[test]
fn task_holds_its_submission() {
    let t = Task::new(1, "assets/1", "cpp", "int main() {}");
    assert_eq!(t.problem_id, 1);
    assert_eq!(t.testcases_path, "assets/1".to_string());
    assert_eq!(t.lang, "cpp".to_string());
    assert_eq!(t.source_code, "int main() {}".to_string());
}

#[test]
fn testcases_directory_of_a_problem() {
    assert_eq!(testcases_dir(1), "assets/1".to_string());
    assert_eq!(testcases_dir(1359), "assets/1359".to_string());
}

#[test]
fn submission_holds_the_request() {
    let s = Submission::new("print(1)", "python", "17");
    assert_eq!(s.source, "print(1)".to_string());
    assert_eq!(s.lang, "python".to_string());
    assert_eq!(s.problem_id, "17".to_string());
}

use coffee_oj_judge::compiler::{self, Compiler};
use coffee_oj_judge::recipe::{resolve_tokens, Registry};
use coffee_oj_judge::runner::{self, Runner};
use coffee_oj_judge::staging::SavedSource;

fn strings(v: &[&str]) -> Vec<String> {
    v.iter().map(|s| s.to_string()).collect()
}

fn pairs(v: &[(&str, &str)]) -> Vec<(String, String)> {
    v.iter().map(|(a, b)| (a.to_string(), b.to_string())).collect()
}

#[test]
fn placeholders_resolve_in_their_slots() {
    let template = strings(&["g++", "$source", "-o", "$target", "$other", "plain"]);
    let resolved = resolve_tokens(&template, "assets/src/1.cpp", "assets/src/1.cpp.exe");
    assert_eq!(
        resolved,
        strings(&[
            "g++",
            "assets/src/1.cpp",
            "-o",
            "assets/src/1.cpp.exe",
            "$other",
            "plain"
        ])
    );
}

#[test]
fn registry_answers_per_language() {
    let registry = Registry::build(
        &strings(&["c", "cpp", "python"]),
        &pairs(&[
            ("cpp", "g++ $source -o $target"),
            ("java", "javac $source"),
        ]),
    );
    assert_eq!(
        registry.lookup("cpp"),
        Some(Some(strings(&["g++", "$source", "-o", "$target"])))
    );
    assert_eq!(registry.lookup("python"), Some(None));
    assert_eq!(registry.lookup("java"), None);
}

#[test]
fn later_command_entry_wins() {
    let registry = Registry::build(
        &strings(&["cpp"]),
        &pairs(&[("cpp", "first"), ("cpp", "second $source")]),
    );
    assert_eq!(
        registry.lookup("cpp"),
        Some(Some(strings(&["second", "$source"])))
    );
}

#[test]
fn duplicate_language_listing_is_one_slot() {
    let registry = Registry::build(&strings(&["cpp", "cpp"]), &pairs(&[("cpp", "run")]));
    assert_eq!(registry.lookup("cpp"), Some(Some(strings(&["run"]))));
}

#[test]
fn compilation_command_for_compiled_language() {
    let compiler = Compiler::new(Registry::build(
        &strings(&["cpp", "python"]),
        &pairs(&[("cpp", "g++ $source -o $target")]),
    ));
    let staged = SavedSource::new(7, "assets/src/7.cpp".to_string());
    let out = compiler
        .generate_compilation_command(&staged, "cpp")
        .unwrap()
        .unwrap();
    assert_eq!(out.0, "assets/src/7.cpp.exe".to_string());
    assert_eq!(
        out.1,
        strings(&["g++", "assets/src/7.cpp", "-o", "assets/src/7.cpp.exe"])
    );
}

#[test]
fn interpreted_language_skips_compilation() {
    let compiler = Compiler::new(Registry::build(
        &strings(&["cpp", "python"]),
        &pairs(&[("cpp", "g++ $source -o $target")]),
    ));
    let staged = SavedSource::new(8, "assets/src/8.py".to_string());
    let out = compiler.generate_compilation_command(&staged, "python").unwrap();
    assert!(out.is_none());
}

#[test]
fn unknown_language_is_a_compile_error() {
    let compiler = Compiler::new(Registry::build(&strings(&["cpp"]), &pairs(&[])));
    let staged = SavedSource::new(9, "assets/src/9.hs".to_string());
    let out = compiler.generate_compilation_command(&staged, "haskell");
    assert!(matches!(out, Err(compiler::Error::LanguageNotFoundError)));
}

#[test]
fn execution_resolves_both_placeholders_to_the_artifact() {
    let runner = Runner::new(Registry::build(
        &strings(&["python"]),
        &pairs(&[("python", "python3 $source $target")]),
    ));
    let cmd = runner
        .generate_execution_command("assets/src/3.py", "python")
        .unwrap();
    assert_eq!(
        cmd,
        strings(&["python3", "assets/src/3.py", "assets/src/3.py"])
    );
}

#[test]
fn missing_execute_recipe_is_a_hard_error() {
    let runner = Runner::new(Registry::build(&strings(&["cpp"]), &pairs(&[])));
    let out = runner.generate_execution_command("a.exe", "cpp");
    assert!(matches!(out, Err(runner::Error::LanguageNotFoundError)));
    let out = runner.generate_execution_command("a.exe", "haskell");
    assert!(matches!(out, Err(runner::Error::LanguageNotFoundError)));
}

#[test]
fn empty_execute_recipe_is_rejected() {
    let runner = Runner::new(Registry::build(
        &strings(&["cpp"]),
        &pairs(&[("cpp", "   ")]),
    ));
    let out = runner.generate_execution_command("a.exe", "cpp");
    assert!(matches!(out, Err(runner::Error::CommandEmptyError)));
}

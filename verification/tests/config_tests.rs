use coffee_oj_judge::config::{load_registries, ConfigError};

fn strings(v: &[&str]) -> Vec<String> {
    v.iter().map(|s| s.to_string()).collect()
}

const CONFIG: &str = "languages = [\"c\", \"cpp\", \"python\"]\n\
\n\
[compile]\n\
cpp = \"g++ $source -o $target\"\n\
c = \"gcc $source -o $target\"\n\
\n\
[execute]\n\
cpp = \"$target\"\n\
c = \"$target\"\n\
python = \"python3 $source\"\n";

#[test]
fn well_formed_config_builds_both_registries() {
    let (compile, execute) = load_registries(CONFIG).unwrap();
    assert_eq!(
        compile.lookup("cpp"),
        Some(Some(strings(&["g++", "$source", "-o", "$target"])))
    );
    assert_eq!(compile.lookup("python"), Some(None));
    assert_eq!(compile.lookup("java"), None);
    assert_eq!(execute.lookup("python"), Some(Some(strings(&["python3", "$source"]))));
    assert_eq!(execute.lookup("cpp"), Some(Some(strings(&["$target"]))));
}

#[test]
fn unknown_top_level_keys_are_ignored() {
    let text = "languages = [\"cpp\"]\nextra = 42\n[compile]\ncpp = \"g++ $source\"\n[execute]\ncpp = \"$target\"\n[unrelated]\nx = \"y\"\n";
    let (compile, _execute) = load_registries(text).unwrap();
    assert_eq!(compile.lookup("cpp"), Some(Some(strings(&["g++", "$source"]))));
}

#[test]
fn entries_for_unlisted_languages_are_dropped() {
    let text = "languages = [\"cpp\"]\n[compile]\njava = \"javac $source\"\n[execute]\ncpp = \"$target\"\njava = 3\n";
    let (compile, execute) = load_registries(text).unwrap();
    assert_eq!(compile.lookup("java"), None);
    assert_eq!(compile.lookup("cpp"), Some(None));
    assert_eq!(execute.lookup("cpp"), Some(Some(strings(&["$target"]))));
}

#[test]
fn unparsable_text_is_malformed() {
    let out = load_registries("languages = [");
    assert!(matches!(out, Err(ConfigError::ConfigMalformed(_))));
}

#[test]
fn non_string_language_is_malformed() {
    let out = load_registries("languages = [\"cpp\", 3]\n[compile]\n[execute]\n");
    assert!(matches!(out, Err(ConfigError::ConfigMalformed(_))));
}

#[test]
fn missing_languages_is_malformed() {
    let out = load_registries("[compile]\n[execute]\n");
    assert!(matches!(out, Err(ConfigError::ConfigMalformed(_))));
}

#[test]
fn missing_execute_section_is_malformed() {
    let out = load_registries("languages = [\"cpp\"]\n[compile]\ncpp = \"g++\"\n");
    assert!(matches!(out, Err(ConfigError::ConfigMalformed(_))));
}

#[test]
fn non_string_command_for_listed_language_is_malformed() {
    let out =
        load_registries("languages = [\"cpp\"]\n[compile]\ncpp = [\"g++\"]\n[execute]\ncpp = \"$target\"\n");
    assert!(matches!(out, Err(ConfigError::ConfigMalformed(_))));
}

#[test]
fn empty_sections_are_accepted() {
    let (compile, execute) = load_registries("languages = [\"python\"]\n[compile]\n[execute]\n").unwrap();
    assert_eq!(compile.lookup("python"), Some(None));
    assert_eq!(execute.lookup("python"), Some(None));
}

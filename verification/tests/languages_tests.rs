use minijudge::languages::DynLanguage;

fn entry(compile: Vec<&str>, execute: Vec<&str>) -> DynLanguage {
    DynLanguage {
        source_filename: "main.c".to_string(),
        executable_filename: "program".to_string(),
        code: "c".to_string(),
        compile_command: compile.into_iter().map(|s| s.to_string()).collect(),
        execute_command: execute.into_iter().map(|s| s.to_string()).collect(),
        compile_flags: None,
        execute_flags: None,
    }
}

#[test]
fn test_render_compile_substitutes_placeholders() {
    let language = entry(vec!["cc", "-o", "{destination}", "{source}"], vec!["./{executable}"]);
    assert_eq!(language.compile("a", "b"), vec!["cc", "-o", "b", "a"]);
}

#[test]
fn test_render_execute_substitutes_placeholder() {
    let language = entry(vec!["cc"], vec!["./{executable}", "--flag"]);
    assert_eq!(language.execute("program"), vec!["./program", "--flag"]);
}

#[test]
fn test_unrecognized_placeholder_renders_literally() {
    let language = entry(vec!["cc", "{output}", "{source}"], vec!["./{executable}"]);
    assert_eq!(language.compile("x.c", "x"), vec!["cc", "{output}", "x.c"]);
}

#[test]
fn test_substitution_within_one_template() {
    let language = entry(vec!["{source}:{destination}:{source}"], vec!["{executable}"]);
    assert_eq!(language.compile("in", "out"), vec!["in:out:in"]);
}

#[test]
fn test_substitution_is_one_pass() {
    // A substituted value is not scanned again for placeholders.
    let language = entry(vec!["{source}"], vec!["{executable}"]);
    assert_eq!(language.compile("{destination}", "x"), vec!["{destination}"]);
}

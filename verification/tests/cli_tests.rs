use minijudge::cli::{
    assign_testcase_ids, build_testcase_stack, calc_log_level, default_id, detect_language,
    LogLevel, Testcase,
};
use minijudge::languages::DynLanguage;

#[test]
fn test_calc_log_level() {
    assert_eq!(calc_log_level(2, false), LogLevel::Debug);
    assert_eq!(calc_log_level(0, true), LogLevel::Off);

    // Quiet option must override all verbosity options.
    assert_eq!(calc_log_level(2, true), LogLevel::Off);
}

#[test]
fn test_calc_log_level_steps() {
    assert_eq!(calc_log_level(0, false), LogLevel::Warn);
    assert_eq!(calc_log_level(1, false), LogLevel::Info);
    assert_eq!(calc_log_level(3, false), LogLevel::Trace);
    assert_eq!(calc_log_level(4, false), LogLevel::Error);
    assert_eq!(calc_log_level(-1, false), LogLevel::Error);
}

#[test]
fn test_default_id() {
    assert_eq!(default_id(), 0);
}

fn case(input: &str, output: &str) -> Testcase {
    Testcase { id: 7, input: input.to_string(), output: output.to_string() }
}

#[test]
fn test_assign_testcase_ids() {
    let mut testcases = vec![case("a.in", "a.out"), case("b.in", "b.out"), case("c.in", "c.out")];
    assign_testcase_ids(&mut testcases);
    assert_eq!(testcases.len(), 3);
    for (i, tc) in testcases.iter().enumerate() {
        assert_eq!(tc.id, i);
    }
    assert_eq!(testcases[1].input, "b.in");
    assert_eq!(testcases[1].output, "b.out");
}

#[test]
fn test_build_testcase_stack_reverses() {
    let mut testcases = vec![case("a.in", "a.out"), case("b.in", "b.out"), case("c.in", "c.out")];
    assign_testcase_ids(&mut testcases);
    let mut stack = build_testcase_stack(&testcases);
    // Popping yields ascending ids.
    let first = stack.pop().unwrap();
    let second = stack.pop().unwrap();
    let third = stack.pop().unwrap();
    assert_eq!(first.id, 0);
    assert_eq!(second.id, 1);
    assert_eq!(third.id, 2);
    assert!(stack.pop().is_none());
}

fn language(code: &str) -> DynLanguage {
    DynLanguage {
        source_filename: format!("main.{}", code),
        executable_filename: "program".to_string(),
        code: code.to_string(),
        compile_command: vec!["cc".to_string()],
        execute_command: vec!["./program".to_string()],
        compile_flags: None,
        execute_flags: None,
    }
}

#[test]
fn test_detect_language_finds_first_match() {
    let languages = vec![language("cpp"), language("py"), language("rs")];
    let found = detect_language(&languages, "py").unwrap();
    assert_eq!(found.code, "py");
    assert_eq!(found.source_filename, "main.py");
}

#[test]
fn test_detect_language_unknown_code() {
    let languages = vec![language("cpp")];
    assert!(detect_language(&languages, "cobol").is_err());
}

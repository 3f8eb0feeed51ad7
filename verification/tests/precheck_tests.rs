use minijudge::cli::{Metadata, Opts, Testcase};
use minijudge::error::{CompileError, ExecuteError, OptionError};
use minijudge::precheck::{assert_exists, join_path, precheck_metadata, precheck_opts};

fn opts_with_all(path: &str) -> Opts {
    Opts {
        metadata: path.to_string(),
        language: "cpp".to_string(),
        source: path.to_string(),
        checker: path.to_string(),
        checker_language: "cpp".to_string(),
        interactor: None,
        testcases: path.to_string(),
        testlib: path.to_string(),
        sandboxes: 1,
        verdict_format: "json".to_string(),
        verdict: None,
        verbosity: 0,
        quiet: false,
        socket: None,
        languages_definition: path.to_string(),
    }
}

#[test]
fn test_assert_exists_present() {
    assert!(assert_exists("/", "root directory").is_ok());
}

#[test]
fn test_assert_exists_missing_message() {
    let err: OptionError =
        assert_exists("/surely/not/here.txt", "metadata file").unwrap_err();
    assert_eq!(
        err.message,
        "The metadata file specified at /surely/not/here.txt does not exist."
    );
    assert_eq!(
        err.describe(),
        "Option error: The metadata file specified at /surely/not/here.txt does not exist."
    );
}

#[test]
fn test_precheck_opts_all_present() {
    assert!(precheck_opts(&opts_with_all("/")).is_ok());
}

#[test]
fn test_precheck_opts_missing_source() {
    let mut opts = opts_with_all("/");
    opts.source = "/surely/not/here.c".to_string();
    let err = precheck_opts(&opts).unwrap_err();
    assert_eq!(
        err.message,
        "The source file specified at /surely/not/here.c does not exist."
    );
}

#[test]
fn test_precheck_opts_missing_interactor() {
    let mut opts = opts_with_all("/");
    opts.interactor = Some("/surely/not/interactor.cpp".to_string());
    let err = precheck_opts(&opts).unwrap_err();
    assert_eq!(
        err.message,
        "The interactor file specified at /surely/not/interactor.cpp does not exist."
    );
}

#[test]
fn test_error_descriptions() {
    assert_eq!(ExecuteError.describe(), "Execution error.");
    assert_eq!(CompileError.describe(), "Compile error.");
}

#[test]
fn test_join_path() {
    assert_eq!(join_path("/data/tests", "1.in"), "/data/tests/1.in");
}

#[test]
fn test_precheck_metadata_no_cases_succeeds() {
    // With no test cases there is nothing to consult: success is owed even
    // when the testcases root itself is absent.
    let opts = opts_with_all("/surely/not/a/root");
    let metadata = Metadata {
        problem_name: "empty".to_string(),
        time_limit: 1000,
        memory_limit: 65536,
        compile_time_limit: 30000,
        compile_memory_limit: 1048576,
        checker_time_limit: 10000,
        checker_memory_limit: 262144,
        testcases: vec![],
    };
    assert!(precheck_metadata(&opts, &metadata).is_ok());
}

#[test]
fn test_precheck_metadata_missing_input() {
    let opts = opts_with_all("/");
    let metadata = Metadata {
        problem_name: "sum".to_string(),
        time_limit: 1000,
        memory_limit: 65536,
        compile_time_limit: 30000,
        compile_memory_limit: 1048576,
        checker_time_limit: 10000,
        checker_memory_limit: 262144,
        testcases: vec![Testcase {
            id: 0,
            input: "surely-missing.in".to_string(),
            output: "surely-missing.out".to_string(),
        }],
    };
    let err = precheck_metadata(&opts, &metadata).unwrap_err();
    assert_eq!(
        err.message,
        "The input file for test 1 specified at //surely-missing.in does not exist."
    );
}

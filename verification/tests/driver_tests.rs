use minijudge::cli::{Metadata, Opts};
use minijudge::debug::{debug_meta, debug_metadata, debug_opts};
use minijudge::driver::{
    case_run_config, checker_command, checker_compile_config, checker_run_config,
    sandbox_id_assignments, submission_compile_config,
};
use minijudge::meta::Meta;
use minijudge::verdict::Verdict;

fn metadata() -> Metadata {
    Metadata {
        problem_name: "sum".to_string(),
        time_limit: 2000,
        memory_limit: 65536,
        compile_time_limit: 30000,
        compile_memory_limit: 1048576,
        checker_time_limit: 10000,
        checker_memory_limit: 262144,
        testcases: vec![],
    }
}

#[test]
fn test_sandbox_id_assignments_distinct() {
    let ids = sandbox_id_assignments(4);
    assert_eq!(ids, vec![0, 1, 2, 3]);
    for a in 0..ids.len() {
        for b in (a + 1)..ids.len() {
            assert_ne!(ids[a], ids[b]);
        }
    }
}

#[test]
fn test_submission_compile_config() {
    let config = submission_compile_config(&metadata());
    assert_eq!(config.wall_time_limit, 30000);
    assert_eq!(config.time_limit, 30000);
    assert_eq!(config.memory_limit, 1048576);
    assert!(config.full_env);
    assert!(config.unlimited_processes);
    assert!(config.meta_file.is_none());
    assert!(config.additional_flags.is_none());
}

#[test]
fn test_checker_compile_config_extra_flag() {
    let config = checker_compile_config(&metadata());
    assert_eq!(config.additional_flags, Some(vec!["--full-env".to_string()]));
}

#[test]
fn test_case_run_config() {
    let config = case_run_config(&metadata());
    assert_eq!(config.wall_time_limit, 2000);
    assert_eq!(config.time_limit, 2000);
    assert_eq!(config.memory_limit, 65536);
    assert_eq!(config.meta_file.as_deref(), Some("meta.txt"));
    assert_eq!(config.input_file.as_deref(), Some("in.txt"));
    assert_eq!(config.output_file.as_deref(), Some("out.txt"));
    assert!(config.error_file.is_none());
    assert!(!config.full_env);
    assert!(!config.unlimited_processes);
}

#[test]
fn test_checker_run_config() {
    let config = checker_run_config(&metadata());
    assert_eq!(config.wall_time_limit, 10000);
    assert_eq!(config.time_limit, 10000);
    assert_eq!(config.memory_limit, 262144);
    assert_eq!(config.error_file.as_deref(), Some("checker.txt"));
    assert!(config.meta_file.is_none());
}

#[test]
fn test_checker_command() {
    assert_eq!(checker_command(), vec!["checker", "in.txt", "out.txt", "ans.txt"]);
}

fn opts() -> Opts {
    Opts {
        metadata: "meta.yml".to_string(),
        language: "cpp".to_string(),
        source: "main.cpp".to_string(),
        checker: "checker.cpp".to_string(),
        checker_language: "cpp".to_string(),
        interactor: None,
        testcases: "tests".to_string(),
        testlib: "testlib.h".to_string(),
        sandboxes: 2,
        verdict_format: "json".to_string(),
        verdict: None,
        verbosity: 1,
        quiet: false,
        socket: Some("tcp://*:5555".to_string()),
        languages_definition: "languages.yml".to_string(),
    }
}

#[test]
fn test_debug_opts_lines() {
    let lines = debug_opts(&opts());
    assert_eq!(lines.len(), 11);
    assert_eq!(lines[0], "Sandboxes:  2");
    assert_eq!(lines[1], "Metadata:   meta.yml");
    assert_eq!(lines[5], "Interactor: None");
    assert_eq!(lines[8], "Verdict to: stdout (json)");
    assert_eq!(lines[9], "Socket:     tcp://*:5555");
}

#[test]
fn test_debug_metadata_lines() {
    let mut md = metadata();
    md.testcases.push(minijudge::cli::Testcase {
        id: 0,
        input: "1.in".to_string(),
        output: "1.out".to_string(),
    });
    let lines = debug_metadata(&md);
    assert_eq!(lines.len(), 7);
    assert_eq!(lines[0], "Problem name:         sum");
    assert_eq!(lines[1], "Time limit:           2.000");
    assert_eq!(lines[2], "Memory limit:         65536");
    assert_eq!(lines[6], "  1: 1.in -> 1.out");
}

#[test]
fn test_debug_meta_lines() {
    let meta = Meta {
        time: Some(104),
        time_wall: None,
        memory: Some(2048),
        exit_code: Some(0),
        verdict: Some(Verdict::Tle),
    };
    let lines = debug_meta(&meta);
    assert_eq!(lines, vec!["Time: 0.104", "Time-wall: ", "Memory: 2048", "Status: TLE"]);
}

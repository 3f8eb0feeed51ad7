use minijudge::languages::DynLanguage;
use minijudge::sandbox::{ExecuteConfig, Sandbox};

fn sandbox(id: i32) -> Sandbox {
    Sandbox { path: format!("/var/local/lib/isolate/{}", id), id }
}

#[test]
fn test_get_box_path() {
    let sb = sandbox(3);
    assert_eq!(sb.get_box_path(), "/var/local/lib/isolate/3/box");
}

#[test]
fn test_default_execute_config() {
    let config = ExecuteConfig::default();
    assert_eq!(config.wall_time_limit, 0);
    assert_eq!(config.time_limit, 0);
    assert_eq!(config.memory_limit, 0);
    assert!(config.meta_file.is_none());
    assert!(config.input_file.is_none());
    assert!(config.output_file.is_none());
    assert!(config.error_file.is_none());
    assert!(!config.full_env);
    assert!(!config.unlimited_processes);
    assert!(config.additional_flags.is_none());
}

#[test]
fn test_execute_args_case_run() {
    // The exact flag vector of one test-case run, in order.
    let sb = sandbox(0);
    let config = ExecuteConfig {
        wall_time_limit: 2000,
        time_limit: 2000,
        memory_limit: 65536,
        meta_file: Some("meta.txt".to_string()),
        input_file: Some("in.txt".to_string()),
        output_file: Some("out.txt".to_string()),
        error_file: None,
        full_env: false,
        unlimited_processes: false,
        additional_flags: None,
    };
    let command = vec!["./program".to_string()];
    let args = sb.execute_args(&config, &command);
    assert_eq!(
        args,
        vec![
            "--cg",
            "--box-id=0",
            "--wall-time=2.000",
            "--time=2.000",
            "--mem=65536",
            "--run",
            "--stdin=in.txt",
            "--stdout=out.txt",
            "--meta=meta.txt",
            "--",
            "./program",
        ]
    );
}

#[test]
fn test_execute_args_full_env_and_processes() {
    let sb = sandbox(2);
    let config = ExecuteConfig {
        wall_time_limit: 10500,
        time_limit: 10000,
        memory_limit: 262144,
        meta_file: None,
        input_file: None,
        output_file: None,
        error_file: Some("err.txt".to_string()),
        full_env: true,
        unlimited_processes: true,
        additional_flags: Some(vec!["--dir=/etc".to_string()]),
    };
    let command = vec!["gcc".to_string(), "main.c".to_string()];
    let args = sb.execute_args(&config, &command);
    assert_eq!(
        args,
        vec![
            "--cg",
            "--box-id=2",
            "--wall-time=10.500",
            "--time=10.000",
            "--mem=262144",
            "--run",
            "--stderr=err.txt",
            "--full-env",
            "--processes=0",
            "--dir=/etc",
            "--",
            "gcc",
            "main.c",
        ]
    );
}

fn c_language() -> DynLanguage {
    DynLanguage {
        source_filename: "main.c".to_string(),
        executable_filename: "program".to_string(),
        code: "c".to_string(),
        compile_command: vec![
            "/usr/bin/gcc".to_string(),
            "-o".to_string(),
            "{destination}".to_string(),
            "{source}".to_string(),
        ],
        execute_command: vec!["./{executable}".to_string()],
        compile_flags: Some(vec!["--lang-flag".to_string()]),
        execute_flags: None,
    }
}

#[test]
fn test_compile_args_merges_flags_config_first() {
    let sb = sandbox(0);
    let config = ExecuteConfig {
        wall_time_limit: 30000,
        time_limit: 30000,
        memory_limit: 1048576,
        meta_file: None,
        input_file: None,
        output_file: None,
        error_file: None,
        full_env: true,
        unlimited_processes: true,
        additional_flags: Some(vec!["--config-flag".to_string()]),
    };
    let args = sb.compile_args(&c_language(), &config, "main.c", "program");
    assert_eq!(
        args,
        vec![
            "--cg",
            "--box-id=0",
            "--wall-time=30.000",
            "--time=30.000",
            "--mem=1048576",
            "--run",
            "--full-env",
            "--processes=0",
            "--config-flag",
            "--lang-flag",
            "--",
            "/usr/bin/gcc",
            "-o",
            "program",
            "main.c",
        ]
    );
}

#[test]
fn test_run_args_substitutes_executable() {
    let sb = sandbox(1);
    let config = ExecuteConfig {
        wall_time_limit: 1000,
        time_limit: 1000,
        memory_limit: 65536,
        meta_file: Some("meta.txt".to_string()),
        input_file: Some("in.txt".to_string()),
        output_file: Some("out.txt".to_string()),
        error_file: None,
        full_env: false,
        unlimited_processes: false,
        additional_flags: None,
    };
    let args = sb.run_args(&c_language(), &config, "program");
    assert_eq!(
        args,
        vec![
            "--cg",
            "--box-id=1",
            "--wall-time=1.000",
            "--time=1.000",
            "--mem=65536",
            "--run",
            "--stdin=in.txt",
            "--stdout=out.txt",
            "--meta=meta.txt",
            "--",
            "./program",
        ]
    );
}

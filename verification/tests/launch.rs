use fastsave::launch::{
    child_arguments, command_string, default_interpreter, resolve_for_extension,
    resolve_interpreter,
};
use fastsave::record::{elapsed_millis, exit_code_or_sentinel, join_lines};
use fastsave::{
    execute_script, plan_launch, ExecutionError, FastsaveConfig, GitInfo, ProcessOutcome,
    StringMap, Timestamp, TimingError,
};

fn config(pairs: &[(&str, &str)]) -> FastsaveConfig {
    let mut map = StringMap::new();
    for (extension, interpreter) in pairs {
        map.insert(extension.to_string(), interpreter.to_string());
    }
    FastsaveConfig::new(map)
}

fn strings(list: &[&str]) -> Vec<String> {
    list.iter().map(|s| s.to_string()).collect()
}

fn at(secs: i64, nanos: u32) -> Timestamp {
    Timestamp::new(secs, nanos).unwrap()
}

fn outcome(exit_code: Option<i32>, stdout: &[&str], stderr: &[&str]) -> ProcessOutcome {
    ProcessOutcome {
        start_time: at(1_700_000_000, 250_000_000),
        end_time: at(1_700_000_002, 750_500_000),
        exit_code,
        stdout_lines: strings(stdout),
        stderr_lines: strings(stderr),
    }
}

#[test]
fn built_in_defaults() {
    assert_eq!(default_interpreter("py"), Some("python3".to_string()));
    assert_eq!(default_interpreter("sh"), Some("sh".to_string()));
    assert_eq!(default_interpreter("jl"), Some("julia".to_string()));
    assert_eq!(default_interpreter("m"), Some("matlab".to_string()));
    assert_eq!(default_interpreter("exe"), None);
    assert_eq!(default_interpreter("PY"), None);
    assert_eq!(default_interpreter(""), None);
}

#[test]
fn default_is_found_whatever_the_case_of_the_extension() {
    let empty = FastsaveConfig::default();
    assert_eq!(resolve_for_extension("PY", None, &empty), Ok("python3".to_string()));
    assert_eq!(resolve_interpreter("/x/Model.JL", None, &empty), Ok("julia".to_string()));
}

#[test]
fn unsupported_extension_is_named_in_the_error() {
    let empty = FastsaveConfig::default();
    assert_eq!(
        resolve_interpreter("tool.exe", None, &empty),
        Err(ExecutionError::UnsupportedScriptType { extension: "exe".to_string() })
    );
    assert_eq!(
        plan_launch("tool.EXE", "out", &Vec::new(), None, &empty),
        Err(ExecutionError::UnsupportedScriptType { extension: "EXE".to_string() })
    );
}

#[test]
fn missing_extension_fails_even_with_an_override() {
    let ruby = "ruby".to_string();
    let c = config(&[("py", "python3")]);
    assert_eq!(resolve_interpreter("Makefile", Some(&ruby), &c), Err(ExecutionError::NoExtension));
    assert_eq!(resolve_interpreter("dir.d/script", None, &c), Err(ExecutionError::NoExtension));
    assert_eq!(
        plan_launch("script", "out", &Vec::new(), Some(&ruby), &c),
        Err(ExecutionError::NoExtension)
    );
}

#[test]
fn test_interpreter_precedence() {
    let c = config(&[("py", "python3")]);
    let python3 = "python3".to_string();
    let plan = plan_launch("/tmp/a/test.py", "/tmp/a/out", &Vec::new(), Some(&python3), &c).unwrap();
    assert!(plan.command_string.starts_with("python3 "));

    let ruby = "ruby".to_string();
    let plan = plan_launch("/tmp/a/test.py", "/tmp/a/out", &Vec::new(), Some(&ruby), &c).unwrap();
    assert!(plan.command_string.starts_with("ruby "));
    assert_eq!(plan.program, "ruby");
}

#[test]
fn test_interpreter_config_file() {
    let c = config(&[("py", "python3"), ("custom", "custominterpreter")]);
    let plan = plan_launch("/tmp/a/test.py", "/tmp/a/out", &Vec::new(), None, &c).unwrap();
    assert!(plan.command_string.starts_with("python3 "));
    let plan = plan_launch("/tmp/a/job.custom", "/tmp/a/out", &Vec::new(), None, &c).unwrap();
    assert_eq!(plan.command_string, "custominterpreter /tmp/a/job.custom");
}

#[test]
fn test_custom_config_path() {
    let loaded = FastsaveConfig::load_with_config_path(
        Some(config(&[("py", "python3"), ("sh", "bash")])),
        vec![None, None],
    );
    let plan = plan_launch("/tmp/a/test.py", "/tmp/a/out", &Vec::new(), None, &loaded).unwrap();
    assert!(
        plan.command_string.starts_with("python3 "),
        "Expected command to start with 'python3', got: {}",
        plan.command_string
    );
    let plan = plan_launch("/tmp/a/test.sh", "/tmp/a/out", &Vec::new(), None, &loaded).unwrap();
    assert_eq!(plan.program, "bash");
}

#[test]
fn config_beats_the_built_in_default() {
    let c = config(&[("py", "pypy3")]);
    assert_eq!(resolve_interpreter("a.py", None, &c), Ok("pypy3".to_string()));
    assert_eq!(resolve_interpreter("a.sh", None, &c), Ok("sh".to_string()));
}

#[test]
fn test_interpreter_override() {
    let python3 = "python3".to_string();
    let result = execute_script(
        "/tmp/a/test_script.py",
        None,
        Some(&python3),
        &FastsaveConfig::default(),
        None,
        outcome(Some(0), &["Hello from custom interpreter"], &[]),
    )
    .unwrap();
    assert_eq!(result.exit_code, 0);
    assert!(result.command_string.starts_with("python3 "));
}

#[test]
fn test_custom_interpreter() {
    let python3 = "python3".to_string();
    let result = execute_script(
        "/tmp/a/test_script.py",
        None,
        Some(&python3),
        &FastsaveConfig::default(),
        None,
        outcome(Some(0), &["Hello from custom interpreter"], &[]),
    )
    .unwrap();
    assert_eq!(result.exit_code, 0, "Script should execute successfully with custom interpreter");
    assert!(result.stdout.contains("Hello from custom interpreter"));
}

#[test]
fn test_script_with_arguments() {
    let args = strings(&["--rows", "3", "--cols", "4"]);
    let plan = plan_launch(
        "/tmp/a/run_simulation.py",
        "/tmp/a/2024-05-01_run_simulation_run1",
        &args,
        None,
        &FastsaveConfig::default(),
    )
    .unwrap();
    assert_eq!(plan.program, "python3");
    assert_eq!(
        plan.arguments,
        strings(&[
            "/tmp/a/run_simulation.py",
            "--output_dir",
            "/tmp/a/2024-05-01_run_simulation_run1",
            "--rows",
            "3",
            "--cols",
            "4",
        ])
    );
    assert_eq!(plan.command_string, "python3 /tmp/a/run_simulation.py");
}

#[test]
fn command_string_joins_with_one_space() {
    assert_eq!(command_string("python3", "a b.py"), "python3 a b.py");
    assert_eq!(command_string("", ""), " ");
}

#[test]
fn child_arguments_without_extra_arguments() {
    assert_eq!(child_arguments("s.py", "out", &Vec::new()), strings(&["s.py", "--output_dir", "out"]));
}

#[test]
fn record_holds_what_happened() {
    let info = GitInfo {
        repo_root: "/r".to_string(),
        branch: "main".to_string(),
        commit_hash: "abc".to_string(),
        remote_url: "No remote URL found".to_string(),
        is_dirty: false,
        uncommitted_changes: Vec::new(),
    };
    let result = execute_script(
        "/r/job.sh",
        Some("first try".to_string()),
        None,
        &FastsaveConfig::default(),
        Some(info.clone()),
        outcome(None, &["one", "", "two"], &["warning: x"]),
    )
    .unwrap();
    assert_eq!(result.script_path, "/r/job.sh");
    assert_eq!(result.start_time, at(1_700_000_000, 250_000_000));
    assert_eq!(result.end_time, at(1_700_000_002, 750_500_000));
    assert_eq!(result.duration_ms, 2500);
    assert_eq!(result.exit_code, -1);
    assert_eq!(result.stdout, "one\n\ntwo\n");
    assert_eq!(result.stderr, "warning: x\n");
    assert_eq!(result.message, Some("first try".to_string()));
    assert_eq!(result.git_info, Some(info));
    assert!(result.file_hashes.pairs().is_empty());
    assert_eq!(result.command_string, "sh /r/job.sh");
}

#[test]
fn resolution_fails_before_timing_is_looked_at() {
    let mut backwards = outcome(Some(0), &[], &[]);
    backwards.end_time = at(1_600_000_000, 0);
    let failed = execute_script("tool.exe", None, None, &FastsaveConfig::default(), None, backwards);
    assert_eq!(
        failed.unwrap_err(),
        ExecutionError::UnsupportedScriptType { extension: "exe".to_string() }
    );
}

#[test]
fn end_before_start_leaves_no_record() {
    let mut backwards = outcome(Some(0), &[], &[]);
    backwards.end_time = at(1_700_000_000, 249_999_999);
    let failed = execute_script("a.py", None, None, &FastsaveConfig::default(), None, backwards);
    assert_eq!(failed.unwrap_err(), ExecutionError::EndBeforeStart);
}

#[test]
fn overlong_run_leaves_no_record() {
    let mut long = outcome(Some(0), &[], &[]);
    long.start_time = at(i64::MIN, 0);
    long.end_time = at(i64::MAX, 999_999_999);
    let failed = execute_script("a.py", None, None, &FastsaveConfig::default(), None, long);
    assert_eq!(failed.unwrap_err(), ExecutionError::TooLong);
}

#[test]
fn elapsed_milliseconds_are_rounded_down() {
    assert_eq!(elapsed_millis(&at(10, 0), &at(10, 0)), Ok(0));
    assert_eq!(elapsed_millis(&at(10, 0), &at(10, 999_999)), Ok(0));
    assert_eq!(elapsed_millis(&at(10, 0), &at(10, 1_000_000)), Ok(1));
    assert_eq!(elapsed_millis(&at(10, 900_000_000), &at(12, 100_000_000)), Ok(1200));
    assert_eq!(elapsed_millis(&at(-1, 500_000_000), &at(0, 0)), Ok(500));
    assert_eq!(elapsed_millis(&at(0, 0), &at(18_446_744_073_709_551, 615_000_000)), Ok(u64::MAX));
}

#[test]
fn elapsed_milliseconds_fail_outside_their_range() {
    assert_eq!(elapsed_millis(&at(10, 1), &at(10, 0)), Err(TimingError::EndBeforeStart));
    assert_eq!(elapsed_millis(&at(1, 0), &at(0, 999_999_999)), Err(TimingError::EndBeforeStart));
    assert_eq!(
        elapsed_millis(&at(0, 0), &at(18_446_744_073_709_551, 616_000_000)),
        Err(TimingError::TooLong)
    );
}

#[test]
fn timestamp_needs_nanoseconds_within_a_second() {
    assert!(Timestamp::new(0, 999_999_999).is_some());
    assert!(Timestamp::new(0, 1_000_000_000).is_none());
    let t = at(-5, 7);
    assert_eq!((t.secs(), t.nanos()), (-5, 7));
}

#[test]
fn exit_code_falls_back_to_minus_one() {
    assert_eq!(exit_code_or_sentinel(Some(0)), 0);
    assert_eq!(exit_code_or_sentinel(Some(3)), 3);
    assert_eq!(exit_code_or_sentinel(None), -1);
}

#[test]
fn joined_lines_end_each_line_with_a_line_feed() {
    assert_eq!(join_lines(&Vec::new()), "");
    assert_eq!(join_lines(&strings(&["a"])), "a\n");
    assert_eq!(join_lines(&strings(&["a", "", "b c"])), "a\n\nb c\n");
}

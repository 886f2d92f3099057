use omastudio_engine::security::{
    check_hierarchy_directory, hierarchy_steps, may_signal_process_group, secure_environment,
    verify_safe_file, verify_secure_open_file, whitelisted_env_vars, BoundedCapture, CommandError,
    DirectoryVerdict, OpenFileError, OutputStream, PathStep, SafeFileError, StreamCapture,
    MAX_COMMAND_OUTPUT_BYTES,
};

#[test]
fn bounded_capture_times_out_when_child_never_exits() {
    // a child that never exits before the deadline is reported as timed out
    let mut run = BoundedCapture::new();
    run.accept_chunk(OutputStream::Stdout, b"partial").unwrap();
    assert!(!run.is_finished());
    assert!(matches!(run.finish(), Err(CommandError::TimedOut)));
    assert!(may_signal_process_group(4242));
    assert!(!may_signal_process_group(1));
    assert!(!may_signal_process_group(0));
    assert!(!may_signal_process_group(-7));
}

#[test]
fn bounded_capture_collects_output_and_exit_code() {
    let mut run = BoundedCapture::new();
    run.accept_chunk(OutputStream::Stdout, b"hello ").unwrap();
    run.accept_chunk(OutputStream::Stderr, b"warn").unwrap();
    run.accept_chunk(OutputStream::Stdout, b"world").unwrap();
    run.record_exit(Some(3));
    run.record_exit(Some(0));
    assert!(run.is_finished());
    let (code, out, err) = run.finish().unwrap();
    assert_eq!(code, 3);
    assert_eq!(out, b"hello world");
    assert_eq!(err, b"warn");
    let mut killed = BoundedCapture::new();
    killed.record_exit(None);
    assert_eq!(killed.finish().unwrap().0, -1);
}

#[test]
fn bounded_capture_refuses_output_past_cap() {
    let mut run = BoundedCapture::new();
    let big = vec![1u8; MAX_COMMAND_OUTPUT_BYTES];
    run.accept_chunk(OutputStream::Stdout, &big).unwrap();
    assert!(matches!(
        run.accept_chunk(OutputStream::Stdout, b"x"),
        Err(CommandError::StdoutCapExceeded)
    ));
    run.accept_chunk(OutputStream::Stderr, &big[..10]).unwrap();
    assert!(matches!(
        run.accept_chunk(OutputStream::Stderr, &big),
        Err(CommandError::StderrCapExceeded)
    ));
    run.record_exit(Some(0));
    let (_, out, err) = run.finish().unwrap();
    assert_eq!(out.len(), MAX_COMMAND_OUTPUT_BYTES);
    assert_eq!(err.len(), 10);
}

#[test]
fn stream_capture_limits_and_outcomes() {
    let mut run = StreamCapture::new(10);
    run.accept_stdout(6).unwrap();
    assert!(matches!(run.accept_stdout(5), Err(CommandError::OutputLimitExceeded)));
    run.accept_stdout(4).unwrap();
    run.accept_stderr(b"oops");
    run.record_exit(Some(0));
    assert!(!run.is_finished());
    run.close_stdout();
    assert!(run.is_finished());
    assert_eq!(run.finish().unwrap(), 10);

    let mut failed = StreamCapture::new(100);
    failed.accept_stderr(b"bad input");
    failed.accept_stderr(&vec![0u8; MAX_COMMAND_OUTPUT_BYTES]);
    failed.record_exit(Some(2));
    match failed.finish() {
        Err(CommandError::Failed { code, stderr }) => {
            assert_eq!(code, 2);
            assert_eq!(stderr, b"bad input");
        }
        _ => panic!("non-zero exit must fail"),
    }
    let hung = StreamCapture::new(100);
    assert!(matches!(hung.finish(), Err(CommandError::TimedOut)));
}

#[test]
fn opened_file_checks() {
    let reg = 0o100600u32;
    assert_eq!(verify_secure_open_file(reg, 1000, 1000, 42, 100), Ok(42));
    assert_eq!(verify_secure_open_file(0o040700, 1000, 1000, 42, 100), Err(OpenFileError::NotRegularFile));
    assert_eq!(verify_secure_open_file(reg, 0, 1000, 42, 100), Err(OpenFileError::NotOwnedByUser));
    assert_eq!(verify_secure_open_file(0o100640, 1000, 1000, 42, 100), Err(OpenFileError::NotPrivate));
    assert_eq!(verify_secure_open_file(reg, 1000, 1000, 0, 100), Err(OpenFileError::Empty));
    assert_eq!(verify_secure_open_file(reg, 1000, 1000, 101, 100), Err(OpenFileError::TooLarge));
    assert_eq!(verify_secure_open_file(reg, 1000, 1000, 100, 100), Ok(100));
}

#[test]
fn hierarchy_directory_checks() {
    assert_eq!(check_hierarchy_directory(0o040700, 5, 5), DirectoryVerdict::Keep);
    assert_eq!(check_hierarchy_directory(0o040755, 5, 5), DirectoryVerdict::TightenTo0700);
    assert_eq!(check_hierarchy_directory(0o040755, 0, 5), DirectoryVerdict::Keep);
    assert_eq!(check_hierarchy_directory(0o120777, 5, 5), DirectoryVerdict::Reject);
    assert_eq!(check_hierarchy_directory(0o100700, 5, 5), DirectoryVerdict::Reject);
}

#[test]
fn safe_file_check_rejects_symlinks() {
    assert_eq!(verify_safe_file(true, false), Err(SafeFileError::Symlink));
    assert_eq!(verify_safe_file(true, true), Err(SafeFileError::Symlink));
    assert_eq!(verify_safe_file(false, false), Err(SafeFileError::NotRegularFile));
    assert_eq!(verify_safe_file(false, true), Ok(()));
}

fn names(steps: &[PathStep]) -> Vec<String> {
    steps
        .iter()
        .map(|s| match s {
            PathStep::Descend(n) => String::from_utf8(n.clone()).unwrap(),
            PathStep::ParentTraversal => "..".to_string(),
            PathStep::InvalidName => "<nul>".to_string(),
        })
        .collect()
}

#[test]
fn hierarchy_path_steps() {
    assert_eq!(names(&hierarchy_steps(b"/tmp//omaraw/./cache/")), vec!["tmp", "omaraw", "cache"]);
    assert_eq!(names(&hierarchy_steps(b"/tmp/a/../b")), vec!["tmp", "a", "..", "b"]);
    assert_eq!(names(&hierarchy_steps(b"/")), Vec::<String>::new());
    assert_eq!(names(&hierarchy_steps(b"/x/bad\0name")), vec!["x", "<nul>"]);
    assert_eq!(names(&hierarchy_steps(b"/.../..x")), vec!["...", "..x"]);
}

#[test]
fn secured_environment() {
    let names = whitelisted_env_vars();
    assert_eq!(names.len(), 9);
    assert_eq!(names[0], "PATH");
    let mut values: Vec<Option<String>> = vec![None; 9];
    values[0] = Some("/usr/bin".to_string());
    values[3] = Some("en_US.UTF-8".to_string());
    let env = secure_environment(&values);
    let pairs: Vec<(&str, &str)> = env.iter().map(|(k, v)| (k.as_str(), v.as_str())).collect();
    assert_eq!(
        pairs,
        vec![
            ("PATH", "/usr/bin"),
            ("LC_ALL", "en_US.UTF-8"),
            ("LC_ALL", "C"),
            ("GIT_TERMINAL_PROMPT", "0")
        ]
    );
}

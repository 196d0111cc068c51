use scriptisto::opt::{
    BuildMode, BuildModeError, CacheCommand, Command, MissingScript, Opt, Request,
};

#[test]
fn build_mode_reads_its_names() {
    assert_eq!(BuildMode::from_str(""), Ok(BuildMode::Default));
    assert_eq!(BuildMode::from_str("source"), Ok(BuildMode::Source));
    assert_eq!(BuildMode::from_str("full"), Ok(BuildMode::Full));
}

#[test]
fn build_mode_rejects_other_text() {
    assert_eq!(BuildMode::from_str("Full"), Err(BuildModeError));
    assert_eq!(BuildMode::from_str("default"), Err(BuildModeError));
    assert_eq!(BuildMode::from_str(" "), Err(BuildModeError));
    assert_eq!(
        BuildModeError.message(),
        "Incorrect build mode value. Available values: <unset>, source, full."
    );
}

#[test]
fn build_mode_default_is_default() {
    assert_eq!(BuildMode::default(), BuildMode::Default);
    assert!(BuildMode::Default.is_default());
    assert!(!BuildMode::Source.is_default());
    assert!(BuildMode::Full.is_full());
    assert!(!BuildMode::Source.is_full());
}

#[test]
fn request_runs_the_script_with_its_arguments() {
    let opt = Opt {
        command: vec!["./hello.rs".to_string(), "-v".to_string(), "x".to_string()],
        cmd: None,
    };
    assert_eq!(
        opt.request(),
        Ok(Request::Run {
            script_src: "./hello.rs".to_string(),
            args: vec!["-v".to_string(), "x".to_string()],
        })
    );
}

#[test]
fn request_prefers_the_subcommand() {
    let cmd = || Command::Cache { cmd: CacheCommand::Info { file: "./a".to_string() } };
    let opt = Opt { command: vec!["ignored".to_string()], cmd: Some(cmd()) };
    assert_eq!(opt.request(), Ok(Request::Sub(cmd())));
}

#[test]
fn request_needs_a_script_or_a_subcommand() {
    let opt = Opt { command: vec![], cmd: None };
    assert_eq!(opt.request(), Err(MissingScript));
}

#[test]
fn cache_command_names_its_file() {
    assert_eq!(CacheCommand::Clean { file: "a".to_string() }.file(), "a");
    assert_eq!(CacheCommand::Get { name: "n".to_string(), file: "b".to_string() }.file(), "b");
}

use scriptisto::builder::{
    docker_create_volume, docker_image_name, docker_prefix, docker_volume_cmd,
    docker_volume_name, perform, plan_build, plan_rebuild, run_build_command, write_bytes,
    BuildError, BuildPlan, BuildStep, EnvVar, Invocation, DOCKERFILE_NAME, METADATA_FILE,
    SCRIPTISTO_CACHE_DIR_VAR, SCRIPTISTO_SOURCE_DIR_VAR, SCRIPTISTO_SOURCE_VAR,
};
use scriptisto::cfg::{BuildSpec, DockerBuild, File};
use scriptisto::opt::BuildMode;
use scriptisto::staleness::{Decision, TooManyFiles, SCAN_LIMIT};

const CACHE: &str = "/home/u/.cache/scriptisto/bin/home/u/hello.rs";
const SCRIPT: &str = "/home/u/hello.rs";
const PREFIX: &str = "scriptisto-hello.rs-d0a8c8a5dfba7d7ac487bff9e0986a80";

fn s(x: &str) -> String {
    x.to_string()
}

fn strings(xs: &[&str]) -> Vec<String> {
    xs.iter().map(|x| x.to_string()).collect()
}

fn spec(build_cmd: Option<&str>) -> BuildSpec {
    BuildSpec {
        script_src: s("main.rs"),
        build_cmd: build_cmd.map(s),
        build_once_cmd: None,
        target_bin: s("./script"),
        target_interpreter: None,
        replace_shebang_with: String::new(),
        files: vec![File { path: s("main.rs"), content: s("\nfn main() {}") }],
        docker_build: None,
        extra_src_paths: vec![],
        build_in_script_dir: false,
    }
}

fn docker_spec() -> BuildSpec {
    let mut cfg = spec(Some("cargo build"));
    cfg.docker_build = Some(DockerBuild {
        dockerfile: Some(s("FROM rust:1")),
        src_mount_dir: Some(s("/rust")),
        extra_args: strings(&["-v", "cargo-cache:/cargo", "--net=host"]),
    });
    cfg
}

fn run(program: &str, args: &[&str], envs: &[(&str, &str)], dir: &str) -> BuildStep {
    BuildStep::Run(Invocation {
        program: s(program),
        args: strings(args),
        envs: envs.iter().map(|(n, v)| EnvVar { name: s(n), value: s(v) }).collect(),
        current_dir: s(dir),
    })
}

fn write(path: &str, parent: &str, content: &str) -> BuildStep {
    BuildStep::Write { path: s(path), parent: s(parent), content: s(content) }
}

fn marker() -> BuildStep {
    write(
        "/home/u/.cache/scriptisto/bin/home/u/hello.rs/scriptisto.metadata",
        CACHE,
        "",
    )
}

#[test]
fn names_are_fixed() {
    assert_eq!(METADATA_FILE, "scriptisto.metadata");
    assert_eq!(DOCKERFILE_NAME, "Dockerfile.scriptisto");
    assert_eq!(SCRIPTISTO_CACHE_DIR_VAR, "SCRIPTISTO_CACHE_DIR");
    assert_eq!(SCRIPTISTO_SOURCE_DIR_VAR, "SCRIPTISTO_SOURCE_DIR");
    assert_eq!(SCRIPTISTO_SOURCE_VAR, "SCRIPTISTO_SOURCE");
}

#[test]
fn image_and_volume_names_come_from_the_cache_path() {
    assert_eq!(docker_prefix(CACHE), Ok(s(PREFIX)));
    assert_eq!(docker_image_name(CACHE), Ok(s(PREFIX)));
    assert_eq!(docker_volume_name(CACHE), Ok(format!("{}-src", PREFIX)));
    assert_eq!(
        docker_image_name("/cache/bin/x"),
        Ok(s("scriptisto-x-251ea7f04c16a0a200a78fd08ea019ff"))
    );
}

#[test]
fn names_are_the_same_on_every_call() {
    assert_eq!(docker_image_name(CACHE), docker_image_name(CACHE));
    assert_eq!(docker_volume_name(CACHE), docker_volume_name(CACHE));
    assert_ne!(docker_image_name(CACHE), docker_image_name("/cache/bin/x"));
    assert_ne!(docker_volume_name(CACHE), docker_volume_name("/cache/bin/x"));
    // Same last component, different directory: the digest tells them apart.
    assert_ne!(docker_image_name("/a/x"), docker_image_name("/b/x"));
}

#[test]
fn cache_path_without_a_last_component_has_no_names() {
    assert_eq!(docker_prefix("/"), Err(BuildError::InvalidCachePath));
    assert_eq!(docker_image_name("/a/.."), Err(BuildError::InvalidCachePath));
    assert_eq!(docker_volume_name(""), Err(BuildError::InvalidCachePath));
}

#[test]
fn write_bytes_places_a_file_under_the_cache() {
    assert_eq!(write_bytes("/c", "a.txt", "hi"), Ok(write("/c/a.txt", "/c", "hi")));
    assert_eq!(
        write_bytes("/c", "src/deep/main.rs", "x"),
        Ok(write("/c/src/deep/main.rs", "/c/src/deep", "x"))
    );
    assert_eq!(write_bytes("", "", "x"), Err(BuildError::NoParentDirectory));
    assert_eq!(write_bytes("/", "", "x"), Err(BuildError::NoParentDirectory));
    assert_eq!(write_bytes("", "a", "x"), Ok(write("a", "", "x")));
}

#[test]
fn recipe_without_build_command_only_writes_the_marker() {
    let plan = plan_build(&spec(None), SCRIPT, CACHE, true, BuildMode::Default, 1000);
    assert_eq!(plan, BuildPlan { steps: vec![marker()], failure: None });
}

#[test]
fn local_build_runs_the_command_through_the_shell() {
    let plan = plan_build(&spec(Some("rustc main.rs")), SCRIPT, CACHE, false, BuildMode::Default, 1000);
    assert_eq!(
        plan,
        BuildPlan {
            steps: vec![
                run(
                    "/bin/sh",
                    &["-c", "rustc main.rs"],
                    &[
                        ("SCRIPTISTO_CACHE_DIR", CACHE),
                        ("SCRIPTISTO_SOURCE_DIR", "/home/u"),
                        ("SCRIPTISTO_SOURCE", SCRIPT),
                    ],
                    CACHE,
                ),
                marker(),
            ],
            failure: None,
        }
    );
}

#[test]
fn local_build_can_run_in_the_script_directory() {
    let mut cfg = spec(Some("make"));
    cfg.build_in_script_dir = true;
    let plan = plan_build(&cfg, SCRIPT, CACHE, false, BuildMode::Default, 1000);
    match &plan.steps[0] {
        BuildStep::Run(inv) => assert_eq!(inv.current_dir, "/home/u"),
        other => panic!("unexpected step {:?}", other),
    }
}

#[test]
fn once_command_runs_on_the_first_build() {
    let mut cfg = spec(Some("make"));
    cfg.build_once_cmd = Some(s("npm install"));
    let plan = plan_build(&cfg, SCRIPT, CACHE, true, BuildMode::Default, 1000);
    assert_eq!(plan.steps.len(), 3);
    assert_eq!(plan.steps[0], run("/bin/sh", &["-c", "npm install"], &[], CACHE));
}

#[test]
fn once_command_runs_again_only_in_full_mode() {
    let mut cfg = spec(Some("make"));
    cfg.build_once_cmd = Some(s("npm install"));
    let once = run("/bin/sh", &["-c", "npm install"], &[], CACHE);
    let plan = plan_build(&cfg, SCRIPT, CACHE, false, BuildMode::Full, 1000);
    assert_eq!(plan.steps.len(), 3);
    assert_eq!(plan.steps[0], once);
    for mode in [BuildMode::Default, BuildMode::Source] {
        let plan = plan_build(&cfg, SCRIPT, CACHE, false, mode, 1000);
        assert_eq!(plan.steps.len(), 2);
        assert!(!plan.steps.contains(&once));
    }
}

#[test]
fn script_without_a_directory_cannot_build_locally() {
    let plan = plan_build(&spec(Some("make")), "/", CACHE, false, BuildMode::Default, 1000);
    assert_eq!(plan, BuildPlan { steps: vec![], failure: Some(BuildError::NoScriptDirectory) });
}

#[test]
fn container_build_follows_the_protocol() {
    let volume = format!("{}-src", PREFIX);
    let vol_mount = format!("{}:/vol", volume);
    let src_mount = format!("{}:/src", CACHE);
    let label = format!("scriptisto-cache-path={}", CACHE);
    let env = format!("SCRIPTISTO_SOURCE={}", SCRIPT);
    let rust_mount = format!("{}:/rust", volume);
    let plan = plan_build(&docker_spec(), SCRIPT, CACHE, false, BuildMode::Default, 1000);
    assert_eq!(
        plan,
        BuildPlan {
            steps: vec![
                write(
                    "/home/u/.cache/scriptisto/bin/home/u/hello.rs/Dockerfile.scriptisto",
                    CACHE,
                    "FROM rust:1",
                ),
                run("docker", &["volume", "create", &volume], &[], CACHE),
                run(
                    "docker",
                    &[
                        "run", "-t", "--rm", "-v", &vol_mount, "-v", &src_mount, "busybox", "sh",
                        "-c", "cp -rf /src/* /vol/",
                    ],
                    &[],
                    CACHE,
                ),
                run(
                    "docker",
                    &[
                        "build", "-t", PREFIX, "--label", &label, "-f", "Dockerfile.scriptisto", ".",
                    ],
                    &[],
                    CACHE,
                ),
                run(
                    "docker",
                    &[
                        "run", "-t", "--rm", "--env", &env, "-v", &rust_mount, "-v",
                        "cargo-cache:/cargo", "--net=host", PREFIX, "sh", "-c", "cargo build",
                    ],
                    &[],
                    CACHE,
                ),
                run(
                    "docker",
                    &[
                        "run", "-t", "--rm", "-u", "1000", "-v", &vol_mount, "-v", &src_mount,
                        "busybox", "sh", "-c",
                        "mkdir -p $(dirname /src/./script) && cp -rf /vol/./script /src/./script",
                    ],
                    &[],
                    CACHE,
                ),
                marker(),
            ],
            failure: None,
        }
    );
}

#[test]
fn full_mode_builds_the_image_without_cache() {
    let plan = plan_build(&docker_spec(), SCRIPT, CACHE, false, BuildMode::Full, 0);
    match &plan.steps[3] {
        BuildStep::Run(inv) => {
            assert_eq!(inv.args[0], "build");
            assert_eq!(inv.args[1], "--no-cache");
            assert_eq!(inv.args[2], "-t");
        }
        other => panic!("unexpected step {:?}", other),
    }
    let plan = plan_build(&docker_spec(), SCRIPT, CACHE, false, BuildMode::Source, 0);
    match &plan.steps[3] {
        BuildStep::Run(inv) => assert!(!inv.args.contains(&s("--no-cache"))),
        other => panic!("unexpected step {:?}", other),
    }
}

#[test]
fn container_build_without_mount_dir_mounts_nothing() {
    let mut cfg = docker_spec();
    cfg.docker_build = Some(DockerBuild {
        dockerfile: Some(s("FROM x")),
        src_mount_dir: None,
        extra_args: vec![],
    });
    let plan = plan_build(&cfg, SCRIPT, CACHE, false, BuildMode::Default, 0);
    let env = format!("SCRIPTISTO_SOURCE={}", SCRIPT);
    assert_eq!(
        plan.steps[4],
        run(
            "docker",
            &["run", "-t", "--rm", "--env", &env, PREFIX, "sh", "-c", "cargo build"],
            &[],
            CACHE,
        )
    );
}

#[test]
fn docker_part_without_dockerfile_builds_locally() {
    let mut cfg = docker_spec();
    cfg.docker_build =
        Some(DockerBuild { dockerfile: None, src_mount_dir: Some(s("/x")), extra_args: vec![] });
    let plan = plan_build(&cfg, SCRIPT, CACHE, false, BuildMode::Default, 0);
    assert_eq!(plan.steps.len(), 2);
    match &plan.steps[0] {
        BuildStep::Run(inv) => assert_eq!(inv.program, "/bin/sh"),
        other => panic!("unexpected step {:?}", other),
    }
}

#[test]
fn container_build_stops_where_the_names_fail() {
    let plan = plan_build(&docker_spec(), SCRIPT, "/c/..", false, BuildMode::Default, 0);
    assert_eq!(
        plan,
        BuildPlan {
            steps: vec![write("/c/../Dockerfile.scriptisto", "/c/..", "FROM rust:1")],
            failure: Some(BuildError::InvalidCachePath),
        }
    );
}

#[test]
fn absolute_target_is_taken_as_it_is() {
    let mut cfg = docker_spec();
    cfg.target_bin = s("/out/bin");
    let plan = plan_build(&cfg, SCRIPT, CACHE, false, BuildMode::Default, 7);
    match &plan.steps[5] {
        BuildStep::Run(inv) => {
            assert_eq!(inv.args[4], "7");
            assert_eq!(
                inv.args.last().unwrap(),
                "mkdir -p $(dirname /out/bin) && cp -rf /out/bin /out/bin"
            );
        }
        other => panic!("unexpected step {:?}", other),
    }
}

#[test]
fn helper_commands_are_docker_invocations() {
    assert_eq!(
        BuildStep::Run(docker_create_volume("vol", "/c")),
        run("docker", &["volume", "create", "vol"], &[], "/c")
    );
    assert_eq!(
        BuildStep::Run(docker_volume_cmd("vol", "/c", None, "ls")),
        run(
            "docker",
            &["run", "-t", "--rm", "-v", "vol:/vol", "-v", "/c:/src", "busybox", "sh", "-c", "ls"],
            &[],
            "/c",
        )
    );
    assert_eq!(
        BuildStep::Run(docker_volume_cmd("vol", "/c", Some(0), "ls")),
        run(
            "docker",
            &[
                "run", "-t", "--rm", "-u", "0", "-v", "vol:/vol", "-v", "/c:/src", "busybox",
                "sh", "-c", "ls",
            ],
            &[],
            "/c",
        )
    );
}

#[test]
fn run_build_command_plans_for_the_current_user() {
    let plan = run_build_command(&spec(Some("make")), SCRIPT, CACHE, true, BuildMode::Default);
    assert_eq!(plan, plan_build(&spec(Some("make")), SCRIPT, CACHE, true, BuildMode::Default, 0));
    let plan = run_build_command(&docker_spec(), SCRIPT, CACHE, true, BuildMode::Default);
    assert_eq!(plan.steps.len(), 7);
    assert_eq!(plan.failure, None);
}

#[test]
fn rebuild_writes_the_files_first() {
    let mut cfg = spec(Some("cp a.txt out"));
    cfg.files = vec![
        File { path: s("a.txt"), content: s("hi") },
        File { path: s("main.rs"), content: s("") },
    ];
    let decision = Decision { first_run: true, skip_rebuild: false };
    let plan = plan_rebuild(&cfg, SCRIPT, "/c", decision, BuildMode::Default, 0);
    assert_eq!(plan.failure, None);
    assert_eq!(plan.steps.len(), 4);
    assert_eq!(plan.steps[0], write("/c/a.txt", "/c", "hi"));
    assert_eq!(plan.steps[1], write("/c/main.rs", "/c", ""));
    match &plan.steps[2] {
        BuildStep::Run(inv) => assert_eq!(inv.args, strings(&["-c", "cp a.txt out"])),
        other => panic!("unexpected step {:?}", other),
    }
    assert_eq!(plan.steps[3], write("/c/scriptisto.metadata", "/c", ""));
}

#[test]
fn skipped_rebuild_plans_nothing() {
    let decision = Decision { first_run: false, skip_rebuild: true };
    let plan = plan_rebuild(&docker_spec(), SCRIPT, CACHE, decision, BuildMode::Default, 0);
    assert_eq!(plan, BuildPlan { steps: vec![], failure: None });
    assert_eq!(BuildPlan::new(), BuildPlan { steps: vec![], failure: None });
}

#[test]
fn first_run_builds_and_second_run_skips() {
    let mut cfg = spec(Some("cp a.txt out"));
    cfg.files = vec![File { path: s("a.txt"), content: s("hi") }];
    // No marker yet: everything is done, the marker comes last.
    let (decision, plan) =
        perform(BuildMode::Default, &cfg, SCRIPT, "/c", None, Some(100), &vec![]).unwrap();
    assert_eq!(decision, Decision { first_run: true, skip_rebuild: false });
    assert_eq!(plan.failure, None);
    assert_eq!(plan.steps.len(), 3);
    assert_eq!(plan.steps[0], write("/c/a.txt", "/c", "hi"));
    assert_eq!(plan.steps[2], write("/c/scriptisto.metadata", "/c", ""));
    // The marker now is newer than the unchanged script: nothing runs.
    let (decision, plan) =
        perform(BuildMode::Default, &cfg, SCRIPT, "/c", Some(200), Some(100), &vec![]).unwrap();
    assert_eq!(decision, Decision { first_run: false, skip_rebuild: true });
    assert_eq!(plan, BuildPlan { steps: vec![], failure: None });
}

#[test]
fn full_mode_rebuilds_with_the_once_command() {
    let mut cfg = spec(Some("make"));
    cfg.build_once_cmd = Some(s("setup"));
    let (decision, plan) =
        perform(BuildMode::Full, &cfg, SCRIPT, "/c", Some(200), Some(100), &vec![]).unwrap();
    assert_eq!(decision, Decision { first_run: false, skip_rebuild: false });
    assert_eq!(plan.steps[1], run("/bin/sh", &["-c", "setup"], &[], "/c"));
    let (_, plan) =
        perform(BuildMode::Source, &cfg, SCRIPT, "/c", Some(200), Some(100), &vec![]).unwrap();
    assert!(!plan.steps.contains(&run("/bin/sh", &["-c", "setup"], &[], "/c")));
    assert_eq!(plan.steps.len(), 3);
}

#[test]
fn perform_gives_up_on_too_many_files() {
    let stamps = vec![Some(1); SCAN_LIMIT as usize + 1];
    let r = perform(BuildMode::Default, &spec(None), SCRIPT, "/c", Some(200), Some(100), &stamps);
    assert_eq!(r, Err(TooManyFiles));
}

#[test]
fn failed_file_ends_the_plan_before_the_marker() {
    let mut cfg = spec(Some("make"));
    cfg.files = vec![File { path: s("/"), content: s("x") }, File { path: s("b"), content: s("y") }];
    let decision = Decision { first_run: true, skip_rebuild: false };
    let plan = plan_rebuild(&cfg, SCRIPT, "/c", decision, BuildMode::Default, 0);
    assert_eq!(plan, BuildPlan { steps: vec![], failure: Some(BuildError::OutsideCacheDirectory) });
    cfg.files = vec![File { path: s(""), content: s("x") }];
    let plan = plan_rebuild(&cfg, SCRIPT, "", decision, BuildMode::Default, 0);
    assert_eq!(plan, BuildPlan { steps: vec![], failure: Some(BuildError::NoParentDirectory) });
}

#[test]
fn absolute_path_is_not_written() {
    assert_eq!(write_bytes("/c", "/etc/x", "hi"), Err(BuildError::OutsideCacheDirectory));
    assert_eq!(write_bytes("/c", "/c/x", "hi"), Err(BuildError::OutsideCacheDirectory));
    assert_eq!(write_bytes("/c", "/", "hi"), Err(BuildError::OutsideCacheDirectory));
}

#[test]
fn path_that_climbs_is_not_written() {
    for rel in ["../x", "..", "a/../../x", "a/..", "./../x", "a/b/../c"] {
        assert_eq!(write_bytes("/c", rel, "hi"), Err(BuildError::OutsideCacheDirectory));
    }
}

#[test]
fn dots_inside_a_name_do_not_climb() {
    assert_eq!(write_bytes("/c", "..a", "x"), Ok(write("/c/..a", "/c", "x")));
    assert_eq!(write_bytes("/c", "a..", "x"), Ok(write("/c/a..", "/c", "x")));
    assert_eq!(write_bytes("/c", "a/...", "x"), Ok(write("/c/a/...", "/c/a", "x")));
    assert_eq!(write_bytes("/c", "a..b/c", "x"), Ok(write("/c/a..b/c", "/c/a..b", "x")));
    assert_eq!(write_bytes("/c", "./a", "x"), Ok(write("/c/./a", "/c", "x")));
    assert_eq!(write_bytes("/c/", "a", "x"), Ok(write("/c/a", "/c", "x")));
}

#[test]
fn escaping_file_stops_the_plan_where_it_stands() {
    let mut cfg = spec(Some("make"));
    cfg.files = vec![
        File { path: s("a.txt"), content: s("1") },
        File { path: s("../b.txt"), content: s("2") },
        File { path: s("c.txt"), content: s("3") },
    ];
    let decision = Decision { first_run: true, skip_rebuild: false };
    let plan = plan_rebuild(&cfg, SCRIPT, "/c", decision, BuildMode::Default, 0);
    assert_eq!(
        plan,
        BuildPlan {
            steps: vec![write("/c/a.txt", "/c", "1")],
            failure: Some(BuildError::OutsideCacheDirectory),
        }
    );
}

#[test]
fn every_planned_write_stands_under_the_cache() {
    let mut cfg = docker_spec();
    cfg.build_once_cmd = Some(s("setup"));
    cfg.files = vec![
        File { path: s("Cargo.toml"), content: s("") },
        File { path: s("src/main.rs"), content: s("") },
    ];
    let decision = Decision { first_run: true, skip_rebuild: false };
    let plan = plan_rebuild(&cfg, SCRIPT, CACHE, decision, BuildMode::Full, 0);
    assert_eq!(plan.failure, None);
    let mut writes = 0;
    for step in plan.steps.iter() {
        if let BuildStep::Write { path, parent, .. } = step {
            writes += 1;
            assert!(path.starts_with(&format!("{}/", CACHE)));
            assert!(parent.starts_with(CACHE));
        }
    }
    assert_eq!(writes, 4);
}

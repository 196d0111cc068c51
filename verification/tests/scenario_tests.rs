use scriptisto::builder::{perform, BuildError, BuildStep};
use scriptisto::cfg::{extract, BuildSpec, DockerBuild, File, RawBuildSpec, SpecError};
use scriptisto::opt::BuildMode;
use scriptisto::staleness::Decision;

const DOCKER_RUST: &str = "#!/usr/bin/env scriptisto\n\n// scriptisto-begin\n// script_src: src/main.rs\n// build_cmd: \"cargo build --release && cp ./target/*musl*/release/script ./target/script\"\n// target_bin: ./target/script\n// docker_build:\n//    dockerfile: FROM clux/muslrust\n//    src_mount_dir: /volume\n//    extra_args: [-v,cargo-cache:/root/.cargo/registry]\n// files:\n//  - path: Cargo.toml\n//    content: |\n//     package = { name = \"script\", version = \"0.1.0\", edition = \"2018\"}\n//     [dependencies]\n//     rand=\"*\"\n// scriptisto-end\n\nfn main() {\n    println!(\"hello\");\n}\n";

fn text(value: &serde_yaml::Value, key: &str) -> Option<String> {
    value.get(key).and_then(|v| v.as_str()).map(|s| s.to_string())
}

fn texts(value: Option<&serde_yaml::Value>) -> Vec<String> {
    match value.and_then(|v| v.as_sequence()) {
        Some(items) => items.iter().map(|i| i.as_str().unwrap().to_string()).collect(),
        None => vec![],
    }
}

fn decode(cfg_src: &str) -> RawBuildSpec {
    let doc: serde_yaml::Value = serde_yaml::from_str(cfg_src).unwrap();
    let files = match doc.get("files").and_then(|v| v.as_sequence()) {
        Some(items) => items
            .iter()
            .map(|f| File { path: text(f, "path").unwrap(), content: text(f, "content").unwrap() })
            .collect(),
        None => vec![],
    };
    let docker_build = doc.get("docker_build").map(|d| DockerBuild {
        dockerfile: text(d, "dockerfile"),
        src_mount_dir: text(d, "src_mount_dir"),
        extra_args: texts(d.get("extra_args")),
    });
    RawBuildSpec {
        script_src: text(&doc, "script_src"),
        build_cmd: text(&doc, "build_cmd"),
        build_once_cmd: text(&doc, "build_once_cmd"),
        target_bin: text(&doc, "target_bin"),
        target_interpreter: text(&doc, "target_interpreter"),
        replace_shebang_with: text(&doc, "replace_shebang_with"),
        files,
        docker_build,
        extra_src_paths: texts(doc.get("extra_src_paths")),
        build_in_script_dir: doc.get("build_in_script_dir").and_then(|v| v.as_bool()).unwrap_or(false),
    }
}

fn read(script: &str) -> Result<BuildSpec, SpecError> {
    let parts = extract(script.as_bytes()).unwrap();
    BuildSpec::new(decode(&parts.cfg_src), parts.script_lines)
}

#[test]
fn recipe_fields_come_back_out_of_the_script() {
    let spec = read(DOCKER_RUST).unwrap();
    assert_eq!(spec.script_src, "src/main.rs");
    assert_eq!(
        spec.build_cmd.as_deref(),
        Some("cargo build --release && cp ./target/*musl*/release/script ./target/script")
    );
    assert_eq!(spec.build_once_cmd, None);
    assert_eq!(spec.target_bin, "./target/script");
    assert_eq!(spec.target_interpreter, None);
    assert_eq!(spec.replace_shebang_with, "");
    assert_eq!(
        spec.docker_build,
        Some(DockerBuild {
            dockerfile: Some("FROM clux/muslrust".to_string()),
            src_mount_dir: Some("/volume".to_string()),
            extra_args: vec!["-v".to_string(), "cargo-cache:/root/.cargo/registry".to_string()],
        })
    );
    assert!(spec.containerized());
    assert_eq!(spec.files.len(), 2);
    assert_eq!(
        spec.files[0],
        File {
            path: "Cargo.toml".to_string(),
            content: "package = { name = \"script\", version = \"0.1.0\", edition = \"2018\"}\n[dependencies]\nrand=\"*\"".to_string(),
        }
    );
}

#[test]
fn script_file_is_the_body_with_the_first_line_replaced() {
    let spec = read(DOCKER_RUST).unwrap();
    let script = spec.files.last().unwrap();
    assert_eq!(script.path, "src/main.rs");
    let body: Vec<&str> = DOCKER_RUST.lines().collect();
    let written: Vec<&str> = script.content.split('\n').collect();
    assert_eq!(written.len(), body.len());
    assert_eq!(written[0], "");
    assert_eq!(written[1..], body[1..]);
}

#[test]
fn replaced_first_line_is_the_one_the_recipe_gives() {
    let script = "#!/usr/bin/env scriptisto\n# scriptisto-begin\n# script_src: s.py\n# replace_shebang_with: '#!/usr/bin/env python3'\n# target_bin: s.py\n# target_interpreter: python3 -u\n# scriptisto-end\nprint('x')\n";
    let spec = read(script).unwrap();
    assert_eq!(spec.replace_shebang_with, "#!/usr/bin/env python3");
    assert_eq!(spec.target_interpreter.as_deref(), Some("python3 -u"));
    assert_eq!(spec.build_cmd, None);
    assert_eq!(
        spec.files,
        vec![File {
            path: "s.py".to_string(),
            content: "#!/usr/bin/env python3\n# scriptisto-begin\n# script_src: s.py\n# replace_shebang_with: '#!/usr/bin/env python3'\n# target_bin: s.py\n# target_interpreter: python3 -u\n# scriptisto-end\nprint('x')".to_string(),
        }]
    );
}

#[test]
fn recipe_without_script_src_plans_nothing() {
    let script = "#!/x\n// scriptisto-begin\n// build_cmd: cp a.txt out\n// files:\n//  - path: a.txt\n//    content: hi\n// scriptisto-end\n";
    assert_eq!(read(script), Err(SpecError::MissingScriptSrc));
    // A script without a recipe block has an empty recipe, which lacks the field too.
    let parts = extract(b"#!/bin/sh\necho\n").unwrap();
    assert_eq!(parts.cfg_src, "");
}

#[test]
fn recipe_with_an_empty_script_src_plans_nothing() {
    let script = "#!/x\n// scriptisto-begin\n// script_src: \"\"\n// build_cmd: make\n// scriptisto-end\n";
    assert_eq!(read(script), Err(SpecError::EmptyScriptSrc));
}

#[test]
fn recipe_file_outside_the_cache_is_not_written() {
    let script = "#!/x\n// scriptisto-begin\n// script_src: main.txt\n// build_cmd: make\n// files:\n//  - path: ok.txt\n//    content: a\n//  - path: ../../etc/x\n//    content: b\n// scriptisto-end\n";
    let spec = read(script).unwrap();
    let (_, plan) =
        perform(BuildMode::Default, &spec, "/home/u/s", "/cache/s", None, Some(50), &vec![]).unwrap();
    assert_eq!(plan.failure, Some(BuildError::OutsideCacheDirectory));
    assert_eq!(
        plan.steps,
        vec![BuildStep::Write {
            path: "/cache/s/ok.txt".to_string(),
            parent: "/cache/s".to_string(),
            content: "a".to_string(),
        }]
    );
}

#[test]
fn copy_recipe_builds_once_and_then_skips() {
    let script = "#!/x\n// scriptisto-begin\n// script_src: main.txt\n// build_cmd: cp a.txt out\n// target_bin: out\n// files:\n//  - path: a.txt\n//    content: hi\n// scriptisto-end\n";
    let spec = read(script).unwrap();
    assert_eq!(spec.files[0], File { path: "a.txt".to_string(), content: "hi".to_string() });

    let (decision, plan) =
        perform(BuildMode::Default, &spec, "/home/u/s", "/cache/s", None, Some(50), &vec![]).unwrap();
    assert_eq!(decision, Decision { first_run: true, skip_rebuild: false });
    assert_eq!(plan.failure, None);
    assert_eq!(plan.steps.len(), 4);
    assert_eq!(
        plan.steps[0],
        BuildStep::Write {
            path: "/cache/s/a.txt".to_string(),
            parent: "/cache/s".to_string(),
            content: "hi".to_string(),
        }
    );
    match &plan.steps[1] {
        BuildStep::Write { path, .. } => assert_eq!(path, "/cache/s/main.txt"),
        other => panic!("unexpected step {:?}", other),
    }
    match &plan.steps[2] {
        BuildStep::Run(run) => {
            assert_eq!(run.program, "/bin/sh");
            assert_eq!(run.args, vec!["-c".to_string(), "cp a.txt out".to_string()]);
            assert_eq!(run.current_dir, "/cache/s");
        }
        other => panic!("unexpected step {:?}", other),
    }
    assert_eq!(
        plan.steps[3],
        BuildStep::Write {
            path: "/cache/s/scriptisto.metadata".to_string(),
            parent: "/cache/s".to_string(),
            content: String::new(),
        }
    );

    // The marker was written after the script was last changed: nothing runs.
    let (decision, plan) =
        perform(BuildMode::Default, &spec, "/home/u/s", "/cache/s", Some(60), Some(50), &vec![])
            .unwrap();
    assert_eq!(decision, Decision { first_run: false, skip_rebuild: true });
    assert!(plan.steps.is_empty());
    assert_eq!(plan.failure, None);
}

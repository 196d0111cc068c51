use scriptisto::cfg::BuildSpec;
use scriptisto::editor::{edit, editor_candidates, editor_file_name};
use scriptisto::paths::{extension, stem};
use scriptisto::staleness::extra_src_roots;
use scriptisto::target::{split_ascii_whitespace, target_command, EmptyInterpreter};

fn s(x: &str) -> String {
    x.to_string()
}

fn strings(xs: &[&str]) -> Vec<String> {
    xs.iter().map(|x| x.to_string()).collect()
}

#[test]
fn words_are_runs_without_white_space() {
    assert_eq!(split_ascii_whitespace("java -jar"), strings(&["java", "-jar"]));
    assert_eq!(split_ascii_whitespace("  a \t b\n\nc\r\x0c"), strings(&["a", "b", "c"]));
    assert_eq!(split_ascii_whitespace(""), Vec::<String>::new());
    assert_eq!(split_ascii_whitespace(" \t "), Vec::<String>::new());
    assert_eq!(split_ascii_whitespace("one"), strings(&["one"]));
    // Only ASCII white space separates words.
    assert_eq!(split_ascii_whitespace("a\u{a0}b c"), strings(&["a\u{a0}b", "c"]));
}

#[test]
fn words_agree_with_the_standard_split() {
    for text in ["", " ", "a", " a", "a ", "a  b", "\ta\nb\r\nc\x0c", "x \u{2003} y", "  lead", "trail  "] {
        let expected: Vec<String> = text.split_ascii_whitespace().map(|w| w.to_string()).collect();
        assert_eq!(split_ascii_whitespace(text), expected);
    }
}

#[test]
fn target_runs_directly_without_an_interpreter() {
    assert_eq!(
        target_command(&None, "/c/script", &strings(&["-v", "x"])),
        Ok((s("/c/script"), strings(&["/c/script", "-v", "x"])))
    );
    assert_eq!(
        target_command(&Some(s("")), "/c/script", &vec![]),
        Ok((s("/c/script"), strings(&["/c/script"])))
    );
}

#[test]
fn target_is_the_last_argument_of_the_interpreter() {
    assert_eq!(
        target_command(&Some(s("java -jar")), "/c/script.jar", &strings(&["a", "b"])),
        Ok((s("java"), strings(&["java", "-jar", "/c/script.jar", "a", "b"])))
    );
    assert_eq!(
        target_command(&Some(s(" python3 ")), "/c/s.py", &vec![]),
        Ok((s("python3"), strings(&["python3", "/c/s.py"])))
    );
}

#[test]
fn interpreter_of_white_space_starts_nothing() {
    assert_eq!(target_command(&Some(s("  \t")), "/c/script", &vec![]), Err(EmptyInterpreter));
}

#[test]
fn stem_and_extension_split_at_the_last_dot() {
    assert_eq!(stem("main.rs"), "main");
    assert_eq!(extension("main.rs"), Some(s("rs")));
    assert_eq!(stem("a.b.c"), "a.b");
    assert_eq!(extension("a.b.c"), Some(s("c")));
    assert_eq!(stem("noext"), "noext");
    assert_eq!(extension("noext"), None);
    assert_eq!(stem(".profile"), ".profile");
    assert_eq!(extension(".profile"), None);
    assert_eq!(stem("x."), "x");
    assert_eq!(extension("x."), Some(s("")));
    assert_eq!(stem("..."), "..");
    assert_eq!(extension("..."), Some(s("")));
    assert_eq!(stem(""), "");
    assert_eq!(extension(""), None);
}

#[test]
fn stem_and_extension_agree_with_the_standard_path() {
    for name in ["main.rs", "a.b.c", "noext", ".profile", "x.", "...", "a..b", ".a.b", "\u{e9}.\u{e9}"] {
        let path = std::path::Path::new(name);
        let expected_stem = path.file_stem().map(|x| x.to_string_lossy().to_string()).unwrap();
        let expected_ext = path.extension().map(|x| x.to_string_lossy().to_string());
        assert_eq!(stem(name), expected_stem);
        assert_eq!(extension(name), expected_ext);
    }
}

#[test]
fn editor_file_keeps_the_extension() {
    assert_eq!(editor_file_name("rust.rs"), "script.rs");
    assert_eq!(editor_file_name("/t/a.tar.gz"), "script.gz");
    assert_eq!(editor_file_name("Makefile"), "script");
}

#[test]
fn editors_are_tried_in_order() {
    assert_eq!(editor_candidates(None, None), strings(&["vim", "vi"]));
    assert_eq!(
        editor_candidates(Some(s("code -w")), Some(s("nano"))),
        strings(&["code -w", "nano", "vim", "vi"])
    );
    assert_eq!(editor_candidates(None, Some(s("nano"))), strings(&["nano", "vim", "vi"]));
}

#[test]
fn edit_reports_only_a_change() {
    assert_eq!(edit("same", s("same")), None);
    assert_eq!(edit("old", s("new")), Some(s("new")));
    assert_eq!(edit("", s("")), None);
}

#[test]
fn extra_paths_are_taken_from_the_script_directory() {
    let cfg = BuildSpec {
        script_src: s("a"),
        build_cmd: None,
        build_once_cmd: None,
        target_bin: s("./script"),
        target_interpreter: None,
        replace_shebang_with: String::new(),
        files: vec![],
        docker_build: None,
        extra_src_paths: strings(&["lib", "/opt/shared", "../common/x.h", "."]),
        build_in_script_dir: false,
    };
    assert_eq!(
        extra_src_roots(&cfg, "/home/u/hello.rs"),
        Some(strings(&["/home/u/lib", "/opt/shared", "/home/u/../common/x.h", "/home/u/."]))
    );
    assert_eq!(extra_src_roots(&cfg, "/"), None);
}

use scriptisto::paths::{holds_parent_component, is_absolute, join, may_escape};

const SAMPLES: [&str; 22] = [
    "", "/", "a", "a/", "/a", "/a/", "a/b", "./a", "../a", "..", ".", "a/..", "a/../b", "//", "//a",
    "a//b", "...", "..a", "a..", "/..", "\u{e9}/\u{e9}", "a/b/",
];

#[test]
fn join_agrees_with_the_standard_path() {
    for base in SAMPLES {
        for rel in SAMPLES {
            let expected = std::path::Path::new(base).join(rel).to_string_lossy().into_owned();
            assert_eq!(join(base, rel), expected, "join({:?}, {:?})", base, rel);
        }
    }
}

#[test]
fn join_puts_one_separator_between() {
    assert_eq!(join("/tmp", "file.bak"), "/tmp/file.bak");
    assert_eq!(join("/tmp/", "file.bak"), "/tmp/file.bak");
    assert_eq!(join("", "file.bak"), "file.bak");
    assert_eq!(join("/tmp", ""), "/tmp/");
    assert_eq!(join("/etc", "/bin/sh"), "/bin/sh");
}

#[test]
fn absolute_paths_begin_at_the_root() {
    for path in SAMPLES {
        assert_eq!(is_absolute(path), std::path::Path::new(path).is_absolute(), "{:?}", path);
    }
    assert!(is_absolute("/a"));
    assert!(!is_absolute("a/"));
    assert!(!is_absolute(""));
}

#[test]
fn parent_components_are_found_between_separators() {
    for path in SAMPLES {
        let expected = std::path::Path::new(path)
            .components()
            .any(|c| c == std::path::Component::ParentDir);
        assert_eq!(holds_parent_component(path), expected, "{:?}", path);
    }
    assert!(holds_parent_component("a/../b"));
    assert!(holds_parent_component(".."));
    assert!(!holds_parent_component("..."));
    assert!(!holds_parent_component("a..b"));
    assert!(!holds_parent_component("."));
}

#[test]
fn escaping_paths_are_absolute_or_climb() {
    assert!(may_escape("/etc/x"));
    assert!(may_escape("../x"));
    assert!(may_escape("a/b/../../../x"));
    assert!(!may_escape("a/b/c"));
    assert!(!may_escape("./a"));
    assert!(!may_escape(""));
    assert!(!may_escape("Dockerfile.scriptisto"));
    assert!(!may_escape("scriptisto.metadata"));
}

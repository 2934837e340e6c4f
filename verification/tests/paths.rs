use lnshm::path::{file_name, is_absolute, join, normalize};
use std::path::{Component, Path, PathBuf};

#[test]
fn normalize_drops_current_directory_segments() {
    assert_eq!(normalize("/a/./b/."), "/a/b");
    assert_eq!(normalize("./a"), "a");
}

#[test]
fn normalize_cancels_a_name_with_its_parent() {
    assert_eq!(normalize("/a/b/../c"), "/a/c");
    assert_eq!(normalize("a/b/../../c"), "c");
}

#[test]
fn normalize_never_climbs_above_the_root() {
    assert_eq!(normalize("/a/../../b"), "/b");
    assert_eq!(normalize("/.."), "/");
    assert_eq!(normalize("/../.."), "/");
}

#[test]
fn normalize_keeps_leading_parents_of_a_relative_path() {
    assert_eq!(normalize("../a"), "../a");
    assert_eq!(normalize("../../a/.."), "../..");
    assert_eq!(normalize("a/../.."), "..");
}

#[test]
fn normalize_of_nothing_is_the_current_directory() {
    assert_eq!(normalize(""), ".");
    assert_eq!(normalize("."), ".");
    assert_eq!(normalize("a/.."), ".");
    assert_eq!(normalize("./"), ".");
}

#[test]
fn normalize_drops_repeated_and_trailing_separators() {
    assert_eq!(normalize("//a///b/"), "/a/b");
    assert_eq!(normalize("/"), "/");
    assert_eq!(normalize("a/"), "a");
}

#[test]
fn normalize_is_idempotent_on_samples() {
    let samples = [
        "", ".", "..", "/", "//", "a", "/a", "a/b", "/a/b/", "../x", "/../x", "a/./b/../c",
        "/home/u/../v/./cache/", "./../..", "a/b/c/../../..", "..a/.b/...", "/a/../../b",
    ];
    for p in samples {
        let once = normalize(p);
        assert_eq!(normalize(&once), once, "for {:?}", p);
    }
}

fn reference_normal_form(p: &str) -> String {
    let mut stack: Vec<Component> = Vec::new();
    for component in Path::new(p).components() {
        match component {
            Component::CurDir => {}
            Component::ParentDir => match stack.last() {
                Some(Component::Normal(_)) => {
                    stack.pop();
                }
                Some(Component::RootDir) => {}
                _ => stack.push(component),
            },
            other => stack.push(other),
        }
    }
    if stack.is_empty() {
        return String::from(".");
    }
    let mut out = PathBuf::new();
    for item in &stack {
        out.push(item.as_os_str());
    }
    out.to_string_lossy().to_string()
}

#[test]
fn normalize_agrees_with_the_components_of_std() {
    let samples = [
        "", ".", "..", "/", "//", "a", "/a", "a/b", "/a/b/", "../x", "/../x", "a/./b/../c",
        "/home/u/../v/./cache/", "./../..", "a/b/c/../../..", "..a/.b/...", "/a/../../b",
        "./a", "a/.", "/.", "/./", "a//b", "///", ".a", "a/..b/..", "/a/b/../../../c/./d",
    ];
    for p in samples {
        assert_eq!(normalize(p), reference_normal_form(p), "for {:?}", p);
    }
}

#[test]
fn is_absolute_looks_at_the_first_character() {
    assert!(is_absolute("/"));
    assert!(is_absolute("/a/b"));
    assert!(!is_absolute(""));
    assert!(!is_absolute("a/b"));
    assert!(!is_absolute("./a"));
}

#[test]
fn file_name_is_the_last_name() {
    assert_eq!(file_name("/home/u/cache"), Some(String::from("cache")));
    assert_eq!(file_name("/home/u/cache/"), Some(String::from("cache")));
    assert_eq!(file_name("cache/."), Some(String::from("cache")));
    assert_eq!(file_name("a"), Some(String::from("a")));
}

#[test]
fn file_name_is_missing_where_the_path_ends_in_no_name() {
    assert_eq!(file_name("/"), None);
    assert_eq!(file_name(""), None);
    assert_eq!(file_name("."), None);
    assert_eq!(file_name(".."), None);
    assert_eq!(file_name("a/.."), None);
    assert_eq!(file_name("/a/../"), None);
}

#[test]
fn file_name_agrees_with_std() {
    let samples = ["", ".", "..", "/", "a", "/a/", "a/b/.", "a/..", "./a", "/a/b//", "a/./"];
    for p in samples {
        let expected = Path::new(p).file_name().map(|n| n.to_string_lossy().to_string());
        assert_eq!(file_name(p), expected, "for {:?}", p);
    }
}

#[test]
fn join_puts_a_separator_between() {
    assert_eq!(join("/mnt/ram", "cache"), "/mnt/ram/cache");
    assert_eq!(join("/mnt/ram/", "cache"), "/mnt/ram/cache");
    assert_eq!(join("", "cache"), "cache");
    assert_eq!(join("/", "a"), "/a");
    assert_eq!(join("a", ""), "a/");
}

#[test]
fn join_with_an_absolute_path_gives_that_path() {
    assert_eq!(join("/mnt/ram", "/etc"), "/etc");
}

#[test]
fn join_agrees_with_std() {
    let samples = [("", ""), ("a", "b"), ("a/", "b"), ("/", "b"), ("a", "/b"), ("a", ""), ("", "b/")];
    for (base, rel) in samples {
        let expected = Path::new(base).join(rel).to_string_lossy().to_string();
        assert_eq!(join(base, rel), expected, "for {:?} and {:?}", base, rel);
    }
}

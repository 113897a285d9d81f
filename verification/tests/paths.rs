use std::path::{Path, PathBuf};

use devin_sessions::paths::{is_absolute, join};

#[test]
fn absolute_paths_are_those_of_this_machine() {
    for path in ["/", "/a", "a/", "", ".", "C:\\x", "C:x", "\\x", "\\\\server\\share", "//a/b"] {
        assert_eq!(is_absolute(path), Path::new(path).is_absolute(), "{path}");
    }
}

#[test]
fn plainly_relative_paths_are_not_absolute() {
    for path in ["", "a", "a/b", "./a", "../a", ".local/share"] {
        assert!(!is_absolute(path), "{path}");
    }
}

#[test]
fn paths_are_joined_as_on_this_machine() {
    for (base, rest) in [("/a", "b"), ("/a/", "b"), ("", "b"), ("a", "b/c"), ("/a", "/b"), ("a", "")]
    {
        assert_eq!(join(&PathBuf::from(base), rest), Path::new(base).join(rest));
    }
    let joined = join(&PathBuf::from("a"), "b");
    let text = joined.to_str().unwrap();
    assert!(text == "a/b" || text == "a\\b");
}

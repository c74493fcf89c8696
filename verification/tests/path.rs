use std::path::Path;

use api_core::logging::path::file_name;

#[test]
fn file_name_is_the_last_component() {
    assert_eq!(file_name("src/server.rs"), Some("server.rs"));
    assert_eq!(file_name("server.rs"), Some("server.rs"));
    assert_eq!(file_name("/usr/bin/"), Some("bin"));
    assert_eq!(file_name("/a//b///"), Some("b"));
    assert_eq!(file_name("a/.hidden"), Some(".hidden"));
    assert_eq!(file_name("a/..."), Some("..."));
    assert_eq!(file_name("..a"), Some("..a"));
    assert_eq!(file_name("src/päth/ünï.rs"), Some("ünï.rs"));
}

#[test]
fn file_name_passes_over_dots_and_separators() {
    assert_eq!(file_name("foo/."), Some("foo"));
    assert_eq!(file_name("foo/./"), Some("foo"));
    assert_eq!(file_name("foo/././/"), Some("foo"));
    assert_eq!(file_name("./foo"), Some("foo"));
}

#[test]
fn file_name_is_absent() {
    assert_eq!(file_name(""), None);
    assert_eq!(file_name("/"), None);
    assert_eq!(file_name("//"), None);
    assert_eq!(file_name("."), None);
    assert_eq!(file_name("./"), None);
    assert_eq!(file_name("./."), None);
    assert_eq!(file_name("/."), None);
    assert_eq!(file_name(".."), None);
    assert_eq!(file_name("foo/.."), None);
    assert_eq!(file_name("foo/../"), None);
    assert_eq!(file_name("foo/.././"), None);
}

#[test]
fn file_name_agrees_with_the_standard_library_on_unix_paths() {
    let paths = [
        "", "/", ".", "..", "a", "a/", "a/b", "a/b/", "/a", "//a//", "a/.", "a/..", "./a",
        "../a", "a/./b", "a/../b", ".a", "a.", "..a", "a..", "./.", "../.", "./..", "a/b/.",
        "a/b/..", "a//.", "/.", "/..", ".//", "a/.//./", "tests/example.rs",
    ];
    for path in paths {
        let expected = Path::new(path).file_name().and_then(|name| name.to_str());
        if std::path::MAIN_SEPARATOR == '/' {
            assert_eq!(file_name(path), expected);
        }
    }
}

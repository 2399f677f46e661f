//! Joining paths and comparing them.

use sbobino_commands::paths::{is_same_path, join_path, parent_path, path_file_name, PathStyle};

const UNIX: PathStyle = PathStyle::Unix;
const WINDOWS: PathStyle = PathStyle::Windows;

#[test]
fn a_join_writes_the_separator_of_the_platform() {
    assert_eq!(join_path(UNIX, "/data", "bin"), "/data/bin");
    assert_eq!(join_path(WINDOWS, "C:\\data", "bin"), "C:\\data\\bin");
    assert_eq!(join_path(UNIX, "", "bin"), "bin");
    assert_eq!(join_path(UNIX, "/data", ""), "/data/");
}

#[test]
fn a_join_adds_no_separator_where_there_is_one() {
    assert_eq!(join_path(UNIX, "/data/", "bin"), "/data/bin");
    assert_eq!(join_path(WINDOWS, "C:\\data\\", "bin"), "C:\\data\\bin");
    assert_eq!(join_path(WINDOWS, "C:/data/", "bin"), "C:/data/bin");
    assert_eq!(join_path(UNIX, "data\\", "bin"), "data\\/bin");
    assert_eq!(join_path(WINDOWS, "C:", "bin"), "C:bin");
}

#[test]
fn an_absolute_name_replaces_the_directory() {
    assert_eq!(join_path(UNIX, "/models", "/other/model.bin"), "/other/model.bin");
    assert_eq!(join_path(WINDOWS, "C:\\models", "D:\\model.bin"), "D:\\model.bin");
    assert_eq!(join_path(WINDOWS, "C:\\models", "\\model.bin"), "C:\\model.bin");
    assert_eq!(
        join_path(WINDOWS, "\\\\host\\share\\models", "\\model.bin"),
        "\\\\host\\share\\model.bin"
    );
    assert_eq!(
        join_path(WINDOWS, "C:\\models", "\\\\host\\share\\model.bin"),
        "\\\\host\\share\\model.bin"
    );
}

#[test]
fn separators_and_dots_do_not_make_another_path() {
    assert!(is_same_path(UNIX, "/data", "/data/"));
    assert!(is_same_path(UNIX, "/data//x", "/data/x"));
    assert!(is_same_path(UNIX, "/data/./x/.", "/data/x"));
    assert!(is_same_path(UNIX, "data", "data/."));
    assert!(!is_same_path(UNIX, "./data", "data"));
    assert!(!is_same_path(UNIX, "/data", "data"));
    assert!(!is_same_path(UNIX, "/data/..", "/"));
    assert!(!is_same_path(UNIX, "/data", "/DATA"));
    assert!(!is_same_path(UNIX, "a\\b", "a/b"));
}

#[test]
fn paths_of_windows_are_compared_by_their_parts() {
    assert!(is_same_path(WINDOWS, "C:\\data\\x", "c:/data//x/"));
    assert!(!is_same_path(WINDOWS, "C:\\data", "C:data"));
    assert!(!is_same_path(WINDOWS, "C:\\data", "D:\\data"));
    assert!(is_same_path(WINDOWS, "\\\\host\\share\\x", "//host/share/x"));
    assert!(is_same_path(WINDOWS, "\\\\host\\share", "\\\\host\\share\\"));
    assert!(!is_same_path(WINDOWS, "\\\\host\\share", "\\host\\share"));
    assert!(!is_same_path(WINDOWS, "\\\\host\\a\\b", "\\\\host\\b\\b"));
}

#[test]
fn a_path_has_the_directory_before_its_last_name() {
    let parent = |path: &str| parent_path(UNIX, path);
    assert_eq!(parent("/data/bin/tool").as_deref(), Some("/data/bin"));
    assert_eq!(parent("/data//bin/./tool/").as_deref(), Some("/data//bin"));
    assert_eq!(parent("/data").as_deref(), Some("/"));
    assert_eq!(parent("tool").as_deref(), Some(""));
    assert_eq!(parent("./tool").as_deref(), Some("."));
    assert_eq!(parent("."), Some(String::new()));
    assert_eq!(parent("a/..").as_deref(), Some("a"));
    assert_eq!(parent("/"), None);
    assert_eq!(parent(""), None);
    assert_eq!(parent_path(WINDOWS, "C:\\bin\\tool.exe").as_deref(), Some("C:\\bin"));
    assert_eq!(parent_path(WINDOWS, "C:\\tool.exe").as_deref(), Some("C:\\"));
    assert_eq!(parent_path(WINDOWS, "C:tool.exe").as_deref(), Some("C:"));
    assert_eq!(parent_path(WINDOWS, "\\\\host\\share"), None);
    assert_eq!(
        parent_path(WINDOWS, "\\\\host\\share\\tool").as_deref(),
        Some("\\\\host\\share\\")
    );
}

#[test]
fn a_path_has_the_name_that_it_leads_to() {
    assert_eq!(path_file_name(UNIX, "/data/bin/").as_deref(), Some("bin"));
    assert_eq!(path_file_name(UNIX, "/data/bin/.").as_deref(), Some("bin"));
    assert_eq!(path_file_name(UNIX, "/data/.."), None);
    assert_eq!(path_file_name(UNIX, "."), None);
    assert_eq!(path_file_name(UNIX, "/"), None);
    assert_eq!(path_file_name(WINDOWS, "C:/bin\\tool.exe").as_deref(), Some("tool.exe"));
    assert_eq!(path_file_name(WINDOWS, "C:"), None);
}

#[test]
fn paths_are_read_as_the_platform_reads_them() {
    let samples = [
        "", "/", "//", ".", "./", "..", "a", "a/", "/a", "//a", "a/b", "a//b", "a/./b", "./a",
        "a/.", "a/..", "/a/b/", "/./a", "a/b/../c", ".a", "a\\b", "/a/b/.", "././a",
    ];
    for a in samples {
        let path = std::path::Path::new(a);
        let parent = path.parent().map(|p| p.to_string_lossy().to_string());
        assert_eq!(parent_path(UNIX, a), parent, "{a}");
        let name = path.file_name().map(|n| n.to_string_lossy().to_string());
        assert_eq!(path_file_name(UNIX, a), name, "{a}");
        for b in samples {
            let other = std::path::Path::new(b);
            assert_eq!(is_same_path(UNIX, a, b), path == other, "{a} and {b}");
            assert_eq!(join_path(UNIX, a, b), path.join(b).to_string_lossy(), "{a} and {b}");
        }
    }
}

use wasm_pack::path::{ends_with_component_exec, join, prefix_of, str_equal, PathStyle};

const U: PathStyle = PathStyle::Unix;
const W: PathStyle = PathStyle::Windows;

#[test]
fn ends_with_pkg_as_last_component() {
    assert!(ends_with_component_exec(U, "pkg", "pkg"));
    assert!(ends_with_component_exec(U, "crate/pkg", "pkg"));
    assert!(ends_with_component_exec(U, "/home/me/crate/pkg", "pkg"));
    assert!(ends_with_component_exec(U, "./pkg", "pkg"));
}

#[test]
fn trailing_separators_and_dots_are_ignored() {
    assert!(ends_with_component_exec(U, "crate/pkg/", "pkg"));
    assert!(ends_with_component_exec(U, "crate/pkg//", "pkg"));
    assert!(ends_with_component_exec(U, "crate/pkg/.", "pkg"));
    assert!(ends_with_component_exec(U, "crate/pkg/./", "pkg"));
    assert!(ends_with_component_exec(U, "crate//pkg/./.", "pkg"));
}

#[test]
fn other_last_components_do_not_match() {
    assert!(!ends_with_component_exec(U, "crate/apkg", "pkg"));
    assert!(!ends_with_component_exec(U, "crate/pkgs", "pkg"));
    assert!(!ends_with_component_exec(U, "crate/pkg.", "pkg"));
    assert!(!ends_with_component_exec(U, "crate/pkg/..", "pkg"));
    assert!(!ends_with_component_exec(U, "crate/pkg/x", "pkg"));
    assert!(!ends_with_component_exec(U, "pkg/.x", "pkg"));
    assert!(!ends_with_component_exec(U, "", "pkg"));
    assert!(!ends_with_component_exec(U, "/", "pkg"));
    assert!(!ends_with_component_exec(U, ".", "pkg"));
    assert!(!ends_with_component_exec(U, "pk", "pkg"));
}

#[test]
fn ends_with_agrees_with_std_path() {
    let cases = [
        "pkg", "a/pkg", "a/pkg/", "a/pkg/.", "a/pkg/..", "a/pkg./", "a/.pkg", "./pkg", "/pkg",
        "//pkg//", "a/b", ".", "", "/", "pkg/./.", "pkg/a/..", "a/./pkg/./",
    ];
    for c in cases.iter() {
        assert_eq!(
            ends_with_component_exec(U, c, "pkg"),
            std::path::Path::new(c).ends_with("pkg"),
            "case {:?}",
            c
        );
    }
}

#[test]
fn join_appends_a_relative_path_with_one_separator() {
    assert_eq!(join(U, "/crate", "pkg"), "/crate/pkg");
    assert_eq!(join(U, "/crate/", "pkg"), "/crate/pkg");
    assert_eq!(join(U, "", "pkg"), "pkg");
    assert_eq!(join(U, "/crate", "out/dir"), "/crate/out/dir");
}

#[test]
fn join_with_an_absolute_path_replaces_the_base() {
    assert_eq!(join(U, "/crate", "/tmp/out"), "/tmp/out");
}

#[test]
fn join_agrees_with_std_path() {
    let cases = [("/crate", "pkg"), ("/crate/", "pkg"), ("", "pkg"), ("a", "/b"), ("a", ""), ("a/", "b/c")];
    for (base, p) in cases.iter() {
        let expected = std::path::Path::new(base).join(p);
        assert_eq!(join(U, base, p), expected.to_str().unwrap(), "case {:?} {:?}", base, p);
    }
}

#[test]
fn joined_default_out_dir_ends_with_pkg() {
    let out = join(U, "/home/me/crate", "pkg");
    assert!(ends_with_component_exec(U, &out, "pkg"));
    let nested = join(U, "/home/me/crate", "target/pkg");
    assert!(ends_with_component_exec(U, &nested, "pkg"));
}

#[test]
fn str_equal_compares_characters() {
    assert!(str_equal("normal", "normal"));
    assert!(!str_equal("normal", "normals"));
    assert!(!str_equal("force", "forcE"));
    assert!(str_equal("", ""));
    assert!(str_equal("héllo", "héllo"));
}

#[test]
fn windows_paths_use_both_separators() {
    assert!(ends_with_component_exec(W, "C:\\crate\\pkg", "pkg"));
    assert!(ends_with_component_exec(W, "C:/crate/pkg", "pkg"));
    assert!(ends_with_component_exec(W, "C:\\crate\\pkg\\", "pkg"));
    assert!(ends_with_component_exec(W, "C:\\crate\\pkg\\.", "pkg"));
    assert!(ends_with_component_exec(W, "crate\\pkg", "pkg"));
    assert!(!ends_with_component_exec(W, "C:\\crate\\apkg", "pkg"));
    assert!(!ends_with_component_exec(W, "C:\\crate\\pkg\\..", "pkg"));
    // on Unix a backslash is an ordinary character
    assert!(!ends_with_component_exec(U, "C:\\crate\\pkg", "pkg"));
}

#[test]
fn windows_prefixes_are_not_components() {
    assert!(ends_with_component_exec(W, "C:pkg", "pkg"));
    assert!(ends_with_component_exec(W, "\\\\srv\\share\\pkg", "pkg"));
    // the share of a network path is part of its prefix
    assert!(!ends_with_component_exec(W, "\\\\srv\\pkg", "pkg"));
    assert!(!ends_with_component_exec(W, "\\\\?\\pkg", "pkg"));
    assert!(!ends_with_component_exec(W, "\\\\.\\pkg", "pkg"));
    assert!(ends_with_component_exec(W, "\\\\?\\C:\\crate\\pkg", "pkg"));
    assert!(ends_with_component_exec(W, "\\\\?\\UNC\\srv\\share\\pkg", "pkg"));
    // a verbatim path keeps `.` and treats `/` as an ordinary character
    assert!(!ends_with_component_exec(W, "\\\\?\\C:\\crate\\pkg\\.", "pkg"));
    assert!(!ends_with_component_exec(W, "\\\\?\\C:\\crate/pkg", "pkg"));
}

#[test]
fn windows_prefix_lengths() {
    assert_eq!(prefix_of(W, "C:\\x"), (2, false, true));
    assert_eq!(prefix_of(W, "\\\\srv\\share\\x"), (11, false, false));
    assert_eq!(prefix_of(W, "//srv/share/x"), (11, false, false));
    assert_eq!(prefix_of(W, "\\\\srv"), (0, false, false));
    assert_eq!(prefix_of(W, "\\\\?\\C:\\x"), (6, true, true));
    assert_eq!(prefix_of(W, "\\\\?\\UNC\\srv\\share\\x"), (17, true, false));
    assert_eq!(prefix_of(W, "\\\\.\\COM1"), (8, false, false));
    assert_eq!(prefix_of(W, "x\\y"), (0, false, false));
    assert_eq!(prefix_of(U, "C:\\x"), (0, false, false));
}

#[test]
fn windows_join_uses_a_backslash() {
    assert_eq!(join(W, "C:\\crate", "pkg"), "C:\\crate\\pkg");
    assert_eq!(join(W, "C:\\crate\\", "pkg"), "C:\\crate\\pkg");
    assert_eq!(join(W, "C:\\crate/", "pkg"), "C:\\crate/pkg");
    assert_eq!(join(W, "\\\\srv\\share\\crate", "pkg"), "\\\\srv\\share\\crate\\pkg");
    assert_eq!(join(W, "C:", "pkg"), "C:pkg");
}

#[test]
fn windows_join_replaces_or_keeps_the_prefix() {
    assert_eq!(join(W, "C:\\crate", "D:\\out"), "D:\\out");
    assert_eq!(join(W, "C:\\crate", "D:out"), "D:out");
    assert_eq!(join(W, "C:\\crate", "\\out"), "C:\\out");
    assert_eq!(join(W, "\\\\srv\\share\\crate", "/out"), "\\\\srv\\share/out");
    assert_eq!(join(W, "crate", "\\out"), "\\out");
}

#[test]
fn joins_onto_verbatim_bases_are_rebuilt_from_components() {
    assert_eq!(join(W, r"\\?\Volume{x}\crate", "pkg"), r"\\?\Volume{x}\crate\pkg");
    assert_eq!(join(W, r"\\?\C:\crate", "a/../b/./c"), r"\\?\C:\crate\b\c");
    assert_eq!(join(W, r"\\?\C:\crate", r"\out"), r"\\?\C:\out");
    assert_eq!(join(W, r"\\?\C:\crate\.", "pkg"), r"\\?\C:\crate\.\pkg");
    assert_eq!(join(W, r"\\?\C:\crate", r"..\..\.."), r"\\?\C:\");
    assert_eq!(join(W, r"\\?\UNC\srv\share", "pkg"), r"\\?\UNC\srv\share\pkg");
    assert_eq!(join(W, r"\\?\C:\crate", ""), r"\\?\C:\crate\");
    assert_eq!(join(W, r"\\?\C:\crate", "D:out"), "D:out");
}

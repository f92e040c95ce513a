use wasm_pack::command::utils::{
    find_pkg_directory, is_pkg_directory, set_crate_path, strip_unc_prefix, PathStatus,
};
use wasm_pack::path::{join, PathStyle};

const U: PathStyle = PathStyle::Unix;

fn dir(p: &str) -> PathStatus {
    PathStatus { path: p.to_string(), exists: true, is_dir: true }
}

fn file(p: &str) -> PathStatus {
    PathStatus { path: p.to_string(), exists: true, is_dir: false }
}

fn missing(p: &str) -> PathStatus {
    PathStatus { path: p.to_string(), exists: false, is_dir: false }
}

#[test]
fn set_crate_path_uses_the_given_path() {
    assert_eq!(set_crate_path(Some("/home/me/crate".to_string())), "/home/me/crate");
}

#[test]
fn set_crate_path_defaults_to_the_current_directory() {
    assert_eq!(set_crate_path(None), ".");
}

#[test]
fn a_pkg_directory_exists_is_a_directory_and_is_named_pkg() {
    assert!(is_pkg_directory(U, &dir("crate/pkg")));
    assert!(is_pkg_directory(U, &dir("crate/pkg/")));
    assert!(!is_pkg_directory(U, &file("crate/pkg")));
    assert!(!is_pkg_directory(U, &missing("crate/pkg")));
    assert!(!is_pkg_directory(U, &dir("crate/src")));
    assert!(!is_pkg_directory(U, &dir("crate/pkg2")));
}

#[test]
fn find_returns_the_path_itself_when_it_is_the_pkg_directory() {
    let found = find_pkg_directory(U, &dir("/crate/pkg"), Some(vec![Some(dir("/crate/pkg/pkg"))]));
    assert_eq!(found, Some("/crate/pkg".to_string()));
    let found = find_pkg_directory(U, &dir("/crate/pkg"), None);
    assert_eq!(found, Some("/crate/pkg".to_string()));
}

#[test]
fn find_returns_the_first_pkg_entry() {
    let entries = vec![
        Some(file("/crate/Cargo.toml")),
        Some(dir("/crate/src")),
        Some(dir("/crate/pkg")),
        Some(dir("/crate/other/pkg")),
    ];
    assert_eq!(find_pkg_directory(U, &dir("/crate"), Some(entries)), Some("/crate/pkg".to_string()));
}

#[test]
fn find_skips_entries_that_could_not_be_read() {
    let entries = vec![None, Some(file("/crate/pkg")), None, Some(dir("/crate/x/pkg"))];
    assert_eq!(
        find_pkg_directory(U, &dir("/crate"), Some(entries)),
        Some("/crate/x/pkg".to_string())
    );
}

#[test]
fn find_returns_none_without_a_pkg_directory() {
    let entries = vec![Some(dir("/crate/src")), Some(file("/crate/pkg")), None];
    assert_eq!(find_pkg_directory(U, &dir("/crate"), Some(entries)), None);
    assert_eq!(find_pkg_directory(U, &dir("/crate"), Some(vec![])), None);
}

#[test]
fn find_returns_none_when_the_directory_cannot_be_read() {
    assert_eq!(find_pkg_directory(U, &missing("/nowhere"), None), None);
}

#[test]
fn unc_prefix_is_stripped() {
    let wide: Vec<u16> = "\\\\?\\C:\\crate".encode_utf16().collect();
    let expected: Vec<u16> = "C:\\crate".encode_utf16().collect();
    assert_eq!(strip_unc_prefix(&wide), expected);
}

#[test]
fn network_share_keeps_its_unc_form() {
    let wide: Vec<u16> = "\\\\?\\UNC\\srv\\share\\crate".encode_utf16().collect();
    let expected: Vec<u16> = "\\\\srv\\share\\crate".encode_utf16().collect();
    assert_eq!(strip_unc_prefix(&wide), expected);
    let bare: Vec<u16> = "\\\\?\\UNC\\".encode_utf16().collect();
    assert_eq!(strip_unc_prefix(&bare), "\\\\".encode_utf16().collect::<Vec<u16>>());
    let short: Vec<u16> = "\\\\?\\UNC".encode_utf16().collect();
    assert_eq!(strip_unc_prefix(&short), "UNC".encode_utf16().collect::<Vec<u16>>());
}

#[test]
fn paths_without_unc_prefix_are_kept() {
    let wide: Vec<u16> = "C:\\crate".encode_utf16().collect();
    assert_eq!(strip_unc_prefix(&wide), wide);
    let short: Vec<u16> = "\\\\?/x".encode_utf16().collect();
    assert_eq!(strip_unc_prefix(&short), short);
    let exact: Vec<u16> = "\\\\?\\".encode_utf16().collect();
    assert_eq!(strip_unc_prefix(&exact), Vec::<u16>::new());
}

#[test]
fn windows_pkg_directory_is_found() {
    let w = PathStyle::Windows;
    assert!(is_pkg_directory(w, &dir("C:\\w\\pkg")));
    let entries = vec![Some(dir("C:\\w\\src")), Some(dir("C:\\w\\pkg"))];
    assert_eq!(find_pkg_directory(w, &dir("C:\\w"), Some(entries)), Some("C:\\w\\pkg".to_string()));
}

#[test]
fn a_listed_pkg_child_is_found() {
    let d = "/home/me/crate";
    let entries: Vec<Option<PathStatus>> = ["Cargo.toml", "src", "pkg", "target"]
        .iter()
        .map(|n| {
            let p = join(U, d, n);
            Some(if *n == "Cargo.toml" { file(&p) } else { dir(&p) })
        })
        .collect();
    assert_eq!(find_pkg_directory(U, &dir(d), Some(entries)), Some(join(U, d, "pkg")));
}

#[test]
fn stripping_a_verbatim_drive_path_gives_it_back() {
    let q: Vec<u16> = "D:\\work\\crate".encode_utf16().collect();
    let mut wide: Vec<u16> = "\\\\?\\".encode_utf16().collect();
    wide.extend_from_slice(&q);
    assert_eq!(strip_unc_prefix(&wide), q);
}

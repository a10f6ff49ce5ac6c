use open_pdf_studio::paths::{file_name_of, join_path, lowercase_of, paths_equal};
use open_pdf_studio::settings::str_eq;

#[test]
fn file_names() {
    assert_eq!(file_name_of("/a/b/c.pdf").as_deref(), Some("c.pdf"));
    assert_eq!(file_name_of("c.pdf").as_deref(), Some("c.pdf"));
    assert_eq!(file_name_of("/a/b/").as_deref(), Some("b"));
    assert_eq!(file_name_of("/"), None);
    assert_eq!(file_name_of("a/.."), None);
}

#[test]
fn path_components_and_equality() {
    assert_eq!(join_path("/a", "b.pdf"), "/a/b.pdf");
    assert!(paths_equal("/a//b/./c", "/a/b/c"));
    assert!(paths_equal("/a//b/", "/a/b"));
    assert!(paths_equal("a/./b", "a/b"));
    assert!(!paths_equal("/a/b", "a/b"));
    assert!(!paths_equal("/a/b", "/a/B"));
}

#[test]
fn lowercasing() {
    assert_eq!(lowercase_of("ÄbC.PDF"), "äbc.pdf");
    assert_eq!(lowercase_of(""), "");
}

#[test]
fn string_equality() {
    assert!(str_eq("abc", "abc"));
    assert!(!str_eq("abc", "abd"));
    assert!(!str_eq("abc", "ab"));
}

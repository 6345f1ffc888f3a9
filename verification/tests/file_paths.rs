use tempest::pipeline::file_paths::resolve_file;

#[test]
fn relative_paths_resolve_from_the_spec_directory() {
    assert_eq!(resolve_file("/suite", Some("/suite/api"), "fixtures/avatar.png"), Ok("/suite/api/fixtures/avatar.png".to_string()));
    assert_eq!(resolve_file("/suite", None, "fixtures/a.bin"), Ok("/suite/fixtures/a.bin".to_string()));
    assert_eq!(resolve_file("/suite", Some(""), "a.bin"), Ok("a.bin".to_string()));
}

#[test]
fn rooted_paths_resolve_from_the_suite_root() {
    assert_eq!(resolve_file("/suite/", Some("/suite/api"), "/shared/avatar.png"), Ok("/suite/shared/avatar.png".to_string()));
    assert_eq!(resolve_file("/suite", Some("/suite/api"), "//x"), Ok("/suite/x".to_string()));
}

#[test]
fn paths_may_not_escape_their_root() {
    assert!(resolve_file("/suite", Some("/suite/api"), "../secret").is_err());
    assert!(resolve_file("/suite", None, "/a/../../etc/passwd").is_err());
    assert!(resolve_file("/suite", None, "a/..").is_err());
    assert!(resolve_file("/suite", None, "").is_err());
    assert_eq!(resolve_file("/suite", None, "a/..b/c"), Ok("/suite/a/..b/c".to_string()));
}

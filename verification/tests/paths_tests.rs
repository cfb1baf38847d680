use graphsync::paths::{
    confine_to_root, file_name, is_absolute_path, join_path, normalize_relative_path, parent,
    relative_path_from_root, resolve_safe_path, starts_with_path, PathError,
};

#[test]
fn normalizes_backslashes_and_dots() {
    assert_eq!(normalize_relative_path("pages\\./foo.md").unwrap(), "pages/foo.md");
    assert_eq!(normalize_relative_path("./a//b/").unwrap(), "a/b");
    assert_eq!(normalize_relative_path("pages/foo.md").unwrap(), "pages/foo.md");
    assert_eq!(normalize_relative_path("").unwrap(), "");
    assert_eq!(normalize_relative_path(".").unwrap(), "");
}

#[test]
fn rejects_traversal_anywhere() {
    assert_eq!(normalize_relative_path("../x"), Err(PathError::Traversal));
    assert_eq!(normalize_relative_path("a/../b"), Err(PathError::Traversal));
    assert_eq!(normalize_relative_path("a..b"), Err(PathError::Traversal));
    assert_eq!(normalize_relative_path("a\\..\\b"), Err(PathError::Traversal));
}

#[test]
fn rejects_absolute_paths() {
    assert_eq!(normalize_relative_path("/etc/passwd"), Err(PathError::Absolute));
    assert_eq!(normalize_relative_path("\\windows"), Err(PathError::Absolute));
}

#[test]
fn normalization_is_stable() {
    for p in ["a//b/./c", "x\\y", "./.hidden/f.txt", "q"] {
        let once = normalize_relative_path(p).unwrap();
        assert_eq!(normalize_relative_path(&once).unwrap(), once);
    }
}

#[test]
fn relative_path_below_root() {
    assert_eq!(relative_path_from_root("/home/u/graph", "/home/u/graph/pages/a.md").unwrap(), "pages/a.md");
    assert_eq!(relative_path_from_root("/home/u/graph/", "/home/u/graph//pages/./a.md").unwrap(), "pages/a.md");
    assert_eq!(relative_path_from_root("/home/u/graph", "/home/u/graph").unwrap(), "");
}

#[test]
fn relative_path_outside_root() {
    assert_eq!(relative_path_from_root("/home/u/graph", "/home/u/other/a.md"), Err(PathError::OutsideRoot));
    assert_eq!(relative_path_from_root("/home/u/graph", "/home/u/graphs/a.md"), Err(PathError::OutsideRoot));
}

#[test]
fn resolve_joins_normalized_path() {
    assert_eq!(resolve_safe_path("/root/g", "pages\\a.md").unwrap(), "/root/g/pages/a.md");
    assert_eq!(resolve_safe_path("/root/g/", "a.md").unwrap(), "/root/g/a.md");
    assert_eq!(resolve_safe_path("/root/g", "../a.md"), Err(PathError::Traversal));
}

#[test]
fn resolve_then_relativize_round_trip() {
    for (root, rel) in [("/root/g", "a\\b.md"), ("/", "x/y"), ("rel/dir", "./z"), ("/r", "")] {
        let dest = resolve_safe_path(root, rel).unwrap();
        assert_eq!(relative_path_from_root(root, &dest).unwrap(), normalize_relative_path(rel).unwrap());
        assert!(starts_with_path(&dest, root));
    }
}

#[test]
fn confinement_check() {
    assert_eq!(confine_to_root("/r/a".to_string(), "/r", "/r/sub").unwrap(), "/r/a");
    assert_eq!(confine_to_root("/r/a".to_string(), "/r", "/other"), Err(PathError::EscapesRoot));
}

#[test]
fn path_parts() {
    assert_eq!(file_name("/a/b.txt").as_deref(), Some("b.txt"));
    assert_eq!(file_name("/a/b/"), Some("b".to_string()));
    assert_eq!(file_name("/"), None);
    assert_eq!(file_name("a/.."), None);
    assert_eq!(parent("/a/b.txt").as_deref(), Some("/a"));
    assert_eq!(parent("/a").as_deref(), Some("/"));
    assert_eq!(parent("a").as_deref(), Some(""));
    assert_eq!(parent("/"), None);
    assert!(is_absolute_path("/x"));
    assert!(!is_absolute_path("x"));
    assert_eq!(join_path("/a", "b"), "/a/b");
    assert_eq!(join_path("", "b"), "b");
    assert_eq!(join_path("/a/", "b"), "/a/b");
}

#[test]
fn relativize_then_resolve_round_trip() {
    for p in ["/data/g/pages/a.md", "/data/g//pages/./b.md", "/data/g/x", "/data/g/"] {
        let rel = relative_path_from_root("/data/g", p).unwrap();
        let back = resolve_safe_path("/data/g", &rel).unwrap();
        let comps = |s: &str| s.split('/').filter(|c| !c.is_empty() && *c != ".").map(String::from).collect::<Vec<_>>();
        assert_eq!(comps(&back), comps(p), "{p}");
    }
}

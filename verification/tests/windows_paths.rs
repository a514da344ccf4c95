use superzed_session::path::{HostPath, PathStyle};
use superzed_session::path_order::{distinct_paths, find_innermost, is_path_le};
use superzed_session::roots::Canonicalization;
use superzed_session::session::{validate_project_spec, ProjectRoot, ProjectSpec};

fn windows(text: &str) -> HostPath {
    HostPath::with_style(PathStyle::Windows, text)
}

fn parent(text: &str) -> Option<String> {
    windows(text).parent().map(|parent| parent.text)
}

fn joined(base: &str, other: &str) -> String {
    windows(base).join(other).text
}

#[test]
fn absolute_windows_paths_have_a_prefix_and_a_root() {
    for text in [
        r"C:\code",
        "c:/code",
        r"\\server\share",
        r"\\server\share\code",
        "//server/share/code",
        r"\\?\C:\code",
        r"\\?\UNC\server\share\code",
        r"\\.\COM1",
    ] {
        assert!(windows(text).is_absolute(), "{text}");
    }
    for text in ["", "code", r"C:code", r"\code", "/code", r"\\server", "1:/code"] {
        assert!(!windows(text).is_absolute(), "{text}");
    }
    assert!(!HostPath::new(r"C:\code").is_absolute());
}

#[test]
fn windows_paths_are_compared_by_components() {
    assert_eq!(windows(r"C:\code\app"), windows("c:/code//./app/"));
    assert_ne!(windows(r"C:\code"), windows(r"D:\code"));
    assert_ne!(windows(r"C:\code"), windows(r"C:code"));
    assert_ne!(windows(r"C:\code"), windows(r"\\?\C:\code"));
    assert_eq!(windows(r"\\server\share"), windows("//server/share/"));
    assert_ne!(windows("code"), HostPath::new("code"));
    assert!(windows(r"C:\code\app").starts_with(&windows("c:/code")));
    assert!(!windows(r"C:\codex").starts_with(&windows(r"C:\code")));
    assert!(!windows(r"\code").starts_with(&windows(r"C:\code")));
    assert_ne!(windows(r"\\?\C:\a\.\b"), windows(r"\\?\C:\a\b"));
}

#[test]
fn windows_paths_have_parents_and_names() {
    assert_eq!(parent(r"C:\code\app"), Some(r"C:\code".to_string()));
    assert_eq!(parent("c:/code/app"), Some(r"c:\code".to_string()));
    assert_eq!(parent(r"C:\code"), Some(r"C:\".to_string()));
    assert_eq!(parent(r"C:\"), None);
    assert_eq!(parent("C:"), None);
    assert_eq!(parent("C:code"), Some("C:".to_string()));
    assert_eq!(parent(r"\\server\share"), None);
    assert_eq!(parent(r"\\server\share\code"), Some(r"\\server\share\".to_string()));
    assert_eq!(parent(r"\\?\C:\code"), Some(r"\\?\C:\".to_string()));
    assert_eq!(
        parent(r"\\?\UNC\server\share\a\b"),
        Some(r"\\?\UNC\server\share\a".to_string())
    );
    assert_eq!(parent(r"\\?\UNC\server\\a\b"), Some(r"\\?\UNC\server\\a".to_string()));
    assert_eq!(parent("code"), Some(String::new()));
    let name = |text: &str| windows(text).file_name();
    assert_eq!(name(r"C:\code\main.rs"), Some("main.rs".to_string()));
    assert_eq!(name(r"C:\"), None);
    assert_eq!(name(r"\\server\share"), None);
    assert_eq!(name(r"\\?\C:\a/b"), Some("a/b".to_string()));
    assert_eq!(name(r"C:\code\.."), None);
    assert_eq!(HostPath::new(r"/a\b").file_name(), Some(r"a\b".to_string()));
}

#[test]
fn windows_paths_are_extended() {
    assert_eq!(joined(r"C:\code", "app"), r"C:\code\app");
    assert_eq!(joined(r"C:\", "app"), r"C:\app");
    assert_eq!(joined("C:/", "app"), "C:/app");
    assert_eq!(joined("C:", "app"), "C:app");
    assert_eq!(joined(r"C:\code", r"D:\other"), r"D:\other");
    assert_eq!(joined(r"C:\code", r"\other"), r"C:\other");
    assert_eq!(joined(r"\\?\C:\code", "app/../main.rs"), r"\\?\C:\code\main.rs");
    assert_eq!(joined(r"\\?\C:\code", r"\other"), r"\\?\C:\other");
    let mut search = Canonicalization::new(windows(r"C:\code\new\file"));
    assert!(search.step_up());
    assert!(search.step_up());
    assert_eq!(search.ancestor.text, r"C:\code");
    let resolved = search.finish(windows(r"\\?\C:\real"));
    assert_eq!(resolved.text, r"\\?\C:\real\new\file");
}

#[test]
fn windows_paths_are_ordered() {
    let ordered = [
        r"\\?\name",
        r"\\?\UNC\server\share",
        r"\\?\C:\code",
        r"\\.\COM1",
        r"\\server\share",
        "C:code",
        r"D:\code",
        r"\code",
        "code",
    ];
    for pair in ordered.windows(2) {
        assert!(is_path_le(&windows(pair[0]), &windows(pair[1])), "{pair:?}");
        assert!(!is_path_le(&windows(pair[1]), &windows(pair[0])), "{pair:?}");
    }
    assert!(is_path_le(&HostPath::new("/b"), &windows("a")));
    let shares = [r"\\.srv\share", r"\\nas\a", r"\\nas\b", r"\\nas-2\a", r"\\nas2\a"];
    for pair in shares.windows(2) {
        assert!(is_path_le(&windows(pair[0]), &windows(pair[1])), "{pair:?}");
        assert!(!is_path_le(&windows(pair[1]), &windows(pair[0])), "{pair:?}");
    }
    assert!(is_path_le(&windows(r"\\.\COM1"), &windows(r"\\.srv\share")));
    assert!(!is_path_le(&windows(r"\\.srv\share"), &windows(r"\\.\COM1")));
    assert!(is_path_le(&windows(r"\\-srv\share"), &windows(r"\\.srv\share")));
    let distinct = distinct_paths(&vec![windows(r"C:\b"), windows("c:/b"), windows(r"C:\a")]);
    assert_eq!(distinct.len(), 2);
    let directories = vec![windows(r"C:\code"), windows(r"C:\code\app")];
    assert_eq!(find_innermost(&windows("c:/code/app/main.rs"), &directories), Some(1));
}

#[test]
fn windows_roots_are_accepted() {
    let spec = |paths: &[&str]| ProjectSpec {
        roots: paths
            .iter()
            .map(|path| ProjectRoot {
                requested_path: windows(path),
                canonical_path: windows(path),
            })
            .collect(),
    };
    assert!(validate_project_spec(&spec(&[r"C:\code", r"\\server\share\code"])).is_ok());
    assert!(validate_project_spec(&spec(&[r"C:\code", "c:/code/"])).is_err());
    assert!(validate_project_spec(&spec(&[r"\code"])).is_err());
}

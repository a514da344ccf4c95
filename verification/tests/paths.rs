use superzed_session::path::HostPath;
use superzed_session::path_order::{detail_for, distinct_paths, find_innermost, is_path_le};
use superzed_session::text_order::{is_text_le, sort_places};
use superzed_session::text_span::{count_bytes, join_texts, trim_start};

fn path(text: &str) -> HostPath {
    HostPath::new(text)
}

#[test]
fn paths_are_compared_by_components() {
    assert_eq!(path("/code//src/."), path("/code/src"));
    assert_ne!(path("code/src"), path("/code/src"));
    assert_ne!(path("./code"), path("code"));
    assert!(path("/code/src").starts_with(&path("/code")));
    assert!(!path("/codes").starts_with(&path("/code")));
    assert!(path("/code").is_absolute());
    assert!(!path("code").is_absolute());
}

#[test]
fn paths_have_parents_and_names() {
    assert_eq!(path("/code/src/").file_name(), Some("src".to_string()));
    assert_eq!(path("/").file_name(), None);
    assert_eq!(path("..").file_name(), None);
    assert_eq!(path("/code/src").parent().unwrap().as_str(), "/code");
    assert_eq!(path("/").parent(), None);
    assert_eq!(path("/code").join("src").as_str(), "/code/src");
    assert_eq!(path("/code").join("/src").as_str(), "/src");
    let joined = path("/code/").join("main.rs");
    assert_eq!(joined.file_name(), Some("main.rs".to_string()));
    assert_eq!(joined.parent().unwrap(), path("/code"));
}

#[test]
fn paths_are_ordered_by_components() {
    assert!(is_path_le(&path("/a"), &path("/a/b")));
    assert!(!is_path_le(&path("/a/b"), &path("/a")));
    assert!(is_path_le(&path("/a/b"), &path("/a-b")));
    assert!(is_path_le(&path("/z"), &path("a")));
    assert!(is_path_le(&path(".."), &path("-")));
    assert!(is_path_le(&path("/a/"), &path("/a")));
    assert!(is_path_le(&path("/a"), &path("/a/")));
}

#[test]
fn the_order_agrees_with_std_paths() {
    let texts = ["/", "/a", "/a/b", "/a-b", "a", "./a", "../a", "a/..", "", "/B", "/é", "/~"];
    for left in texts {
        for right in texts {
            let expected = std::path::Path::new(left) <= std::path::Path::new(right);
            assert_eq!(is_path_le(&path(left), &path(right)), expected, "{left} {right}");
        }
    }
}

#[test]
fn distinct_paths_are_sorted() {
    let paths = vec![path("/b"), path("/a/"), path("/b/"), path("/a/x"), path("/a")];
    let distinct = distinct_paths(&paths);
    assert_eq!(distinct, vec![path("/a"), path("/a/x"), path("/b")]);
    assert_eq!(detail_for(&path("/a/x/"), &distinct, &vec![0, 2, 1]), 2);
    assert_eq!(detail_for(&path("/c"), &distinct, &vec![0, 2, 1]), 0);
    assert_eq!(detail_for(&path("/b"), &distinct, &vec![0]), 0);
}

#[test]
fn the_innermost_directory_is_found() {
    let directories = vec![path("/code"), path("/code/inner"), path("/other"), path("/code/")];
    assert_eq!(find_innermost(&path("/code/inner/src"), &directories), Some(1));
    assert_eq!(find_innermost(&path("/code/src"), &directories), Some(3));
    assert_eq!(find_innermost(&path("/elsewhere"), &directories), None);
}

#[test]
fn texts_are_sorted_stably() {
    let keys: Vec<String> = ["b", "a", "b", "", "a"].iter().map(|key| key.to_string()).collect();
    assert_eq!(sort_places(&keys), vec![3, 1, 4, 0, 2]);
    assert!(is_text_le("a", "ab"));
    assert!(!is_text_le("b", "ab"));
    assert!(is_text_le("Z", "a"));
}

#[test]
fn texts_are_joined_and_measured() {
    let parts: Vec<String> = vec!["a".to_string(), "é".to_string(), "".to_string()];
    assert_eq!(join_texts(&parts, ", "), "a, é, ");
    assert_eq!(join_texts(&Vec::new(), ", "), "");
    assert_eq!(count_bytes("aé€😀"), 10);
    assert_eq!(trim_start("\u{3000}\t x y "), "x y ");
    for c in (0u32..0x11000).filter_map(char::from_u32) {
        let text = format!("{c}x");
        assert_eq!(trim_start(&text), text.trim_start(), "{c:?}");
    }
}

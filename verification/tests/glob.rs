use superzed_session::glob::glob_literal_prefix;
use superzed_session::path::HostPath;

fn prefix(pattern: &str) -> HostPath {
    glob_literal_prefix(&HostPath::new(pattern))
}

#[test]
fn test_glob_literal_prefix() {
    assert_eq!(prefix("**/*.js"), HostPath::new(""));
    assert_eq!(prefix("node_modules/**/*.js"), HostPath::new("node_modules"));
    assert_eq!(prefix("foo/{bar,baz}.js"), HostPath::new("foo"));
    assert_eq!(prefix("foo/bar/baz.js"), HostPath::new("foo/bar/baz.js"));
}

#[test]
fn glob_prefix_of_absolute_patterns() {
    assert_eq!(prefix("/code/src/*.rs").as_str(), "/code/src");
    assert_eq!(prefix("/*").as_str(), "/");
    assert_eq!(prefix("./a?b").as_str(), ".");
    assert_eq!(prefix("a//b/./c").as_str(), "a/b/c");
}

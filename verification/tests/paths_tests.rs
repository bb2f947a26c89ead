use sqltext::paths::{add_extension, path_to_agnostic_relative};

#[test]
fn test_path_to_agnostic_relative_windows() {
    let base = r"C:\Users\hrag";
    let path = r"C:\Users\hrag\five\eight";
    assert_eq!(path_to_agnostic_relative(path, base), "five/eight");
}

#[test]
fn test_path_to_agnostic_relative_linux() {
    let base = "/home/ray";
    let path = "/home/ray/five/eight";
    assert_eq!(path_to_agnostic_relative(path, base), "five/eight");
}

#[test]
fn test_path_to_agnostic_relative_base_covers_path() {
    assert_eq!(path_to_agnostic_relative("/home/ray", "/home/ray"), "");
    assert_eq!(path_to_agnostic_relative("/home", "/home/ray"), "");
}

#[test]
fn test_path_to_agnostic_relative_mixed_separators() {
    assert_eq!(
        path_to_agnostic_relative(r"C:\Users\hrag/five\eight", r"C:\Users/hrag"),
        "five/eight"
    );
}

#[test]
fn test_add_extension() {
    let path = "/home/ray/five/eight/six.txt";
    let extension = "newext";
    let expected = "/home/ray/five/eight/six.txt.newext";
    let result = add_extension(path, extension);
    assert_eq!(result, expected);
}

#[test]
fn test_add_extension_from_none() {
    let path = "/home/ray/five/eight/six";
    let extension = "newext";
    let expected = "/home/ray/five/eight/six.newext";
    let result = add_extension(path, extension);
    assert_eq!(result, expected);
}

#[test]
fn test_add_extension_trailing_separator() {
    // The extension lands on the last component, not on an empty name
    // inside it.
    assert_eq!(add_extension("a/", "x"), "a.x");
    assert_eq!(add_extension("/home/ray/", "tar"), "/home/ray.tar");
    assert_eq!(add_extension(r"C:\Users\hrag\", "bak"), r"C:\Users\hrag.bak");
}

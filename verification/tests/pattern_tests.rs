use sqltext::pattern::{
    match_group_to_string, match_to_string, matches_group_to_vec, matches_to_vec, Pattern,
};

#[test]
fn test_match_to_string() {
    let re = Pattern::new(r"\(.*\)").unwrap();
    let string_to_search = "![name](image/path/x.png)";
    let expected = String::from("(image/path/x.png)");
    assert_eq!(match_to_string(string_to_search, &re), Some(expected));
}

#[test]
fn test_match_to_string_none() {
    let re = Pattern::new(r"\(.*\)").unwrap();
    let string_to_search = "![name]image/path/x.png";
    assert_eq!(match_to_string(string_to_search, &re), None);
}

#[test]
fn test_match_group_to_string() {
    let re = Pattern::new(r"\(([^)]*)").unwrap();
    let string_to_search = "![name](image/path/x.png)";
    let expected = String::from("image/path/x.png");
    assert_eq!(match_group_to_string(string_to_search, &re, Some(1)), Some(expected));
}

#[test]
fn test_match_group_to_string_none() {
    let re = Pattern::new(r"\(([^)]*)").unwrap();
    let string_to_search = "![name]image/path/x.png";
    assert_eq!(match_group_to_string(string_to_search, &re, Some(1)), None);
}

#[test]
fn test_match_group_to_string_nocap() {
    let re = Pattern::new(r"\(.*").unwrap();
    let string_to_search = "![name](image/path/x.png)";
    let expected = String::from("(image/path/x.png)");
    let result = match_group_to_string(string_to_search, &re, None);
    assert_eq!(result, Some(expected));
}

#[test]
fn test_matches_to_vec() {
    let re = Pattern::new(r"!\[.*?\]\(.*?\)").unwrap();
    let string_to_search = "blah ![name](image/path/x.png) blah blah ![name](image/path/y.png) blah";
    let expected = vec![
        String::from("![name](image/path/x.png)"),
        String::from("![name](image/path/y.png)"),
    ];
    assert_eq!(matches_to_vec(string_to_search, &re), expected);
}

#[test]
fn test_matches_to_vec_none() {
    let re = Pattern::new(r"!\[.*?\]\(.*?\)").unwrap();
    let string_to_search = "blah [name](image/path/x.png) blah blah ![name]image/path/y.png) blah";
    let expected: Vec<String> = vec![];
    assert_eq!(matches_to_vec(string_to_search, &re), expected);
}

#[test]
fn test_matches_group_to_vec() {
    let re = Pattern::new(r"\(([^)]*)").unwrap();
    let string_to_search = "blah ![name](image/path/x.png) blah blah ![name](image/path/y.png) blah";
    let expected = vec![String::from("image/path/x.png"), String::from("image/path/y.png")];
    assert_eq!(matches_group_to_vec(string_to_search, &re, Some(1)), expected);
}

#[test]
fn test_pattern_new_rejects_bad_source() {
    assert!(Pattern::new(r"(unclosed").is_none());
}

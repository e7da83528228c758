use remote_cache::path::{PathError, RelativePath};
use remote_cache::text::{decimal, starts_with};

fn names(text: &str) -> Vec<String> {
    let path = RelativePath::new(text).unwrap();
    (0..path.len()).map(|i| path.name(i).clone()).collect()
}

#[test]
fn single_name() {
    assert_eq!(names("a.txt"), vec!["a.txt".to_string()]);
}

#[test]
fn nested_names_in_order() {
    assert_eq!(names("out/dir/file"), vec!["out".to_string(), "dir".to_string(), "file".to_string()]);
}

#[test]
fn empty_text_has_no_names() {
    assert_eq!(names(""), Vec::<String>::new());
    assert_eq!(RelativePath::new("").unwrap().len(), 0);
}

#[test]
fn dot_and_empty_parts_are_skipped() {
    assert_eq!(names("./a//b/./c/"), vec!["a".to_string(), "b".to_string(), "c".to_string()]);
    assert_eq!(names("."), Vec::<String>::new());
}

#[test]
fn dot_dot_steps_back() {
    assert_eq!(names("a/b/../c"), vec!["a".to_string(), "c".to_string()]);
    assert_eq!(names("a/.."), Vec::<String>::new());
}

#[test]
fn names_that_only_look_like_dots_are_kept() {
    assert_eq!(names("..."), vec!["...".to_string()]);
    assert_eq!(names(".a/b."), vec![".a".to_string(), "b.".to_string()]);
    assert_eq!(names("a..b"), vec!["a..b".to_string()]);
}

#[test]
fn absolute_path_is_rejected() {
    assert_eq!(RelativePath::new("/etc/passwd"), Err(PathError::Absolute));
    assert_eq!(RelativePath::new("/"), Err(PathError::Absolute));
}

#[test]
fn escaping_path_is_rejected() {
    assert_eq!(RelativePath::new(".."), Err(PathError::EscapesRoot));
    assert_eq!(RelativePath::new("a/../../b"), Err(PathError::EscapesRoot));
    assert_eq!(RelativePath::new("../a"), Err(PathError::EscapesRoot));
}

#[test]
fn escape_is_not_undone_by_later_names() {
    assert_eq!(RelativePath::new("../a/b/c"), Err(PathError::EscapesRoot));
}

#[test]
fn text_joins_names_with_slashes() {
    assert_eq!(RelativePath::new("a//b/./c").unwrap().to_text(), "a/b/c");
    assert_eq!(RelativePath::new("a.txt").unwrap().to_text(), "a.txt");
    assert_eq!(RelativePath::new("").unwrap().to_text(), "");
}

#[test]
fn text_of_a_path_reads_back_as_the_same_path() {
    let path = RelativePath::new("x/./y/../z/w").unwrap();
    let again = RelativePath::new(path.to_text().as_str()).unwrap();
    assert_eq!(path, again);
    assert_eq!(again.to_text(), "x/z/w");
}

#[test]
fn non_ascii_names_are_kept_whole() {
    assert_eq!(names("räksmörgås/日本語"), vec!["räksmörgås".to_string(), "日本語".to_string()]);
}

#[test]
fn starts_with_checks_the_prefix() {
    assert!(starts_with("https://cache.example", "https://"));
    assert!(!starts_with("http://cache.example", "https://"));
    assert!(!starts_with("https:/", "https://"));
    assert!(starts_with("anything", ""));
    assert!(starts_with("https://", "https://"));
}

#[test]
fn decimal_writes_numbers() {
    assert_eq!(decimal(0), "0");
    assert_eq!(decimal(7), "7");
    assert_eq!(decimal(10), "10");
    assert_eq!(decimal(1024), "1024");
    assert_eq!(decimal(907), "907");
    assert_eq!(decimal(usize::MAX), usize::MAX.to_string());
}

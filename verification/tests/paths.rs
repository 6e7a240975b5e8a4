use std::path::PathBuf;

use lanoma::helpers::{relative_path_from, str_as_cmd};

fn rel(dst: &str, base: &str) -> Option<PathBuf> {
    relative_path_from(dst, base).map(PathBuf::from)
}

#[test]
fn relative_path_into_a_child() {
    assert_eq!(rel("a/b/c", "a/b"), Some(PathBuf::from("c")));
    assert_eq!(rel("a/b/c/d", "a"), Some(PathBuf::from("b/c/d")));
}

#[test]
fn relative_path_up_to_a_parent() {
    assert_eq!(rel("a/b", "a/b/c"), Some(PathBuf::from("..")));
    assert_eq!(rel("a", "a/b/c"), Some(PathBuf::from("../..")));
}

#[test]
fn relative_path_across_branches() {
    assert_eq!(rel("a/x", "a/b/c"), Some(PathBuf::from("../../x")));
    assert_eq!(rel("/usr/lib", "/usr/share/doc"), Some(PathBuf::from("../../lib")));
    assert_eq!(rel("x/y", "a/b"), Some(PathBuf::from("../../x/y")));
}

#[test]
fn relative_path_to_itself_is_empty() {
    assert_eq!(relative_path_from("a/b", "a/b"), Some(String::new()));
    assert_eq!(relative_path_from("/a/b", "/a/b"), Some(String::new()));
    assert_eq!(relative_path_from("", ""), Some(String::new()));
}

#[test]
fn relative_path_between_absolute_and_relative() {
    assert_eq!(rel("/a/b", "c/d"), Some(PathBuf::from("/a/b")));
    assert_eq!(rel("a/b", "/c/d"), None);
}

#[test]
fn relative_path_from_a_parent_component_is_unknown() {
    assert_eq!(rel("a/b", "../c"), None);
}

#[test]
fn relative_path_through_a_current_directory_component() {
    assert_eq!(rel("a/b", "a/./c"), Some(PathBuf::from("../b")));
}

#[test]
fn str_as_cmd_splits_at_white_space() {
    let (program, args) = str_as_cmd("  pdflatex   note.tex \t -halt-on-error ");
    assert_eq!(program, "pdflatex");
    assert_eq!(args, vec!["note.tex".to_string(), "-halt-on-error".to_string()]);

    let (program, args) = str_as_cmd("latexmk");
    assert_eq!(program, "latexmk");
    assert!(args.is_empty());
}

#[test]
fn relative_path_from_a_leading_current_directory() {
    assert_eq!(rel("a/b", "./c"), Some(PathBuf::from("a/../b")));
}

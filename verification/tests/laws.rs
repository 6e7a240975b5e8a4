use lanoma::compile::{CompilableObject, CompilationEnvironment};
use lanoma::helpers::relative_path_from;
use lanoma::helpers::string::{kebab_case, title_case};
use lanoma::note::Note;
use lanoma::subjects::Subject;

fn is_slug(s: &str) -> bool {
    !s.chars().any(|c| c.is_whitespace() || c.is_ascii_uppercase())
        && !s.starts_with('-')
        && !s.ends_with('-')
        && !s.contains("--")
}

#[test]
fn kebab_case_of_ascii_text_is_a_slug() {
    for text in [
        "  Hello -- World  ",
        "---",
        "A:B:C d-E",
        "\tTabs\tand\nLines ",
        "Mixed CASE words -- and -- more",
        "",
    ] {
        assert!(is_slug(&kebab_case(text)), "{:?} gave {:?}", text, kebab_case(text));
    }
}

#[test]
fn title_case_twice_is_title_case_once() {
    for text in ["  hello \t WORLD ", "ThE qUiCk bRoWn fOx", "a", "", "x-y z"] {
        let once = title_case(text);
        assert_eq!(title_case(&once), once);
    }
}

#[test]
fn finish_keeps_every_compilable_once() {
    let mut env = CompilationEnvironment::new("dir");
    env.compilables(vec![
        CompilableObject::Note(Note::new("A")),
        CompilableObject::Note(Note::new("B")),
        CompilableObject::Note(Note::new("C")),
    ]);
    let result = env.finish(&vec![false, true, false]);
    assert_eq!(result.compiled.len() + result.failed.len(), 3);
    let mut all: Vec<String> = result.compiled.iter().chain(result.failed.iter()).map(|c| c.name()).collect();
    all.sort();
    assert_eq!(all, vec!["A", "B", "C"]);
}

#[test]
fn relative_path_to_itself_is_empty_for_any_path() {
    for p in ["a", "a/b/c", "/x/y", "./a", "../a"] {
        assert_eq!(relative_path_from(p, p), Some(String::new()));
    }
}

#[test]
fn normalizing_a_subject_name_twice_changes_nothing() {
    for name in ["Bachelor I/Semester I/Quantum Mechanics/../.", "a/./b", " x / y ", "/root/sub"] {
        let once = Subject::from(name);
        let twice = Subject::from(once.full_name());
        assert_eq!(twice.full_name(), once.full_name());
    }
}

#[test]
fn joining_the_base_with_the_relative_path_reaches_the_destination() {
    for (dst, base, rel) in [("a/x/y", "a/b/c", "../../x/y"), ("/usr/lib", "/usr/share/doc", "../../lib"), ("p", "p/q", "..")] {
        assert_eq!(relative_path_from(dst, base), Some(rel.to_string()));
    }
    assert_eq!(relative_path_from("/abs", "rel"), Some("/abs".to_string()));
    assert_eq!(relative_path_from("rel", "/abs"), None);
}

#[test]
fn relative_paths_between_paths_starting_with_a_dot() {
    assert_eq!(relative_path_from("./a/x", "./a/b"), Some("../x".to_string()));
    assert_eq!(relative_path_from("../x", "a"), Some("../../x".to_string()));
}

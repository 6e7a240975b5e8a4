use lanoma::helpers::string::{capitalize_string, join_kebab_words, kebab_case, regex_match, title_case, try_regex_match};

#[test]
fn kebab_case_test() {
    assert_eq!(
        kebab_case("The Quick Brown Fox Jumps Over The Lazy Dog."),
        "the-quick-brown-fox-jumps-over-the-lazy-dog"
    );
    assert_eq!(
        kebab_case("The---Quick---Brown Fox Jumps Over---The---Lazy Dog."),
        "the-quick-brown-fox-jumps-over-the-lazy-dog"
    );
    assert_eq!(
        kebab_case("The Quick Brown Fox: [It Jumps Over The Lazy Dog]."),
        "the-quick-brown-fox-it-jumps-over-the-lazy-dog"
    );
}

#[test]
fn title_case_test() {
    assert_eq!(
        title_case("The quick brown fox jumps over the lazy dog."),
        "The Quick Brown Fox Jumps Over The Lazy Dog."
    );
    assert_eq!(
        title_case("ThE qUiCk bRoWn fOx jUmps over tHe laZy dOg."),
        "The Quick Brown Fox Jumps Over The Lazy Dog."
    );
}

#[test]
fn basic_regex_match() {
    let test_case = String::from(r"^\w+$");
    let result = regex_match(&test_case.to_string(), "browing");

    assert_eq!(result, true);
}

#[test]
fn kebab_case_removes_only_the_first_invalid_run_of_a_word() {
    assert_eq!(kebab_case("a:b:c"), "ab:c");
    assert_eq!(kebab_case("ab:c"), "abc");
}

#[test]
fn kebab_case_drops_words_that_become_empty() {
    assert_eq!(kebab_case("  !!!  -- Hello   ?? World "), "hello-world");
    assert_eq!(kebab_case(""), "");
    assert_eq!(kebab_case(" - - "), "");
}

#[test]
fn kebab_case_lowercases_beyond_ascii() {
    assert_eq!(kebab_case("ÉCOLE Été"), "cole-té");
    assert_eq!(kebab_case("aB cD:xÉ"), "ab-cdxé");
}

#[test]
fn join_kebab_words_skips_empty_words() {
    let words = vec![String::new(), "a".to_string(), String::new(), "b-c".to_string()];
    assert_eq!(join_kebab_words(&words), "a-b-c");
    assert_eq!(join_kebab_words(&vec![]), "");
}

#[test]
fn title_case_collapses_white_space() {
    assert_eq!(title_case("  hello \t\n wORLD  "), "Hello World");
    assert_eq!(title_case(""), "");
    assert_eq!(title_case("ßtraße"), "SStraße");
}

#[test]
fn capitalize_string_cases() {
    assert_eq!(capitalize_string(""), None);
    assert_eq!(capitalize_string("hELLO"), Some("Hello".to_string()));
    assert_eq!(capitalize_string("x"), Some("X".to_string()));
}

#[test]
fn try_regex_match_reports_invalid_patterns() {
    assert_eq!(try_regex_match("(", "x"), None);
    assert_eq!(try_regex_match("^a", "abc"), Some(true));
    assert_eq!(try_regex_match("^b", "abc"), Some(false));
}

#[test]
fn kebab_case_lowers_ascii_words_beside_other_text() {
    assert_eq!(kebab_case("é x"), "x");
    assert_eq!(kebab_case("Été ABC"), "té-abc");
}

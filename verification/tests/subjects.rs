use std::path::PathBuf;

use lanoma::items::Note;
use lanoma::subjects::{FilesEntry, Subject};

#[test]
fn basic_subject() {
    let subject = Subject::from("Calculus");

    assert_eq!(PathBuf::from(subject.path()), PathBuf::from("calculus"));
    assert_eq!(subject.name(), String::from("Calculus"));

    let subject_fragments = subject.split_subjects();
    let mut subject_part = subject_fragments.iter();
    assert_eq!(
        subject_part.next().unwrap().full_name(),
        Subject::from("Calculus").full_name()
    );
}

#[test]
fn subject_with_multiple_path() {
    let subject = Subject::from("Mathematics/Calculus/");

    assert_eq!(PathBuf::from(subject.path()), PathBuf::from("mathematics/calculus/"));
    assert_eq!(subject.name(), String::from("Calculus"));

    let subject_fragments = subject.split_subjects();
    let mut subject_part = subject_fragments.iter();
    assert_eq!(
        subject_part.next().unwrap().full_name(),
        Subject::from("Mathematics").full_name()
    );
    assert_eq!(
        subject_part.next().unwrap().full_name(),
        Subject::from("Mathematics/Calculus").full_name()
    );
}

#[test]
fn subject_with_multiple_path_and_space() {
    let subject = Subject::from("Calculus/Calculus I");

    assert_eq!(PathBuf::from(subject.path()), PathBuf::from("calculus/calculus-i"));
    assert_eq!(subject.name(), String::from("Calculus I"));

    let subject_fragments = subject.split_subjects();
    let mut subject_part = subject_fragments.iter();
    assert_eq!(
        subject_part.next().unwrap().full_name(),
        Subject::from("Calculus").full_name()
    );
    assert_eq!(
        subject_part.next().unwrap().full_name(),
        Subject::from("Calculus/Calculus I").full_name()
    );
}

#[test]
fn subject_with_multiple_path_and_improper_input() {
    let subject = Subject::from("Bachelor I/Semester I/Quantum Mechanics/../.");

    assert_eq!(PathBuf::from(subject.path()), PathBuf::from("bachelor-i/semester-i/"));
    assert_eq!(subject.name(), String::from("Semester I"));

    let subject_fragments = subject.split_subjects();
    let mut subject_part = subject_fragments.iter();
    assert_eq!(
        subject_part.next().unwrap().full_name(),
        Subject::from("Bachelor I").full_name()
    );
    assert_eq!(
        subject_part.next().unwrap().full_name(),
        Subject::from("Bachelor I/Semester I").full_name()
    );
}

#[test]
fn subject_with_multiple_path_and_improper_input_and_leading_stars() {
    let subject = Subject::from("Bachelor I/Semester I/Quantum Mechanics/../.Logs");

    assert_eq!(PathBuf::from(subject.path()), PathBuf::from("bachelor-i/semester-i/logs"));
    assert_eq!(subject.name(), String::from(".Logs"));

    let subject_fragments = subject.split_subjects();
    let mut subject_part = subject_fragments.iter();
    assert_eq!(
        subject_part.next().unwrap().full_name(),
        Subject::from("Bachelor I/").full_name()
    );
    assert_eq!(
        subject_part.next().unwrap().full_name(),
        Subject::from("Bachelor I/Semester I").full_name()
    );
    assert_eq!(
        subject_part.next().unwrap().full_name(),
        Subject::from("Bachelor I/Semester I/.Logs").full_name()
    );
}

#[test]
fn basic_note() {
    let subject = Subject::from("Calculus");
    let note = Note::new("An introduction to calculus concepts");

    assert_eq!(
        note.file_name(),
        "an-introduction-to-calculus-concepts.tex".to_string()
    );

    assert_eq!(
        PathBuf::from(note.path(&subject)),
        PathBuf::from("calculus/an-introduction-to-calculus-concepts.tex")
    );
}

#[test]
fn note_and_subject_with_multiple_path() {
    let subject = Subject::from("First Year/Semester I/Calculus");
    let note = Note::new("An introduction to calculus concepts");

    assert_eq!(
        note.file_name(),
        "an-introduction-to-calculus-concepts.tex".to_string()
    );

    assert_eq!(
        PathBuf::from(note.path(&subject)),
        PathBuf::from("first-year/semester-i/calculus/an-introduction-to-calculus-concepts.tex")
    );
}

#[test]
fn subject_names_are_normalized() {
    assert_eq!(
        Subject::from("Mathematics").name(),
        Subject::from("Mathematics/Calculus/..").name()
    );
    assert_eq!(Subject::from(" Physics / Mechanics ").full_name(), "Physics/Mechanics");
}

#[test]
fn split_subjects_gives_every_parent() {
    let subject = Subject::from("Bachelor I/Semester I/Calculus");
    let subjects = subject.split_subjects();
    let mut split = subjects.iter();
    assert_eq!(split.next().unwrap().name(), Subject::from("Bachelor I").name());
    assert_eq!(split.next().unwrap().name(), Subject::from("Bachelor I/Semester I").name());
    assert_eq!(
        split.next().unwrap().name(),
        Subject::from("Bachelor I/Semester I/Calculus").name()
    );
    assert!(split.next().is_none());
}

#[test]
fn subject_metadata_paths() {
    let shelf = lanoma::shelf::Shelf::from("shelf", true).ok().unwrap();
    let subject = Subject::from("Calculus I");
    assert_eq!(PathBuf::from(subject.metadata_path()), PathBuf::from("calculus-i/info.toml"));
    assert_eq!(
        PathBuf::from(subject.metadata_path_in_shelf(&shelf)),
        PathBuf::from("shelf/calculus-i/info.toml")
    );
    assert_eq!(PathBuf::from(subject.path_in_shelf(&shelf)), PathBuf::from("shelf/calculus-i"));
}

#[test]
fn subject_stem_is_the_last_part() {
    let subject = Subject::from("Math/Calculus");
    assert_eq!(subject.stem().full_name(), "Calculus");
    assert!(subject.has_name());
    assert!(!Subject::new().has_name());
}

#[test]
fn subject_from_the_shelf() {
    let shelf = lanoma::shelf::Shelf::from("shelf", true).ok().unwrap();
    let found = Subject::from_shelf("Math/Calculus", &shelf, true).ok().unwrap();
    assert_eq!(found.full_name(), "Math/Calculus");
    match Subject::from_shelf("Math/Calculus", &shelf, false) {
        Err(lanoma::error::Error::InvalidSubjectError(p)) => {
            assert_eq!(PathBuf::from(p), PathBuf::from("shelf/math/calculus"))
        }
        _ => panic!("a subject without its folder is invalid"),
    }
    let found = Subject::from_vec(&vec!["A", "B/./C", "D"], &shelf, &vec![false, true, true]);
    let names: Vec<String> = found.iter().map(|s| s.full_name().clone()).collect();
    assert_eq!(names, vec!["B/C".to_string(), "D".to_string()]);
    let loose = Subject::from_vec_loose(&vec!["A", "B/../E"], &shelf);
    let names: Vec<String> = loose.iter().map(|s| s.full_name().clone()).collect();
    assert_eq!(names, vec!["A".to_string(), "E".to_string()]);
}

#[test]
fn subject_note_filter() {
    let subject = Subject::from("Calculus");
    assert_eq!(subject.note_filter(FilesEntry::Missing), vec!["*.tex".to_string()]);
    assert_eq!(subject.note_filter(FilesEntry::Invalid), vec!["*.tex".to_string()]);
    assert_eq!(
        subject.note_filter(FilesEntry::Array(vec![Some("a*.tex".to_string()), None, Some("b.tex".to_string())])),
        vec!["a*.tex".to_string(), "b.tex".to_string()]
    );
    assert!(subject.note_filter(FilesEntry::Array(vec![])).is_empty());
}

#[test]
fn master_note_of_a_subject() {
    let shelf = lanoma::shelf::Shelf::from("shelf", true).ok().unwrap();
    let subject = Subject::from("Calculus");
    let mut master = subject.create_master_note();
    assert_eq!(master.file_name(), "_master.tex");
    assert_eq!(PathBuf::from(master.path()), PathBuf::from("calculus/_master.tex"));
    assert_eq!(
        PathBuf::from(master.path_in_shelf(&shelf)),
        PathBuf::from("shelf/calculus/_master.tex")
    );
    master
        .push(&lanoma::note::Note::new("One"))
        .push(&lanoma::note::Note::new("Two"));
    let titles: Vec<String> = master.notes().iter().map(|n| n.title()).collect();
    assert_eq!(titles, vec!["One".to_string(), "Two".to_string()]);
    assert_eq!(master.subject().full_name(), "Calculus");
}

#[test]
fn a_component_that_trims_to_a_parent_is_kept_as_a_name() {
    assert_eq!(Subject::from("a/ .. ").full_name(), "a/..");
    assert_eq!(Subject::from("a/..").full_name(), "");
}

#[test]
fn a_subject_name_is_its_last_component_whole() {
    let subject = Subject::from("Physics/Physics 1.5");
    assert_eq!(subject.name(), "Physics 1.5");
    assert_eq!(subject.stem().full_name(), "Physics 1.5");
}

#[test]
fn note_filter_from_the_metadata_text() {
    let subject = Subject::from("Calculus");
    assert_eq!(subject.note_filter_of_metadata(None), vec!["*.tex".to_string()]);
    assert_eq!(subject.note_filter_of_metadata(Some("this is = = not toml")), vec!["*.tex".to_string()]);
    assert_eq!(subject.note_filter_of_metadata(Some("other = 1")), vec!["*.tex".to_string()]);
    assert_eq!(subject.note_filter_of_metadata(Some("_files = 'x'")), vec!["*.tex".to_string()]);
    assert_eq!(
        subject.note_filter_of_metadata(Some("_files = ['a*.tex', 3, 'b.tex']")),
        vec!["a*.tex".to_string(), "b.tex".to_string()]
    );
    assert!(subject.note_filter_of_metadata(Some("_files = []")).is_empty());
}

#[test]
fn subject_metadata_from_its_text() {
    let subject = Subject::from("Calculus");
    let value = subject.get_metadata("name = 'Calculus'\n_files = ['*.tex']").ok().unwrap();
    assert_eq!(value.get("name").and_then(|v| v.as_str()), Some("Calculus"));
    assert!(matches!(
        subject.get_metadata("= broken"),
        Err(lanoma::error::Error::TomlValueError(_))
    ));
}

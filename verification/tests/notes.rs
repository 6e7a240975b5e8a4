use std::path::PathBuf;

use lanoma::error::Error;
use lanoma::items::{Note, WriteMode};
use lanoma::note;
use lanoma::shelf::Shelf;
use lanoma::subjects::Subject;

#[test]
fn heck_note_file_names() {
    assert_eq!(note::Note::new("Taylor Series").file_name(), "taylor-series.tex");
    assert_eq!(
        note::Note::new("Introduction to Precalculus").file_name(),
        "introduction-to-precalculus.tex"
    );
    assert_eq!(note::Note::new("HTTPServer").file_name(), "http-server.tex");
}

#[test]
fn heck_note_paths() {
    let shelf = Shelf::from("shelf", true).ok().unwrap();
    let subject = Subject::from("First Year/Calculus");
    let n = note::Note::new("Taylor Series");
    assert_eq!(PathBuf::from(n.path(&subject)), PathBuf::from("first-year/calculus/taylor-series.tex"));
    assert_eq!(
        PathBuf::from(n.path_in_shelf(&subject, &shelf)),
        PathBuf::from("shelf/first-year/calculus/taylor-series.tex")
    );
}

#[test]
fn notes_from_the_shelf() {
    let shelf = Shelf::from("shelf", true).ok().unwrap();
    let subject = Subject::from("Calculus");
    assert_eq!(note::Note::from("Limits", &subject, &shelf, true).map(|n| n.title()), Some("Limits".to_string()));
    assert!(note::Note::from("Limits", &subject, &shelf, false).is_none());

    let found = note::Note::from_vec(&vec!["A", "B"], &subject, &shelf, &vec![false, true]);
    assert!(found[0].is_none());
    assert_eq!(found[1].as_ref().map(|n| n.title()), Some("B".to_string()));

    let loose = note::Note::from_vec_loose(&vec!["A", "B"], &subject, &shelf);
    assert_eq!(loose.iter().map(|n| n.title()).collect::<Vec<_>>(), vec!["A", "B"]);
}

#[test]
fn items_notes_from_the_shelf() {
    let shelf = Shelf::from("shelf", true).ok().unwrap();
    let subject = Subject::from("Calculus");
    let found = Note::from_vec(&vec!["A", "B"], &subject, &shelf, &vec![true, false]).ok().unwrap();
    assert_eq!(found[0].as_ref().map(|n| n.title()), Some("A".to_string()));
    assert!(found[1].is_none());
    let loose = Note::from_vec_loose(&vec!["A"], &subject, &shelf).ok().unwrap();
    assert_eq!(loose[0].title(), "A");
    assert_eq!(loose[0].duplicate().title(), "A");
}

#[test]
fn note_path_in_shelf() {
    let shelf = Shelf::from("/home/me/notes", true).ok().unwrap();
    let subject = Subject::from("Calculus");
    let n = Note::new("An introduction to calculus concepts");
    assert_eq!(
        PathBuf::from(n.path_in_shelf(&subject, &shelf)),
        PathBuf::from("/home/me/notes/calculus/an-introduction-to-calculus-concepts.tex")
    );
}

#[test]
fn export_mode_of_a_note() {
    let shelf = Shelf::from("s", true).ok().unwrap();
    let n = Note::new("A");
    assert_eq!(n.export_mode(&shelf, true, false, false).ok(), Some(WriteMode::CreateNew));
    assert_eq!(n.export_mode(&shelf, true, true, false).ok(), Some(WriteMode::Truncate));
    assert_eq!(n.export_mode(&shelf, true, true, true).ok(), Some(WriteMode::CreateNew));
    match n.export_mode(&shelf, false, false, false) {
        Err(Error::UnexportedShelfError(p)) => assert_eq!(p, "s"),
        _ => panic!("exporting into a missing shelf fails"),
    }
}

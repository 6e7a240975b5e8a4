use lanoma::error::Error;
use lanoma::items::Note;
use lanoma::shelf::{ExportOptions, Shelf, ShelfBuilder};
use lanoma::subjects::Subject;

#[test]
fn export_options_start_lenient() {
    let mut options = ExportOptions::new();
    assert!(!options.is_strict());
    options.strict(true);
    assert!(options.is_strict());
    options.strict(false);
    assert!(!options.is_strict());
}

#[test]
fn shelf_from_an_existing_folder() {
    let shelf = Shelf::from("notes", true).ok().unwrap();
    assert_eq!(shelf.path(), "notes");
}

#[test]
fn shelf_from_a_missing_folder_is_a_value_error() {
    assert!(matches!(Shelf::from("notes", false), Err(Error::ValueError)));
}

#[test]
fn shelf_set_path_returns_the_old_path() {
    let mut shelf = Shelf::new();
    assert_eq!(shelf.path(), "");
    assert_eq!(shelf.set_path("first"), "");
    assert_eq!(shelf.set_path("second"), "first");
    assert_eq!(shelf.path(), "second");
}

#[test]
fn shelf_builder_uses_the_path_set() {
    let mut builder = ShelfBuilder::new();
    builder.path("a/b");
    let shelf = builder.build().ok().unwrap();
    assert_eq!(shelf.path(), "a/b");

    let shelf = ShelfBuilder::new().build().ok().unwrap();
    assert_eq!(shelf.path(), "");
}

#[test]
fn shelf_keeps_the_subjects_and_notes_whose_operation_succeeded() {
    let shelf = Shelf::from("s", true).ok().unwrap();
    let subjects = vec![Subject::from("Calculus"), Subject::from("Algebra"), Subject::from("Physics")];
    let flags = vec![true, false, true];

    let found: Vec<String> = shelf
        .get_subjects(&subjects, &flags)
        .iter()
        .map(|s| s.full_name().clone())
        .collect();
    assert_eq!(found, vec!["Calculus".to_string(), "Physics".to_string()]);
    assert_eq!(shelf.create_subjects(&subjects, &vec![false, false, false]).len(), 0);
    assert_eq!(shelf.delete_subjects(&subjects, &vec![true, true, true]).len(), 3);

    let notes = vec![Note::new("One"), Note::new("Two")];
    let kept: Vec<String> = shelf.get_notes(&notes, &vec![false, true]).iter().map(|n| n.title()).collect();
    assert_eq!(kept, vec!["Two".to_string()]);
    assert_eq!(shelf.create_notes(&notes, &vec![true, true]).len(), 2);
    assert_eq!(shelf.delete_notes(&notes, &vec![true, false]).len(), 1);
}

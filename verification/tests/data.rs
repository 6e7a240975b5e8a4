use std::path::PathBuf;

use lanoma::data::{master_note_full_object, note_full_object};
use lanoma::note::Note;
use lanoma::shelf::Shelf;
use lanoma::subjects::Subject;

#[test]
fn the_data_of_a_note() {
    let shelf = Shelf::from("shelf", true).ok().unwrap();
    let subject = Subject::from("Math/Calculus");
    let object = note_full_object(&shelf, &Note::new("Taylor Series"), &subject);
    assert_eq!(object.subject.name, "Math/Calculus");
    assert_eq!(object.note.title, "Taylor Series");
    assert_eq!(object.note.file, "taylor-series.tex");
    assert_eq!(PathBuf::from(object.note.path_in_shelf), PathBuf::from("shelf/math/calculus/taylor-series.tex"));
    assert_eq!(object.shelf.path, "shelf");
}

#[test]
fn the_data_of_a_master_note() {
    let shelf = Shelf::from("shelf", true).ok().unwrap();
    let mut master = Subject::from("Calculus").create_master_note();
    master.push(&Note::new("One")).push(&Note::new("Two"));
    let object = master_note_full_object(&shelf, &master);
    assert_eq!(object.subject.name, "Calculus");
    let titles: Vec<String> = object.master.notes.iter().map(|n| n.title.clone()).collect();
    assert_eq!(titles, vec!["One".to_string(), "Two".to_string()]);
    assert_eq!(object.master.notes[1].file, "two.tex");
    assert_eq!(object.master.file, "_master.tex");
    assert_eq!(PathBuf::from(object.master.path), PathBuf::from("calculus/_master.tex"));
}

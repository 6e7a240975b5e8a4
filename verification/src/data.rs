//! The data that note and master note templates are rendered with, as plain
//! values: which entries there are and what each holds. (The profile's
//! configuration joins them where they are turned into a document.)
use vstd::prelude::*;
use crate::helpers::path_push;
use crate::masternote::{master_note_file, MasterNote};
use crate::note::{note_file_name, Note};
use crate::shelf::Shelf;
use crate::subjects::{subject_path, Subject};

verus! {

/// The data of a note in a shelf: `title`, `file` and `path_in_shelf`.
pub struct NoteData {
    pub title: String,
    pub file: String,
    pub path_in_shelf: String,
}

/// The data of a subject: its `name` (the full name).
pub struct SubjectData {
    pub name: String,
}

/// The data of a shelf: its `path`.
pub struct ShelfData {
    pub path: String,
}

/// The data of a master note in a shelf: its `notes`, its `subject`, its file
/// (`_file`) and its `path` relative to the shelf.
pub struct MasterNoteData {
    pub notes: Vec<NoteData>,
    pub subject: SubjectData,
    pub file: String,
    pub path: String,
}

/// The data a note template is rendered with (besides the profile).
pub struct NoteObject {
    pub subject: SubjectData,
    pub note: NoteData,
    pub shelf: ShelfData,
}

/// The data a master note template is rendered with (besides the profile).
pub struct MasterNoteObject {
    pub subject: SubjectData,
    pub master: MasterNoteData,
    pub shelf: ShelfData,
}

/// What the data of the note titled `title` holds, in the subject named
/// `subject` of the shelf at `shelf`.
pub open spec fn note_data_holds(d: NoteData, title: Seq<char>, subject: Seq<char>, shelf: Seq<char>) -> bool {
    &&& d.title@ == title
    &&& d.file@ == note_file_name(title)
    &&& d.path_in_shelf@ == path_push(path_push(shelf, subject_path(subject)), note_file_name(title))
}

/// The data of a note of the subject in the shelf.
pub fn note_data(note: &Note, subject: &Subject, shelf: &Shelf) -> (r: NoteData)
    ensures
        note_data_holds(r, note@, subject@, shelf@),
{
    NoteData {
        title: note.title(),
        file: note.file_name(),
        path_in_shelf: note.path_in_shelf(subject, shelf),
    }
}

/// The data of a subject.
pub fn subject_data(subject: &Subject) -> (r: SubjectData)
    ensures
        r.name@ == subject@,
{
    SubjectData { name: subject.full_name().clone() }
}

/// The data of a shelf.
pub fn shelf_data(shelf: &Shelf) -> (r: ShelfData)
    ensures
        r.path@ == shelf@,
{
    ShelfData { path: shelf.path() }
}

/// The data of a master note in the shelf: the data of each of its notes, in
/// order, in its subject and the shelf.
pub fn master_note_data(master_note: &MasterNote, shelf: &Shelf) -> (r: MasterNoteData)
    ensures
        r.notes@.len() == master_note@.1.len(),
        forall|i: int|
            0 <= i < r.notes@.len() ==> note_data_holds(
                #[trigger] r.notes@[i],
                master_note@.1[i],
                master_note@.0,
                shelf@,
            ),
        r.subject.name@ == master_note@.0,
        r.file@ == master_note_file(),
        r.path@ == path_push(subject_path(master_note@.0), master_note_file()),
{
    let notes = master_note.notes();
    let subject = master_note.subject();
    let mut datas: Vec<NoteData> = Vec::new();
    let mut i: usize = 0;
    while i < notes.len()
        invariant
            i <= notes@.len(),
            crate::note::note_views(notes@) == master_note@.1,
            subject@ == master_note@.0,
            datas@.len() == i,
            forall|j: int|
                0 <= j < i ==> note_data_holds(
                    #[trigger] datas@[j],
                    master_note@.1[j],
                    master_note@.0,
                    shelf@,
                ),
        decreases notes@.len() - i,
    {
        assert(master_note@.1[i as int] == notes@[i as int]@);
        datas.push(note_data(&notes[i], subject, shelf));
        i += 1;
    }
    MasterNoteData {
        notes: datas,
        subject: subject_data(subject),
        file: master_note.file_name(),
        path: master_note.path(),
    }
}

/// The data a note template is rendered with: the subject, the note and the
/// shelf.
pub fn note_full_object(shelf: &Shelf, note: &Note, subject: &Subject) -> (r: NoteObject)
    ensures
        r.subject.name@ == subject@,
        note_data_holds(r.note, note@, subject@, shelf@),
        r.shelf.path@ == shelf@,
{
    NoteObject {
        subject: subject_data(subject),
        note: note_data(note, subject, shelf),
        shelf: shelf_data(shelf),
    }
}

/// The data a master note template is rendered with: the subject, the master
/// note and the shelf.
pub fn master_note_full_object(shelf: &Shelf, master_note: &MasterNote) -> (r: MasterNoteObject)
    ensures
        r.subject.name@ == master_note@.0,
        r.master.notes@.len() == master_note@.1.len(),
        forall|i: int|
            0 <= i < r.master.notes@.len() ==> note_data_holds(
                #[trigger] r.master.notes@[i],
                master_note@.1[i],
                master_note@.0,
                shelf@,
            ),
        r.master.subject.name@ == master_note@.0,
        r.master.file@ == master_note_file(),
        r.master.path@ == path_push(subject_path(master_note@.0), master_note_file()),
        r.shelf.path@ == shelf@,
{
    MasterNoteObject {
        subject: subject_data(master_note.subject()),
        master: master_note_data(master_note, shelf),
        shelf: shelf_data(shelf),
    }
}

} // verus!

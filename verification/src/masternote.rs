//! The master note: one document that gathers the notes of a subject.
use vstd::prelude::*;
use vstd::string::*;
use crate::helpers::{path_push, push_path};
use crate::note::{note_views, Note};
use crate::shelf::Shelf;
use crate::subjects::{subject_path, Subject};
use crate::text::{chars_of, string_of};

verus! {

/// The file name of a master note.
pub open spec fn master_note_file() -> Seq<char> {
    "_master.tex"@
}

/// The master note is a note that uses the filtered notes.
pub struct MasterNote {
    subject: Subject,
    notes: Vec<Note>,
}

impl View for MasterNote {
    /// The name of the subject and the titles of the notes, in order.
    type V = (Seq<char>, Seq<Seq<char>>);

    closed spec fn view(&self) -> (Seq<char>, Seq<Seq<char>>) {
        (self.subject@, note_views(self.notes@))
    }
}

impl MasterNote {
    /// Create a new master note for the subject, with no notes.
    pub fn new(subject: Subject) -> (r: Self)
        ensures
            r@ == (subject@, Seq::<Seq<char>>::empty()),
    {
        let r = Self { subject, notes: Vec::new() };
        assert(note_views(r.notes@) =~= Seq::<Seq<char>>::empty());
        r
    }

    /// Return a reference to the subject.
    pub fn subject(&self) -> (r: &Subject)
        ensures
            r@ == self@.0,
    {
        &self.subject
    }

    /// Return a reference to the notes.
    pub fn notes(&self) -> (r: &Vec<Note>)
        ensures
            note_views(r@) == self@.1,
    {
        &self.notes
    }

    /// Add a note to be included, after those already there.
    pub fn push(&mut self, note: &Note) -> (r: &mut Self)
        ensures
            r@ == (old(self)@.0, old(self)@.1.push(note@)),
            final(self)@ == final(r)@,
    {
        let ghost old_notes = self.notes@;
        self.notes.push(note.duplicate());
        assert(note_views(self.notes@) =~= note_views(old_notes).push(note@));
        self
    }

    /// Return the path of the master note relative to the shelf.
    pub fn path(&self) -> (r: String)
        ensures
            r@ == path_push(subject_path(self@.0), master_note_file()),
    {
        let mut p = chars_of(self.subject.path().as_str());
        push_path(&mut p, &chars_of("_master.tex"));
        string_of(&p)
    }

    /// Return the path of the master note in the shelf.
    pub fn path_in_shelf(&self, shelf: &Shelf) -> (r: String)
        ensures
            r@ == path_push(path_push(shelf@, subject_path(self@.0)), master_note_file()),
    {
        let mut p = chars_of(self.subject.path_in_shelf(shelf).as_str());
        push_path(&mut p, &chars_of("_master.tex"));
        string_of(&p)
    }

    /// Return the file name of the master note.
    pub fn file_name(&self) -> (r: String)
        ensures
            r@ == master_note_file(),
    {
        String::from_str("_master.tex")
    }
}

} // verus!

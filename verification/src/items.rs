//! Notes: the individual LaTeX documents under a subject.
use vstd::prelude::*;
use vstd::string::*;
use crate::error::Error;
use crate::helpers::{path_push, push_path};
use crate::helpers::string::{ascii_kebab_case, kebab_case, kebab_case_spec};
use crate::text::is_ascii_text;
use crate::shelf::Shelf;
use crate::subjects::{subject_path, Subject};
use crate::text::chars_of;
use crate::text::string_of;

verus! {

/// The file name of a note with the given title: its kebab case with `.tex`.
pub open spec fn note_file_name(title: Seq<char>) -> Seq<char> {
    kebab_case_spec(title) + ".tex"@
}

/// A note's file name is the slug of its whole title followed by `.tex`:
/// taking `.tex` off the file name gives back the slug, so titles whose slugs
/// differ never share a file name.
pub proof fn law_file_name_is_the_whole_slug(t1: Seq<char>, t2: Seq<char>)
    ensures
        note_file_name(t1).len() == kebab_case_spec(t1).len() + 4,
        note_file_name(t1).take(kebab_case_spec(t1).len() as int) == kebab_case_spec(t1),
        note_file_name(t1).skip(kebab_case_spec(t1).len() as int) == ".tex"@,
        kebab_case_spec(t1) != kebab_case_spec(t2) ==> note_file_name(t1) != note_file_name(t2),
{
    reveal_strlit(".tex");
    let a = kebab_case_spec(t1);
    let b = kebab_case_spec(t2);
    assert(note_file_name(t1).take(a.len() as int) =~= a);
    assert(note_file_name(t1).skip(a.len() as int) =~= ".tex"@);
    if a != b && note_file_name(t1) == note_file_name(t2) {
        assert(note_file_name(t2).take(b.len() as int) =~= b);
        assert(a.len() == b.len());
        assert(a =~= b);
    }
}


/// The individual LaTeX documents in a notes instance.
///
/// A note does not hold its subject; its methods take the subject (and the
/// shelf) as parameters.
pub struct Note {
    title: String,
}

impl View for Note {
    /// The title of the note.
    type V = Seq<char>;

    closed spec fn view(&self) -> Seq<char> {
        self.title@
    }
}

pub open spec fn note_views(ns: Seq<Note>) -> Seq<Seq<char>> {
    ns.map_values(|n: Note| n@)
}

impl Note {
    /// Creates a new note instance.
    pub fn new(title: &str) -> (r: Self)
        ensures
            r@ == title@,
    {
        Self { title: String::from_str(title) }
    }

    /// A note with the same title.
    pub fn duplicate(&self) -> (r: Self)
        ensures
            r@ == self@,
    {
        Self { title: self.title.clone() }
    }

    /// The note of the given title in the subject, provided its file exists
    /// (`is_file` tells whether it does).
    pub fn from(title: &str, subject: &Subject, shelf: &Shelf, is_file: bool) -> (r: Option<Self>)
        ensures
            is_file ==> (r matches Some(n) && n@ == title@),
            !is_file ==> r is None,
    {
        if is_file {
            Some(Note::new(title))
        } else {
            None
        }
    }

    /// The notes of the given titles as found in the shelf: `is_file[i]`
    /// tells whether the file of the i-th note is there, and where it is not
    /// the entry is `None`.
    pub fn from_vec(note_titles: &Vec<&str>, subject: &Subject, shelf: &Shelf, is_file: &Vec<bool>) -> (r: Result<
        Vec<Option<Self>>,
        Error,
    >)
        requires
            is_file@.len() == note_titles@.len(),
        ensures
            r matches Ok(notes) && notes.len() == note_titles.len() && forall|i: int|
                0 <= i < notes.len() ==> match #[trigger] notes@[i] {
                    Some(n) => is_file@[i] && n@ == note_titles@[i]@,
                    None => !is_file@[i],
                },
    {
        let mut notes: Vec<Option<Self>> = Vec::new();
        let mut i: usize = 0;
        while i < note_titles.len()
            invariant
                i <= note_titles.len(),
                is_file@.len() == note_titles@.len(),
                notes.len() == i,
                forall|j: int|
                    0 <= j < i ==> match #[trigger] notes@[j] {
                        Some(n) => is_file@[j] && n@ == note_titles@[j]@,
                        None => !is_file@[j],
                    },
            decreases note_titles.len() - i,
        {
            notes.push(Note::from(note_titles[i], subject, shelf, is_file[i]));
            i += 1;
        }
        Ok(notes)
    }

    /// The notes of the given titles. Whether a note is found in the shelf or
    /// not, the result is the note of that title.
    pub fn from_vec_loose(note_titles: &Vec<&str>, subject: &Subject, shelf: &Shelf) -> (r: Result<
        Vec<Self>,
        Error,
    >)
        ensures
            r matches Ok(notes) && notes.len() == note_titles.len() && forall|i: int|
                0 <= i < notes.len() ==> #[trigger] notes@[i]@ == note_titles@[i]@,
    {
        let mut notes: Vec<Self> = Vec::new();
        let mut i: usize = 0;
        while i < note_titles.len()
            invariant
                i <= note_titles.len(),
                notes.len() == i,
                forall|j: int| 0 <= j < i ==> #[trigger] notes@[j]@ == note_titles@[j]@,
            decreases note_titles.len() - i,
        {
            notes.push(Note::new(note_titles[i]));
            i += 1;
        }
        Ok(notes)
    }

    /// Returns the title of the note instance.
    pub fn title(&self) -> (r: String)
        ensures
            r@ == self@,
    {
        self.title.clone()
    }

    /// Returns the file name of the note: the kebab case of its title with
    /// `.tex` appended (for an ASCII title, a slug with `.tex` appended).
    pub fn file_name(&self) -> (r: String)
        ensures
            r@ == note_file_name(self@),
            is_ascii_text(self@) ==> r@ == ascii_kebab_case(self@) + ".tex"@,
    {
        let mut slug = kebab_case(self.title.as_str());
        slug.append(".tex");
        slug
    }

    /// Returns the path of the note relative to the shelf.
    pub fn path(&self, subject: &Subject) -> (r: String)
        ensures
            r@ == path_push(subject_path(subject@), note_file_name(self@)),
    {
        let mut p = chars_of(subject.path().as_str());
        push_path(&mut p, &chars_of(self.file_name().as_str()));
        string_of(&p)
    }

    /// Returns the path of the note in the given shelf. It does not
    /// necessarily mean that the note exists.
    pub fn path_in_shelf(&self, subject: &Subject, shelf: &Shelf) -> (r: String)
        ensures
            r@ == path_push(path_push(shelf@, subject_path(subject@)), note_file_name(self@)),
    {
        let mut p = chars_of(subject.path_in_shelf(shelf).as_str());
        push_path(&mut p, &chars_of(self.file_name().as_str()));
        string_of(&p)
    }

    /// How the note's file is opened when it is exported: `shelf_is_valid`
    /// tells whether the shelf's folder exists and `file_exists` whether the note's
    /// file does. An export into a shelf that is not there fails; a file that
    /// is missing, or any file in a strict export, is created anew (which fails
    /// where it already exists); otherwise the file is overwritten.
    pub fn export_mode(&self, shelf: &Shelf, shelf_is_valid: bool, file_exists: bool, strict: bool) -> (r: Result<WriteMode, Error>)
        ensures
            !shelf_is_valid ==> (r matches Err(Error::UnexportedShelfError(p)) && p@ == shelf@),
            shelf_is_valid ==> r == Ok::<WriteMode, Error>(if !file_exists || strict {
                WriteMode::CreateNew
            } else {
                WriteMode::Truncate
            }),
    {
        if !shelf_is_valid {
            return Err(Error::UnexportedShelfError(shelf.path()));
        }
        if !file_exists || strict {
            Ok(WriteMode::CreateNew)
        } else {
            Ok(WriteMode::Truncate)
        }
    }
}

/// How a file is opened for writing.
#[derive(Debug, Clone, Copy, PartialEq, Eq, Structural)]
pub enum WriteMode {
    /// A new file is created; opening fails where the file exists.
    CreateNew,
    /// The existing file is emptied first.
    Truncate,
}

} // verus!

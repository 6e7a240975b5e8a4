//! Notes whose file names follow the kebab case of the `heck` crate.
use vstd::prelude::*;
use vstd::string::*;
use heck::KebabCase;
use crate::helpers::{path_push, push_path};
use crate::shelf::Shelf;
use crate::subjects::{subject_path, Subject};
use crate::text::{chars_of, string_of};

verus! {

/// What `heck::KebabCase::to_kebab_case` gives for a text.
pub uninterp spec fn heck_kebab_case(s: Seq<char>) -> Seq<char>;

/// `heck::KebabCase::to_kebab_case`: words split at case changes, white
/// space and punctuation, lower-cased and joined with `-`; the result is
/// named by `heck_kebab_case`.
#[verifier::external_body]
fn to_kebab_case(s: &str) -> (r: String)
    ensures
        r@ == heck_kebab_case(s@),
{
    s.to_kebab_case()
}

/// The file name of a note with the given title.
pub open spec fn note_file_name(title: Seq<char>) -> Seq<char> {
    heck_kebab_case(title) + ".tex"@
}

/// A note's file name is the slug of its whole title followed by `.tex`:
/// taking `.tex` off the file name gives back the slug, so titles whose slugs
/// differ never share a file name.
pub proof fn law_file_name_is_the_whole_slug(t1: Seq<char>, t2: Seq<char>)
    ensures
        note_file_name(t1).len() == heck_kebab_case(t1).len() + 4,
        note_file_name(t1).take(heck_kebab_case(t1).len() as int) == heck_kebab_case(t1),
        note_file_name(t1).skip(heck_kebab_case(t1).len() as int) == ".tex"@,
        heck_kebab_case(t1) != heck_kebab_case(t2) ==> note_file_name(t1) != note_file_name(t2),
{
    reveal_strlit(".tex");
    let a = heck_kebab_case(t1);
    let b = heck_kebab_case(t2);
    assert(note_file_name(t1).take(a.len() as int) =~= a);
    assert(note_file_name(t1).skip(a.len() as int) =~= ".tex"@);
    if a != b && note_file_name(t1) == note_file_name(t2) {
        assert(note_file_name(t2).take(b.len() as int) =~= b);
        assert(a.len() == b.len());
        assert(a =~= b);
    }
}


/// The individual LaTeX documents of a subject.
///
/// A note does not hold its subject; its methods take the subject (and the
/// shelf) as parameters.
pub struct Note {
    title: String,
}

impl View for Note {
    /// The title of the note.
    type V = Seq<char>;

    closed spec fn view(&self) -> Seq<char> {
        self.title@
    }
}

/// The titles of the notes, in order.
pub open spec fn note_views(ns: Seq<Note>) -> Seq<Seq<char>> {
    ns.map_values(|n: Note| n@)
}

impl Note {
    /// Creates a new note instance.
    pub fn new(title: &str) -> (r: Self)
        ensures
            r@ == title@,
    {
        Self { title: String::from_str(title) }
    }

    /// A note with the same title.
    pub fn duplicate(&self) -> (r: Self)
        ensures
            r@ == self@,
    {
        Self { title: self.title.clone() }
    }

    /// The note of the given title in the subject, provided its file exists
    /// (`is_file` tells whether it does).
    pub fn from(title: &str, subject: &Subject, shelf: &Shelf, is_file: bool) -> (r: Option<Self>)
        ensures
            is_file ==> (r matches Some(n) && n@ == title@),
            !is_file ==> r is None,
    {
        if is_file {
            Some(Note::new(title))
        } else {
            None
        }
    }

    /// The notes of the given titles as found in the shelf: `is_file[i]`
    /// tells whether the file of the i-th note is there, and where it is not
    /// the entry is `None`.
    pub fn from_vec(notes: &Vec<&str>, subject: &Subject, shelf: &Shelf, is_file: &Vec<bool>) -> (r: Vec<Option<Self>>)
        requires
            is_file@.len() == notes@.len(),
        ensures
            r.len() == notes.len(),
            forall|i: int|
                0 <= i < r.len() ==> match #[trigger] r@[i] {
                    Some(n) => is_file@[i] && n@ == notes@[i]@,
                    None => !is_file@[i],
                },
    {
        let mut r: Vec<Option<Self>> = Vec::new();
        let mut i: usize = 0;
        while i < notes.len()
            invariant
                i <= notes.len(),
                is_file@.len() == notes@.len(),
                r.len() == i,
                forall|j: int|
                    0 <= j < i ==> match #[trigger] r@[j] {
                        Some(n) => is_file@[j] && n@ == notes@[j]@,
                        None => !is_file@[j],
                    },
            decreases notes.len() - i,
        {
            r.push(Note::from(notes[i], subject, shelf, is_file[i]));
            i += 1;
        }
        r
    }

    /// The notes of the given titles. Whether a note is found in the shelf or
    /// not, the result is the note of that title.
    pub fn from_vec_loose(notes: &Vec<&str>, subject: &Subject, shelf: &Shelf) -> (r: Vec<Self>)
        ensures
            r.len() == notes.len(),
            forall|i: int| 0 <= i < r.len() ==> #[trigger] r@[i]@ == notes@[i]@,
    {
        let mut r: Vec<Self> = Vec::new();
        let mut i: usize = 0;
        while i < notes.len()
            invariant
                i <= notes.len(),
                r.len() == i,
                forall|j: int| 0 <= j < i ==> #[trigger] r@[j]@ == notes@[j]@,
            decreases notes.len() - i,
        {
            r.push(Note::new(notes[i]));
            i += 1;
        }
        r
    }

    /// Returns the title of the note instance.
    pub fn title(&self) -> (r: String)
        ensures
            r@ == self@,
    {
        self.title.clone()
    }

    /// Returns the file name of the note: the kebab case of its title with
    /// `.tex` appended.
    pub fn file_name(&self) -> (r: String)
        ensures
            r@ == note_file_name(self@),
    {
        let mut slug = to_kebab_case(self.title.as_str());
        slug.append(".tex");
        slug
    }

    /// Returns the path of the note relative to the shelf.
    pub fn path(&self, subject: &Subject) -> (r: String)
        ensures
            r@ == path_push(subject_path(subject@), note_file_name(self@)),
    {
        let mut p = chars_of(subject.path().as_str());
        push_path(&mut p, &chars_of(self.file_name().as_str()));
        string_of(&p)
    }

    /// Returns the path of the note in the given shelf. It does not
    /// necessarily mean that the note exists.
    pub fn path_in_shelf(&self, subject: &Subject, shelf: &Shelf) -> (r: String)
        ensures
            r@ == path_push(path_push(shelf@, subject_path(subject@)), note_file_name(self@)),
    {
        let mut p = chars_of(subject.path_in_shelf(shelf).as_str());
        push_path(&mut p, &chars_of(self.file_name().as_str()));
        string_of(&p)
    }
}

} // verus!

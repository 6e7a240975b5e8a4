//! The shelf: the base directory that holds the subjects and their notes.
use vstd::prelude::*;
use vstd::string::*;
use crate::error::Error;
use crate::helpers::{derefs, kept, select};
use crate::items::Note;
use crate::subjects::Subject;

verus! {

/// A struct holding the common export options.
pub struct ExportOptions {
    strict: bool,
}

impl View for ExportOptions {
    /// Whether the export is strict.
    type V = bool;

    closed spec fn view(&self) -> bool {
        self.strict
    }
}

impl ExportOptions {
    /// Creates a new instance of the export options; strictness is off.
    pub fn new() -> (r: Self)
        ensures
            r@ == false,
    {
        Self { strict: false }
    }

    /// Sets the strictness of the export: a strict export fails when the item
    /// already exists.
    pub fn strict(&mut self, strict: bool) -> (r: &mut Self)
        ensures
            r@ == strict,
            final(self)@ == final(r)@,
    {
        self.strict = strict;
        self
    }

    /// Whether the export is strict.
    pub fn is_strict(&self) -> (r: bool)
        ensures
            r == self@,
    {
        self.strict
    }
}

/// The shelf is where it contains the subjects and its notes.
/// In other words, it is the base directory of the operations.
pub struct Shelf {
    path: String,
}

impl View for Shelf {
    /// The path of the shelf.
    type V = Seq<char>;

    closed spec fn view(&self) -> Seq<char> {
        self.path@
    }
}

impl Shelf {
    /// Creates a new shelf instance with an empty path.
    pub fn new() -> (r: Self)
        ensures
            r@ == Seq::<char>::empty(),
    {
        Self { path: String::new() }
    }

    /// The shelf at `path`, provided it is a folder in the filesystem
    /// (`is_dir` tells whether it is); a `ValueError` otherwise.
    pub fn from(path: &str, is_dir: bool) -> (r: Result<Self, Error>)
        ensures
            is_dir ==> (r matches Ok(shelf) && shelf@ == path@),
            !is_dir ==> r matches Err(Error::ValueError),
    {
        if !is_dir {
            return Err(Error::ValueError);
        }
        Ok(Self { path: String::from_str(path) })
    }

    /// Returns the current path of the shelf.
    pub fn path(&self) -> (r: String)
        ensures
            r@ == self@,
    {
        self.path.clone()
    }

    /// Sets the path of the shelf and returns the old one. Moving an exported
    /// shelf's folder on the disk is left to the caller.
    pub fn set_path(&mut self, to: &str) -> (r: String)
        ensures
            r@ == old(self)@,
            final(self)@ == to@,
    {
        let old_path = self.path.clone();
        self.path = String::from_str(to);
        old_path
    }

    /// The subjects whose folders are in the shelf: `present[i]` tells whether
    /// the folder of the i-th subject is there.
    pub fn get_subjects<'s>(&self, subjects: &'s Vec<Subject>, present: &Vec<bool>) -> (r: Vec<
        &'s Subject,
    >)
        requires
            present@.len() == subjects@.len(),
        ensures
            derefs(r@) == kept(subjects@, present@, true),
    {
        select(subjects, present)
    }

    /// The subjects whose folders were created: `created[i]` tells whether the
    /// export of the i-th subject succeeded.
    pub fn create_subjects<'s>(&self, subjects: &'s Vec<Subject>, created: &Vec<bool>) -> (r: Vec<
        &'s Subject,
    >)
        requires
            created@.len() == subjects@.len(),
        ensures
            derefs(r@) == kept(subjects@, created@, true),
    {
        select(subjects, created)
    }

    /// The subjects whose folders were deleted: `deleted[i]` tells whether the
    /// deletion of the i-th subject succeeded.
    pub fn delete_subjects<'s>(&self, subjects: &'s Vec<Subject>, deleted: &Vec<bool>) -> (r: Vec<
        &'s Subject,
    >)
        requires
            deleted@.len() == subjects@.len(),
        ensures
            derefs(r@) == kept(subjects@, deleted@, true),
    {
        select(subjects, deleted)
    }

    /// The notes whose files are in the subject's folder: `present[i]` tells
    /// whether the file of the i-th note is there.
    pub fn get_notes<'n>(&self, notes: &'n Vec<Note>, present: &Vec<bool>) -> (r: Vec<&'n Note>)
        requires
            present@.len() == notes@.len(),
        ensures
            derefs(r@) == kept(notes@, present@, true),
    {
        select(notes, present)
    }

    /// The notes whose files were created: `created[i]` tells whether the
    /// export of the i-th note succeeded.
    pub fn create_notes<'n>(&self, notes: &'n Vec<Note>, created: &Vec<bool>) -> (r: Vec<&'n Note>)
        requires
            created@.len() == notes@.len(),
        ensures
            derefs(r@) == kept(notes@, created@, true),
    {
        select(notes, created)
    }

    /// The notes whose files were deleted: `deleted[i]` tells whether the
    /// deletion of the i-th note succeeded.
    pub fn delete_notes<'n>(&self, notes: &'n Vec<Note>, deleted: &Vec<bool>) -> (r: Vec<&'n Note>)
        requires
            deleted@.len() == notes@.len(),
        ensures
            derefs(r@) == kept(notes@, deleted@, true),
    {
        select(notes, deleted)
    }
}

/// A builder for the shelf instance.
/// Setting the data does not consume the builder.
pub struct ShelfBuilder {
    path: Option<String>,
}

impl View for ShelfBuilder {
    /// The path set so far.
    type V = Option<Seq<char>>;

    closed spec fn view(&self) -> Option<Seq<char>> {
        match self.path {
            Some(p) => Some(p@),
            None => None,
        }
    }
}

impl ShelfBuilder {
    /// Create a new shelf builder instance, with no path set.
    pub fn new() -> (r: Self)
        ensures
            r@ == None::<Seq<char>>,
    {
        Self { path: None }
    }

    /// Sets the path of the shelf.
    pub fn path(&mut self, path: &str) -> (r: &mut Self)
        ensures
            r@ == Some(path@),
            final(self)@ == final(r)@,
    {
        self.path = Some(String::from_str(path));
        self
    }

    /// Create the shelf instance from the builder, at the path set (the empty
    /// path when none was). The fresh shelf it starts from has the empty path,
    /// which is never an exported folder, so nothing is moved on the disk and
    /// the build always succeeds.
    pub fn build(self) -> (r: Result<Shelf, Error>)
        ensures
            r matches Ok(shelf) && shelf@ == match self@ {
                Some(p) => p,
                None => Seq::<char>::empty(),
            },
    {
        let mut shelf = Shelf::new();
        match self.path {
            Some(p) => {
                shelf.set_path(p.as_str());
            },
            None => {},
        }
        Ok(shelf)
    }
}

} // verus!

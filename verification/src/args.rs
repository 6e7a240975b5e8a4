//! The command line of the program, as plain data: which shelf and profile to
//! use, and which command to run on which subjects and notes.
use vstd::prelude::*;

verus! {

/// The arguments of the program.
pub struct TextureNotes {
    /// The shelf directory; the current directory when not given.
    pub shelf: Option<String>,
    /// The profile directory; the configuration folder of the user when not
    /// given.
    pub profile: Option<String>,
    /// The command to run.
    pub cmd: Command,
}

/// What a command works on.
pub enum Input {
    /// A list of subjects.
    Subjects { subjects: Vec<String> },
    /// A list of notes of one subject.
    Notes { subject: String, notes: Vec<String> },
}

/// The commands of the program.
pub enum Command {
    /// Initialize a profile, with a name for its owner if given.
    Init { name: Option<String> },
    /// Add subjects or notes; `not_strict` is set unless replacing existing
    /// files is forced, and `template` names the template of new notes.
    Add { not_strict: bool, kind: Input, template: Option<String> },
    /// Remove subjects or notes.
    Remove { kind: Input },
    /// List the subjects and their notes.
    List { sort: Option<String>, date: bool, reverse: bool },
    /// Compile notes, with that many threads, the given file patterns and
    /// command when given.
    Compile { kind: Input, thread_count: i64, files: Option<Vec<String>>, command: Option<String> },
    /// Write (and compile, unless skipped) the master notes of subjects.
    Master {
        subjects: Vec<String>,
        skip_compilation: bool,
        files: Option<Vec<String>>,
        template: Option<String>,
        command: Option<String>,
    },
}

} // verus!

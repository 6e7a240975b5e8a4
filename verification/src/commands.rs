//! Command lines for compiling notes: a command template is rendered with the
//! note's file name and split into a program and its arguments.
use vstd::prelude::*;
use crate::helpers::str_as_cmd;
use crate::helpers::string::{split_words, string_views, words_by};
use crate::masternote::{master_note_file, MasterNote};
use crate::note::{note_file_name, Note};
use crate::text::chars_of;

verus! {

/// What `handlebars::Handlebars::render_template` gives on a fresh registry
/// for a template and the data that `toml::Value::from_str` reads from a TOML
/// text (`None` when the text is not TOML or rendering fails).
pub uninterp spec fn rendered_with_toml(template: Seq<char>, data: Seq<char>) -> Option<Seq<char>>;

/// Reads `data` with `toml::Value::from_str` and renders `template` with it
/// through `handlebars::Handlebars::render_template` on a fresh registry;
/// `None` when the data is not TOML or rendering fails.
#[verifier::external_body]
fn render_with_toml(template: &str, data: &str) -> (r: Option<String>)
    ensures
        match r {
            Some(s) => rendered_with_toml(template@, data@) == Some(s@),
            None => rendered_with_toml(template@, data@) is None,
        },
{
    match data.parse::<toml::Value>() {
        Ok(value) => handlebars::Handlebars::new().render_template(template, &value).ok(),
        Err(_) => None,
    }
}

/// The data a command template is rendered with: the TOML text
/// `note = '<note_file>'`.
pub open spec fn note_data(note_file: Seq<char>) -> Seq<char> {
    "note = '"@ + note_file + "'"@
}

/// What rendering the command template with the note's data gives.
pub open spec fn rendered_command(template: Seq<char>, note_file: Seq<char>) -> Option<Seq<char>> {
    rendered_with_toml(template, note_data(note_file))
}

/// Renders the command template with the note's data.
fn render_for_file(template: &str, note_file: &str) -> (r: Option<String>)
    ensures
        match r {
            Some(s) => rendered_command(template@, note_file@) == Some(s@),
            None => rendered_command(template@, note_file@) is None,
        },
{
    let mut data = String::from_str("note = '");
    data.append(note_file);
    data.append("'");
    render_with_toml(template, data.as_str())
}

/// The command rendered for a file, when its data reads and it renders into
/// at least one word.
pub open spec fn command_renders(template: Seq<char>, file: Seq<char>) -> bool {
    rendered_command(template, file) matches Some(t) && words_by(t, false).len() > 0
}

/// The words of the command rendered for a file.
pub open spec fn command_words(template: Seq<char>, file: Seq<char>) -> Seq<Seq<char>> {
    words_by(rendered_command(template, file)->0, false)
}

fn command_for_file(cmd: &str, file: &str) -> (r: (String, Vec<String>))
    requires
        command_renders(cmd@, file@),
    ensures
        r.0@ == command_words(cmd@, file@)[0],
        string_views(r.1@) == command_words(cmd@, file@).drop_first(),
{
    match render_for_file(cmd, file) {
        Some(rendered) => str_as_cmd(rendered.as_str()),
        None => (String::new(), Vec::new()),
    }
}

fn try_command_for_file(cmd: &str, file: &str) -> (r: Option<(String, Vec<String>)>)
    ensures
        r is Some <==> command_renders(cmd@, file@),
        r matches Some(c) ==> c.0@ == command_words(cmd@, file@)[0] && string_views(c.1@)
            == command_words(cmd@, file@).drop_first(),
{
    match render_for_file(cmd, file) {
        Some(rendered) => {
            let words = split_words(&chars_of(rendered.as_str()), false);
            if words.len() == 0 {
                None
            } else {
                Some(command_for_file(cmd, file))
            }
        },
        None => None,
    }
}

/// The program and arguments that compile a note: the command template
/// rendered with the note's file name (the data `note = '<file>'`), split at
/// white space. The data must read and the rendering must give a word.
pub fn note_to_cmd(note: &Note, cmd: &str) -> (r: (String, Vec<String>))
    requires
        command_renders(cmd@, note_file_name(note@)),
    ensures
        r.0@ == command_words(cmd@, note_file_name(note@))[0],
        string_views(r.1@) == command_words(cmd@, note_file_name(note@)).drop_first(),
{
    let file = note.file_name();
    command_for_file(cmd, file.as_str())
}

/// Like `note_to_cmd`; `None` where the data does not read or the rendering
/// gives no word.
pub fn try_note_to_cmd(note: &Note, cmd: &str) -> (r: Option<(String, Vec<String>)>)
    ensures
        r is Some <==> command_renders(cmd@, note_file_name(note@)),
        r matches Some(c) ==> c.0@ == command_words(cmd@, note_file_name(note@))[0]
            && string_views(c.1@) == command_words(cmd@, note_file_name(note@)).drop_first(),
{
    let file = note.file_name();
    try_command_for_file(cmd, file.as_str())
}

/// The program and arguments that compile a master note: the command
/// template rendered with the master note's file name, split at white space.
/// The rendering must give a word.
pub fn master_note_to_cmd(master_note: &MasterNote, cmd: &str) -> (r: (String, Vec<String>))
    requires
        command_renders(cmd@, master_note_file()),
    ensures
        r.0@ == command_words(cmd@, master_note_file())[0],
        string_views(r.1@) == command_words(cmd@, master_note_file()).drop_first(),
{
    let file = master_note.file_name();
    command_for_file(cmd, file.as_str())
}

/// Like `master_note_to_cmd`; `None` where the rendering gives no word.
pub fn try_master_note_to_cmd(master_note: &MasterNote, cmd: &str) -> (r: Option<(String, Vec<String>)>)
    ensures
        r is Some <==> command_renders(cmd@, master_note_file()),
        r matches Some(c) ==> c.0@ == command_words(cmd@, master_note_file())[0] && string_views(c.1@)
            == command_words(cmd@, master_note_file()).drop_first(),
{
    let file = master_note.file_name();
    match try_command_for_file(cmd, file.as_str()) {
        Some(c) => {
            Some(master_note_to_cmd(master_note, cmd))
        },
        None => None,
    }
}

} // verus!

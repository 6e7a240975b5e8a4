//! The configurations of subjects and profiles.
use vstd::prelude::*;
use vstd::string::*;
use std::collections::HashMap;
use crate::consts::APP_VERSION;
use crate::helpers::string::string_views;

verus! {

#[verifier::external_type_specification]
#[verifier::external_body]
pub struct ExTomlValue(toml::Value);

pub open spec fn default_files_spec() -> Seq<Seq<char>> {
    seq!["*.tex"@]
}

pub open spec fn default_cmd_spec() -> Seq<char> {
    "pdflatex {{note}}"@
}

pub open spec fn default_name_spec() -> Seq<char> {
    "New Student"@
}

/// The file patterns of the notes of a subject when none are configured.
pub fn default_files() -> (r: Vec<String>)
    ensures
        string_views(r@) == default_files_spec(),
{
    let mut r: Vec<String> = Vec::new();
    r.push(String::from_str("*.tex"));
    assert(string_views(r@) =~= default_files_spec());
    r
}

/// The compilation command when none is configured.
pub fn default_cmd() -> (r: String)
    ensures
        r@ == default_cmd_spec(),
{
    String::from_str("pdflatex {{note}}")
}

/// The profile name when none is configured.
pub fn default_name() -> (r: String)
    ensures
        r@ == default_name_spec(),
{
    String::from_str("New Student")
}

/// The version a new profile records.
pub fn default_version() -> (r: String)
    ensures
        r@ == APP_VERSION@,
{
    String::from_str(APP_VERSION)
}

/// The configuration of a subject.
pub struct SubjectConfig {
    /// The file patterns of the notes (the `_files` key).
    pub files: Vec<String>,
    /// The compilation command.
    pub command: String,
    /// Any other keys.
    pub extra: HashMap<String, toml::Value>,
}

impl SubjectConfig {
    /// The default configuration: notes are the `*.tex` files and are
    /// compiled with `pdflatex {{note}}`.
    pub fn new() -> (r: Self)
        ensures
            string_views(r.files@) == default_files_spec(),
            r.command@ == default_cmd_spec(),
            r.extra@ == Map::<String, toml::Value>::empty(),
    {
        Self { files: default_files(), command: default_cmd(), extra: HashMap::new() }
    }
}

/// The configuration of a profile.
pub struct ProfileConfig {
    /// The name of the profile's owner.
    pub name: String,
    /// The version of the application that made the profile.
    pub version: String,
    /// The default configuration of subjects.
    pub subject: SubjectConfig,
    /// Any other keys.
    pub extra: HashMap<String, toml::Value>,
}

impl ProfileConfig {
    /// The default configuration: the default name, the current version and
    /// the default subject configuration.
    pub fn new() -> (r: Self)
        ensures
            r.name@ == default_name_spec(),
            r.version@ == APP_VERSION@,
            string_views(r.subject.files@) == default_files_spec(),
            r.subject.command@ == default_cmd_spec(),
            r.subject.extra@ == Map::<String, toml::Value>::empty(),
            r.extra@ == Map::<String, toml::Value>::empty(),
    {
        Self {
            subject: SubjectConfig::new(),
            name: default_name(),
            version: default_version(),
            extra: HashMap::new(),
        }
    }
}

} // verus!

//! Subjects: named folders in the shelf that hold notes and other subjects.
use vstd::prelude::*;
use vstd::string::*;
use crate::error::Error;
use crate::helpers::{
    clean_components, collect_components, collect_path, components_of, is_normal, kept,
    is_normal_component, lemma_normalize_collected, lemma_trim_idempotent, normalize_components,
    normalize_path, normalize_path_chars, normalized_components, path_components, path_push,
    push_path, root_dir, trim, vec_views,
};
use crate::helpers::string::{kebab_case, kebab_case_spec, lemma_kebab_case_spec_ascii, string_views};
use crate::helpers::{lemma_collect_without_caps_or_space, lemma_path_components_ascii, without_caps_or_space};
use crate::text::{is_ascii_text, is_white_space};
use crate::masternote::MasterNote;
use crate::shelf::Shelf;
use crate::text::{chars_of, slice_chars, string_of};

verus! {

/// The name of the metadata file of a subject folder.
pub open spec fn subject_metadata_file() -> Seq<char> {
    "info.toml"@
}

/// The last component of the path `s`, when it is a plain name.
pub open spec fn file_name_of(s: Seq<char>) -> Option<Seq<char>> {
    let cs = path_components(s);
    if cs.len() > 0 && is_normal(cs.last()) {
        Some(cs.last())
    } else {
        None
    }
}

/// The folder of a subject, relative to the shelf: each plain component of
/// its name in kebab case.
pub open spec fn subject_path(name: Seq<char>) -> Seq<char> {
    collect_path(
        path_components(name).map_values(
            |c: Seq<char>|
                if is_normal(c) {
                    kebab_case_spec(c)
                } else {
                    c
                },
        ),
    )
}

/// A subject's folder is its name with every plain component put in kebab
/// case, whatever its length, and the root, `.` and `..` kept as they are:
/// the folder is the path made of those components, one for each component
/// of the name, in order.
pub proof fn law_folder_kebab_cases_every_plain_component(name: Seq<char>)
    ensures
        ({
            let cs = path_components(name);
            subject_path(name) == collect_path(
                Seq::new(
                    cs.len(),
                    |i: int|
                        if cs[i] != root_dir() && cs[i] != seq!['.'] && cs[i] != seq!['.', '.'] {
                            kebab_case_spec(cs[i])
                        } else {
                            cs[i]
                        },
                ),
            )
        }),
{
    let cs = path_components(name);
    let ks = Seq::new(
        cs.len(),
        |i: int|
            if cs[i] != root_dir() && cs[i] != seq!['.'] && cs[i] != seq!['.', '.'] {
                kebab_case_spec(cs[i])
            } else {
                cs[i]
            },
    );
    assert(cs.map_values(
        |c: Seq<char>|
            if is_normal(c) {
                kebab_case_spec(c)
            } else {
                c
            },
    ) =~= ks);
}

/// The folder of a subject with an ASCII name has no white space and no
/// upper-case letter: every plain component is put in kebab case, whatever
/// its length.
pub proof fn law_ascii_folder_has_no_caps_or_space(name: Seq<char>)
    requires
        is_ascii_text(name),
    ensures
        without_caps_or_space(subject_path(name)),
{
    let cs = path_components(name);
    lemma_path_components_ascii(name);
    let ks = cs.map_values(
        |c: Seq<char>|
            if is_normal(c) {
                kebab_case_spec(c)
            } else {
                c
            },
    );
    assert forall|i: int| 0 <= i < ks.len() implies without_caps_or_space(#[trigger] ks[i]) by {
        let c = cs[i];
        assert(is_ascii_text(c));
        if is_normal(c) {
            lemma_kebab_case_spec_ascii(c);
            assert(ks[i] == kebab_case_spec(c));
        } else {
            assert(ks[i] == c);
            if c == root_dir() {
                assert(c =~= seq!['/']);
            } else if c == seq!['.'] {
                assert(c =~= seq!['.']);
            } else {
                assert(c =~= seq!['.', '.']);
            }
            assert forall|k: int| 0 <= k < c.len() implies !is_white_space(#[trigger] c[k]) && !('A' <= c[k]
                && c[k] <= 'Z') by {
                assert(c[k] == '/' || c[k] == '.');
            }
        }
    }
    lemma_collect_without_caps_or_space(ks);
}

/// The names of the subjects along the components `cs`: the first one alone,
/// then each further component pushed onto the previous name, each normalized.
pub open spec fn split_names(cs: Seq<Seq<char>>) -> Seq<Seq<char>>
    decreases cs.len(),
{
    if cs.len() == 0 {
        seq![]
    } else {
        let prev = split_names(cs.drop_last());
        prev.push(
            normalize_path(
                if prev.len() > 0 {
                    path_push(prev.last(), cs.last())
                } else {
                    cs.last()
                },
            ),
        )
    }
}

/// A subject where it can contain notes or other subjects.
///
/// In the filesystem, a subject is a folder.
pub struct Subject {
    name: String,
}

impl View for Subject {
    /// The full name of the subject (with its parent subjects).
    type V = Seq<char>;

    closed spec fn view(&self) -> Seq<char> {
        self.name@
    }
}

/// The texts of the members that have one, in order.
pub open spec fn kept_texts(items: Seq<Option<Seq<char>>>) -> Seq<Seq<char>>
    decreases items.len(),
{
    if items.len() == 0 {
        seq![]
    } else {
        match items.last() {
            Some(v) => kept_texts(items.drop_last()).push(v),
            None => kept_texts(items.drop_last()),
        }
    }
}

/// The note filter keeps every string member, in order: the strings of two
/// lists of members put one after the other are those of the first followed
/// by those of the second; a string member adds its text, any other member
/// adds nothing; and every string member is among those kept.
pub proof fn law_note_filter_keeps_every_string(
    items: Seq<Option<Seq<char>>>,
    more: Seq<Option<Seq<char>>>,
    v: Seq<char>,
)
    ensures
        kept_texts(items + more) == kept_texts(items) + kept_texts(more),
        kept_texts(items.push(Some(v))) == kept_texts(items).push(v),
        kept_texts(items.push(None)) == kept_texts(items),
        forall|j: int|
            0 <= j < items.len() && items[j] is Some ==> kept_texts(items).contains(
                #[trigger] items[j]->0,
            ),
    decreases more.len() + items.len(),
{
    if more.len() == 0 {
        assert(items + more =~= items);
        assert(kept_texts(items) + kept_texts(more) =~= kept_texts(items));
    } else {
        law_note_filter_keeps_every_string(items, more.drop_last(), v);
        assert((items + more).drop_last() =~= items + more.drop_last());
        assert((items + more).last() == more.last());
        match more.last() {
            Some(w) => {
                assert(kept_texts(items) + kept_texts(more) =~= (kept_texts(items) + kept_texts(
                    more.drop_last(),
                )).push(w));
            },
            None => {},
        }
    }
    assert(items.push(Some(v)).drop_last() =~= items);
    assert(items.push(None::<Seq<char>>).drop_last() =~= items);
    if items.len() > 0 {
        let e = Seq::<Option<Seq<char>>>::empty();
        law_note_filter_keeps_every_string(items.drop_last(), e, v);
        assert forall|j: int|
            0 <= j < items.len() && items[j] is Some implies kept_texts(items).contains(
                #[trigger] items[j]->0,
            ) by {
            let a = kept_texts(items.drop_last());
            if j < items.len() - 1 {
                assert(items.drop_last()[j] == items[j]);
                let k = choose|k: int| 0 <= k < a.len() && a[k] == items[j]->0;
                assert(kept_texts(items)[k] == a[k]);
            } else {
                assert(kept_texts(items) == a.push(items[j]->0));
                assert(kept_texts(items)[a.len() as int] == items[j]->0);
            }
        }
    }
}

/// The members as optional texts.
pub open spec fn option_views(items: Seq<Option<String>>) -> Seq<Option<Seq<char>>> {
    items.map_values(|o: Option<String>| match o {
        Some(v) => Some(v@),
        None => None,
    })
}

/// Whether `toml::from_str` reads the text as a TOML document.
pub uninterp spec fn toml_parses(text: Seq<char>) -> bool;

/// What the entry `key` of a TOML document holds when it is an array: `None`
/// when the text is not TOML; `Some(None)` when there is no such entry or it
/// is not an array; otherwise each member of the array, with its text when it
/// is a string.
pub uninterp spec fn toml_array_entry(text: Seq<char>, key: Seq<char>) -> Option<Option<Seq<Option<Seq<char>>>>>;

/// `toml::from_str::<toml::Value>`: the document the text holds, or the
/// message of the parsing error.
#[verifier::external_body]
fn toml_value_from_str(text: &str) -> (r: Result<toml::Value, String>)
    ensures
        r is Ok <==> toml_parses(text@),
{
    match toml::from_str::<toml::Value>(text) {
        Ok(value) => Ok(value),
        Err(e) => Err(e.to_string()),
    }
}

/// `toml::from_str::<toml::Value>`, then `Value::get(key)`: the entry `key`
/// of the document when it is an array, each member with its text when it is
/// a string.
#[verifier::external_body]
fn toml_read_array_entry(text: &str, key: &str) -> (r: Option<Option<Vec<Option<String>>>>)
    ensures
        match r {
            None => toml_array_entry(text@, key@) is None,
            Some(None) => toml_array_entry(text@, key@) == Some(None::<Seq<Option<Seq<char>>>>),
            Some(Some(v)) => toml_array_entry(text@, key@) == Some(Some(option_views(v@))),
        },
        r is None <==> !toml_parses(text@),
{
    let value: toml::Value = match toml::from_str(text) {
        Ok(value) => value,
        Err(_) => return None,
    };
    let items = match value.get(key) {
        Some(toml::Value::Array(items)) => items,
        _ => return Some(None),
    };
    Some(Some(items.iter().map(|item| match item {
        toml::Value::String(s) => Some(s.clone()),
        _ => None,
    }).collect()))
}

/// The file patterns that the metadata text of a subject gives (`None` when
/// there is no metadata file): the strings of its `_files` array, in order;
/// the default `*.tex` when there is no text, it is not TOML, or it has no
/// `_files` array.
pub open spec fn metadata_patterns(text: Option<Seq<char>>) -> Seq<Seq<char>> {
    match text {
        Some(t) => match toml_array_entry(t, "_files"@) {
            Some(Some(items)) => kept_texts(items),
            _ => seq!["*.tex"@],
        },
        None => seq!["*.tex"@],
    }
}

pub open spec fn subject_views(ss: Seq<Subject>) -> Seq<Seq<char>> {
    ss.map_values(|s: Subject| s@)
}

/// The `_files` entry of a subject's metadata, as read from its file.
pub enum FilesEntry {
    /// There is no metadata file, or it has no `_files` entry.
    Missing,
    /// The entry is there but is not an array.
    Invalid,
    /// The entry is an array: each member with its text when it is a string.
    Array(Vec<Option<String>>),
}

impl Subject {
    /// Creates a new subject instance with an empty name.
    pub fn new() -> (r: Self)
        ensures
            r@ == Seq::<char>::empty(),
    {
        Self { name: String::new() }
    }

    /// Create a subject instance from the given string. The input is
    /// normalized as a path: `.` is dropped, `..` removes the component before
    /// it, and every component is trimmed of surrounding white space.
    pub fn from(name: &str) -> (r: Self)
        ensures
            r@ == normalize_path(name@),
    {
        let cs = chars_of(name);
        let n = normalize_path_chars(&cs);
        Self { name: string_of(&n) }
    }

    /// The subject named `name` in `shelf`, provided its folder exists
    /// (`is_dir` tells whether it does); an `InvalidSubjectError` with the
    /// folder's path otherwise.
    pub fn from_shelf(name: &str, shelf: &Shelf, is_dir: bool) -> (r: Result<Self, Error>)
        ensures
            is_dir ==> (r matches Ok(s) && s@ == normalize_path(name@)),
            !is_dir ==> (r matches Err(Error::InvalidSubjectError(p)) && p@ == path_push(
                shelf@,
                subject_path(normalize_path(name@)),
            )),
    {
        let subject = Subject::from(name);
        if !is_dir {
            return Err(Error::InvalidSubjectError(subject.path_in_shelf(shelf)));
        }
        Ok(subject)
    }

    /// The subjects of the given names that are found in the shelf:
    /// `is_dir[i]` tells whether the folder of the i-th name is there.
    pub fn from_vec(subjects: &Vec<&str>, shelf: &Shelf, is_dir: &Vec<bool>) -> (r: Vec<Self>)
        requires
            is_dir@.len() == subjects@.len(),
        ensures
            subject_views(r@) == kept(
                subjects@.map_values(|s: &str| normalize_path(s@)),
                is_dir@,
                true,
            ),
    {
        let ghost names = subjects@.map_values(|s: &str| normalize_path(s@));
        let mut r: Vec<Self> = Vec::new();
        let mut i: usize = 0;
        while i < subjects.len()
            invariant
                i <= subjects@.len(),
                is_dir@.len() == subjects@.len(),
                names == subjects@.map_values(|s: &str| normalize_path(s@)),
                subject_views(r@) == kept(names.take(i as int), is_dir@, true),
            decreases subjects@.len() - i,
        {
            proof {
                assert(names.take(i + 1).drop_last() =~= names.take(i as int));
            }
            if is_dir[i] {
                match Subject::from_shelf(subjects[i], shelf, true) {
                    Ok(subject) => {
                        let ghost before = r@;
                        r.push(subject);
                        proof {
                            assert(subject_views(r@) =~= subject_views(before).push(names[i as int]));
                        }
                    },
                    Err(_) => {},
                }
            }
            i += 1;
        }
        proof {
            assert(names.take(subjects@.len() as int) =~= names);
        }
        r
    }

    /// The subjects of the given names. Whether a subject is found in the
    /// shelf or not, the result is the subject made from its name.
    pub fn from_vec_loose(subjects: &Vec<&str>, shelf: &Shelf) -> (r: Vec<Self>)
        ensures
            r.len() == subjects.len(),
            forall|i: int| 0 <= i < r.len() ==> #[trigger] r@[i]@ == normalize_path(subjects@[i]@),
    {
        let mut r: Vec<Self> = Vec::new();
        let mut i: usize = 0;
        while i < subjects.len()
            invariant
                i <= subjects.len(),
                r.len() == i,
                forall|j: int| 0 <= j < i ==> #[trigger] r@[j]@ == normalize_path(subjects@[j]@),
            decreases subjects.len() - i,
        {
            r.push(Subject::from(subjects[i]));
            i += 1;
        }
        r
    }

    /// Returns the full name (with the parent folders) of the subject.
    pub fn full_name(&self) -> (r: &String)
        ensures
            r@ == self@,
    {
        &self.name
    }

    /// Whether the name of the subject ends with a plain component, which is
    /// what `name` and `stem` need.
    pub fn has_name(&self) -> (r: bool)
        ensures
            r == file_name_of(self@) is Some,
    {
        let cs = components_of(&chars_of(self.name.as_str()));
        cs.len() > 0 && is_normal_component(&cs[cs.len() - 1])
    }

    /// Returns the name of the subject: its last component, whole.
    pub fn name(&self) -> (r: String)
        requires
            file_name_of(self@) is Some,
        ensures
            r@ == file_name_of(self@)->0,
    {
        let cs = components_of(&chars_of(self.name.as_str()));
        let f = &cs[cs.len() - 1];
        string_of(f)
    }

    /// Returns the subject path relative to the shelf.
    pub fn path(&self) -> (r: String)
        ensures
            r@ == subject_path(self@),
    {
        let cs = components_of(&chars_of(self.name.as_str()));
        let ghost cv = vec_views(cs@);
        let mut mapped: Vec<Vec<char>> = Vec::new();
        let mut i: usize = 0;
        while i < cs.len()
            invariant
                i <= cs.len(),
                cv == vec_views(cs@),
                vec_views(mapped@) == cv.take(i as int).map_values(
                    |c: Seq<char>|
                        if is_normal(c) {
                            kebab_case_spec(c)
                        } else {
                            c
                        },
                ),
            decreases cs.len() - i,
        {
            let m = if is_normal_component(&cs[i]) {
                chars_of(kebab_case(string_of(&cs[i]).as_str()).as_str())
            } else {
                slice_chars(&cs[i], 0, cs[i].len())
            };
            assert(m@ == (if is_normal(cv[i as int]) { kebab_case_spec(cv[i as int]) } else { cv[i as int] }));
            let ghost old_m = mapped@;
            mapped.push(m);
            assert(vec_views(mapped@) =~= vec_views(old_m).push(m@));
            assert(cv.take(i + 1).map_values(
                |c: Seq<char>|
                    if is_normal(c) {
                        kebab_case_spec(c)
                    } else {
                        c
                    },
            ) =~= cv.take(i as int).map_values(
                |c: Seq<char>|
                    if is_normal(c) {
                        kebab_case_spec(c)
                    } else {
                        c
                    },
            ).push(m@));
            i += 1;
        }
        assert(cv.take(cs.len() as int) =~= cv);
        string_of(&collect_components(&mapped))
    }

    /// Returns the path of the subject folder in the given shelf.
    pub fn path_in_shelf(&self, shelf: &Shelf) -> (r: String)
        ensures
            r@ == path_push(shelf@, subject_path(self@)),
    {
        let mut p = chars_of(shelf.path().as_str());
        push_path(&mut p, &chars_of(self.path().as_str()));
        string_of(&p)
    }

    /// Returns the last subject component as a subject instance.
    pub fn stem(&self) -> (r: Self)
        requires
            file_name_of(self@) is Some,
        ensures
            r@ == file_name_of(self@)->0,
    {
        Self { name: self.name() }
    }

    /// Returns the path of the metadata file of the subject, relative to the
    /// shelf.
    pub fn metadata_path(&self) -> (r: String)
        ensures
            r@ == path_push(subject_path(self@), subject_metadata_file()),
    {
        let mut p = chars_of(self.path().as_str());
        push_path(&mut p, &chars_of("info.toml"));
        string_of(&p)
    }

    /// Returns the path of the metadata file of the subject in the given shelf.
    pub fn metadata_path_in_shelf(&self, shelf: &Shelf) -> (r: String)
        ensures
            r@ == path_push(path_push(shelf@, subject_path(self@)), subject_metadata_file()),
    {
        let mut p = chars_of(self.path_in_shelf(shelf).as_str());
        push_path(&mut p, &chars_of("info.toml"));
        string_of(&p)
    }

    /// Returns the subjects along the name: for `A/B/C` the subjects `A`,
    /// `A/B` and `A/B/C`. This does not check whether they are exported.
    pub fn split_subjects(&self) -> (r: Vec<Self>)
        ensures
            subject_views(r@) == split_names(path_components(self@)),
    {
        let cs = components_of(&chars_of(self.name.as_str()));
        let ghost cv = vec_views(cs@);
        let mut subjects: Vec<Self> = Vec::new();
        let mut i: usize = 0;
        while i < cs.len()
            invariant
                i <= cs.len(),
                cv == vec_views(cs@),
                subject_views(subjects@) == split_names(cv.take(i as int)),
            decreases cs.len() - i,
        {
            let ghost t = cv.take(i + 1);
            assert(t.drop_last() =~= cv.take(i as int));
            assert(t.last() == cs@[i as int]@);
            let s = if subjects.len() > 0 {
                let mut item_path = chars_of(subjects[subjects.len() - 1].name.as_str());
                push_path(&mut item_path, &cs[i]);
                Subject::from(string_of(&item_path).as_str())
            } else {
                Subject::from(string_of(&cs[i]).as_str())
            };
            let ghost old_s = subjects@;
            subjects.push(s);
            assert(subject_views(subjects@) =~= subject_views(old_s).push(s@));
            i += 1;
        }
        assert(cv.take(cs.len() as int) =~= cv);
        subjects
    }

    /// The file patterns of the notes of the subject, from the `_files` entry
    /// of its metadata. When there is no metadata file, no such entry, or an
    /// entry that is not an array, the patterns are the default `*.tex`;
    /// otherwise they are the strings among the members of the array, in
    /// order.
    pub fn note_filter(&self, files: FilesEntry) -> (r: Vec<String>)
        ensures
            string_views(r@) == match files {
                FilesEntry::Array(items) => kept_texts(option_views(items@)),
                _ => seq!["*.tex"@],
            },
    {
        match files {
            FilesEntry::Missing | FilesEntry::Invalid => {
                let mut r: Vec<String> = Vec::new();
                r.push(String::from_str("*.tex"));
                assert(string_views(r@) =~= seq!["*.tex"@]);
                r
            },
            FilesEntry::Array(items) => {
                let mut r: Vec<String> = Vec::new();
                let mut i: usize = 0;
                while i < items.len()
                    invariant
                        i <= items.len(),
                        string_views(r@) == kept_texts(option_views(items@).take(i as int)),
                    decreases items.len() - i,
                {
                    assert(option_views(items@).take(i + 1).drop_last() =~= option_views(items@).take(i as int));
                    assert(option_views(items@).take(i + 1).last() == option_views(items@)[i as int]);
                    match &items[i] {
                        Some(v) => {
                            let ghost old_r = r@;
                            r.push(v.clone());
                            assert(string_views(r@) =~= string_views(old_r).push(v@));
                        },
                        None => {},
                    }
                    i += 1;
                }
                assert(option_views(items@).take(items.len() as int) =~= option_views(items@));
                r
            },
        }
    }

    /// The file patterns of the notes of the subject, from the text of its
    /// metadata file (`None` when there is none): the strings of its `_files`
    /// array, in order, or the default `*.tex` when there is no text, it is
    /// not TOML, or it has no `_files` array.
    pub fn note_filter_of_metadata(&self, metadata: Option<&str>) -> (r: Vec<String>)
        ensures
            string_views(r@) == metadata_patterns(
                match metadata {
                    Some(t) => Some(t@),
                    None => None,
                },
            ),
    {
        match metadata {
            None => self.note_filter(FilesEntry::Missing),
            Some(text) => match toml_read_array_entry(text, "_files") {
                None => self.note_filter(FilesEntry::Missing),
                Some(None) => self.note_filter(FilesEntry::Invalid),
                Some(Some(items)) => self.note_filter(FilesEntry::Array(items)),
            },
        }
    }

    /// The metadata of the subject, from the text of its metadata file: the
    /// TOML document it holds, or a `TomlValueError` when it is not TOML.
    pub fn get_metadata(&self, content: &str) -> (r: Result<toml::Value, Error>)
        ensures
            r is Ok <==> toml_parses(content@),
            r is Err ==> (r matches Err(Error::TomlValueError(_))),
    {
        match toml_value_from_str(content) {
            Ok(value) => Ok(value),
            Err(message) => Err(Error::TomlValueError(message)),
        }
    }

    /// A master note for the subject, with no notes yet.
    pub fn create_master_note(&self) -> (r: MasterNote)
        ensures
            r@ == (self@, Seq::<Seq<char>>::empty()),
    {
        MasterNote::new(Subject { name: self.name.clone() })
    }
}

// ---------------------------------------------------------------------------
// Laws
// ---------------------------------------------------------------------------

proof fn lemma_clean_prefix(cs: Seq<Seq<char>>, n: int)
    requires
        clean_components(cs),
        forall|i: int| 0 <= i < cs.len() ==> trim(#[trigger] cs[i]) == cs[i],
        0 <= n <= cs.len(),
    ensures
        clean_components(cs.take(n)),
        forall|i: int| 0 <= i < cs.take(n).len() ==> trim(#[trigger] cs.take(n)[i]) == cs.take(n)[i],
{
    assert forall|i: int| 0 <= i < cs.take(n).len() implies {
        ||| (i == 0 && #[trigger] cs.take(n)[i] == root_dir())
        ||| (cs.take(n)[i].len() > 0 && is_normal(cs.take(n)[i]) && !cs.take(n)[i].contains('/'))
    } by {
        assert(cs.take(n)[i] == cs[i]);
    }
    assert forall|i: int| 0 <= i < cs.take(n).len() implies trim(#[trigger] cs.take(n)[i]) == cs.take(n)[i] by {
        assert(cs.take(n)[i] == cs[i]);
    }
}

/// The split names of a clean list of trimmed components are the printed
/// prefixes of the list.
proof fn lemma_split_names_prefixes(cs: Seq<Seq<char>>)
    requires
        clean_components(cs),
        forall|i: int| 0 <= i < cs.len() ==> trim(#[trigger] cs[i]) == cs[i],
    ensures
        split_names(cs).len() == cs.len(),
        forall|i: int| 0 <= i < cs.len() ==> #[trigger] split_names(cs)[i] == collect_path(cs.take(i + 1)),
    decreases cs.len(),
{
    if cs.len() > 0 {
        let pre = cs.drop_last();
        lemma_clean_prefix(cs, cs.len() - 1);
        assert(cs.take(cs.len() - 1) =~= pre);
        lemma_split_names_prefixes(pre);
        let prev = split_names(pre);
        assert(cs.take(cs.len() as int) =~= cs);
        lemma_normalize_collected(cs);
        if prev.len() > 0 {
            assert(prev.last() == collect_path(pre.take(pre.len() as int)));
            assert(pre.take(pre.len() as int) =~= pre);
            assert(path_push(prev.last(), cs.last()) == collect_path(cs));
        } else {
            assert(cs.len() == 1);
            assert(pre =~= Seq::<Seq<char>>::empty());
            assert(collect_path(pre) == Seq::<char>::empty());
            assert(collect_path(cs) == path_push(Seq::<char>::empty(), cs.last()));
            assert(path_push(Seq::<char>::empty(), cs.last()) =~= cs.last());
        }
        assert forall|i: int| 0 <= i < cs.len() implies #[trigger] split_names(cs)[i] == collect_path(
            cs.take(i + 1),
        ) by {
            if i < cs.len() - 1 {
                assert(split_names(cs)[i] == prev[i]);
                assert(pre.take(i + 1) =~= cs.take(i + 1));
            }
        }
    }
}

/// The subjects along a subject's name are the prefixes of the name, one per
/// component, the last one being the subject itself; this holds whenever
/// the name is normalized to clean components (plain, non-empty names, the
/// root only in front).
pub proof fn law_split_subjects_are_prefixes(name: Seq<char>)
    requires
        clean_components(normalized_components(name)),
    ensures
        ({
            let cs = normalized_components(name);
            let subject = normalize_path(name);
            &&& path_components(subject) == cs
            &&& split_names(path_components(subject)).len() == cs.len()
            &&& forall|i: int|
                0 <= i < cs.len() ==> #[trigger] split_names(path_components(subject))[i]
                    == collect_path(cs.take(i + 1))
            &&& cs.len() > 0 ==> split_names(path_components(subject)).last() == subject
        }),
{
    let cs = normalized_components(name);
    assert forall|i: int| 0 <= i < cs.len() implies trim(#[trigger] cs[i]) == cs[i] by {
        lemma_trim_idempotent(normalize_components(path_components(name))[i]);
    }
    lemma_normalize_collected(cs);
    crate::helpers::law_components_of_collected(cs);
    lemma_split_names_prefixes(cs);
    if cs.len() > 0 {
        assert(cs.take(cs.len() as int) =~= cs);
    }
}

} // verus!

//! A profile holds what the operations need besides the shelf: the
//! configuration of its owner and the templates.
//!
//! On the filesystem it is a folder with a metadata file and a folder of
//! templates.
use vstd::prelude::*;
use vstd::string::*;
use std::collections::HashMap;
use crate::config::{default_files_spec, default_cmd_spec, default_name_spec, ProfileConfig};
use crate::helpers::string::string_views;
use crate::consts::{APP_VERSION, MASTER_NOTE_TEMPLATE, NOTE_TEMPLATE};
use crate::error::Error;
use crate::helpers::{path_push, push_path};
use crate::templates::{compiled_sources, template_compiles, template_views, Template, TemplateHandlebarsRegistry};
use crate::text::{chars_of, string_of};

verus! {

pub const PROFILE_METADATA_FILENAME: &'static str = ".profile.toml";

pub const PROFILE_TEMPLATE_FILES_DIR_NAME: &'static str = ".templates";

pub const TEMPLATE_FILE_EXTENSION: &'static str = "hbs";

pub const PROFILE_NOTE_TEMPLATE_NAME: &'static str = "_default";

pub const PROFILE_MASTER_NOTE_TEMPLATE_NAME: &'static str = "master/_default";

/// A builder for constructing the profile. Setting the values does not
/// consume the builder.
pub struct ProfileBuilder {
    path: Option<String>,
    name: Option<String>,
    extra_metadata: Option<HashMap<String, toml::Value>>,
}

impl View for ProfileBuilder {
    /// The path and the name set so far, and the extra metadata if set.
    type V = (Option<Seq<char>>, Option<Seq<char>>, Option<Map<String, toml::Value>>);

    closed spec fn view(&self) -> (Option<Seq<char>>, Option<Seq<char>>, Option<Map<String, toml::Value>>) {
        (
            match self.path {
                Some(p) => Some(p@),
                None => None,
            },
            match self.name {
                Some(n) => Some(n@),
                None => None,
            },
            match self.extra_metadata {
                Some(m) => Some(m@),
                None => None,
            },
        )
    }
}

impl ProfileBuilder {
    /// Creates a new profile builder instance, with nothing set.
    pub fn new() -> (r: Self)
        ensures
            r@ == (None::<Seq<char>>, None::<Seq<char>>, None::<Map<String, toml::Value>>),
    {
        Self { path: None, name: None, extra_metadata: None }
    }

    /// Sets the path for the builder.
    pub fn path(&mut self, p: &str) -> (r: &mut Self)
        ensures
            r@ == (Some(p@), old(self)@.1, old(self)@.2),
            final(self)@ == final(r)@,
    {
        self.path = Some(String::from_str(p));
        self
    }

    /// Sets the name of the profile.
    pub fn name(&mut self, name: &str) -> (r: &mut Self)
        ensures
            r@ == (old(self)@.0, Some(name@), old(self)@.2),
            final(self)@ == final(r)@,
    {
        self.name = Some(String::from_str(name));
        self
    }

    /// Sets the extra metadata of the profile.
    pub fn extra_metadata(&mut self, extra: HashMap<String, toml::Value>) -> (r: &mut Self)
        ensures
            r@ == (old(self)@.0, old(self)@.1, Some(extra@)),
            final(self)@ == final(r)@,
    {
        self.extra_metadata = Some(extra);
        self
    }

    /// Consumes the builder to create the profile: at the path set (the empty
    /// path otherwise), with the default configuration in which the name and
    /// the extra metadata set replace the defaults, and no template.
    pub fn build(self) -> (r: Profile)
        ensures
            r@.0 == match self@.0 {
                Some(p) => p,
                None => Seq::<char>::empty(),
            },
            r@.1 == Map::<Seq<char>, Seq<char>>::empty(),
            !r.escapes_output(),
            r.configuration().name@ == match self@.1 {
                Some(n) => n,
                None => default_name_spec(),
            },
            r.configuration().extra@ == match self@.2 {
                Some(m) => m,
                None => Map::<String, toml::Value>::empty(),
            },
            r.configuration().version@ == APP_VERSION@,
            string_views(r.configuration().subject.files@) == default_files_spec(),
            r.configuration().subject.command@ == default_cmd_spec(),
            r.configuration().subject.extra@ == Map::<String, toml::Value>::empty(),
    {
        let mut profile = Profile::new();
        match self.path {
            Some(path) => {
                profile.path = path;
            },
            None => {},
        }
        let mut metadata_instance = ProfileConfig::new();
        match self.name {
            Some(name) => {
                metadata_instance.name = name;
            },
            None => {},
        }
        match self.extra_metadata {
            Some(extra) => {
                metadata_instance.extra = extra;
            },
            None => {},
        }
        profile.config = metadata_instance;
        profile
    }
}

/// The default templates: the note template and the master note template.
pub open spec fn default_sources() -> Map<Seq<char>, Seq<char>> {
    Map::<Seq<char>, Seq<char>>::empty().insert(PROFILE_NOTE_TEMPLATE_NAME@, NOTE_TEMPLATE@).insert(
        PROFILE_MASTER_NOTE_TEMPLATE_NAME@,
        MASTER_NOTE_TEMPLATE@,
    )
}

/// A profile holds certain metadata such as the templates.
pub struct Profile {
    path: String,
    config: ProfileConfig,
    templates: TemplateHandlebarsRegistry,
}

impl View for Profile {
    /// The path of the profile and the names of its templates.
    type V = (Seq<char>, Map<Seq<char>, Seq<char>>);

    closed spec fn view(&self) -> (Seq<char>, Map<Seq<char>, Seq<char>>) {
        (self.path@, self.templates@)
    }
}

impl Profile {
    /// Whether the profile's registry HTML-escapes what it renders.
    pub closed spec fn escapes_output(&self) -> bool {
        self.templates.escapes_output()
    }

    /// Creates a profile instance with an empty path, the default
    /// configuration and no template.
    pub fn new() -> (r: Self)
        ensures
            r@ == (Seq::<char>::empty(), Map::<Seq<char>, Seq<char>>::empty()),
            !r.escapes_output(),
            r.configuration().name@ == default_name_spec(),
            r.configuration().version@ == APP_VERSION@,
            string_views(r.configuration().subject.files@) == default_files_spec(),
            r.configuration().subject.command@ == default_cmd_spec(),
            r.configuration().subject.extra@ == Map::<String, toml::Value>::empty(),
            r.configuration().extra@ == Map::<String, toml::Value>::empty(),
    {
        Self {
            path: String::new(),
            config: ProfileConfig::new(),
            templates: TemplateHandlebarsRegistry::new(),
        }
    }

    /// Opens an exported profile from what its folder holds: `has_templates`
    /// tells whether the folder of templates is there, `templates` are the
    /// template files found in it (named by their path in that folder, without
    /// extension) and `config` is the configuration read from its metadata
    /// file. Without the folder of templates the profile is invalid. The
    /// default templates are registered first, and the templates found whose
    /// text parses replace them where they share a name; the others are passed
    /// over.
    pub fn from(path: &str, has_templates: bool, templates: &Vec<Template>, config: ProfileConfig) -> (r: Result<Self, Error>)
        ensures
            !has_templates ==> (r matches Err(Error::InvalidProfileError(p)) && p@ == path@),
            r is Ok <==> has_templates && template_compiles(NOTE_TEMPLATE@) && template_compiles(
                MASTER_NOTE_TEMPLATE@,
            ),
            r matches Ok(p) ==> p@ == (path@, default_sources().union_prefer_right(
                compiled_sources(template_views(templates@)),
            )) && !p.escapes_output() && p.configuration() == config,
            has_templates && !(template_compiles(NOTE_TEMPLATE@) && template_compiles(
                MASTER_NOTE_TEMPLATE@,
            )) ==> (r matches Err(Error::HandlebarsTemplateError(_))),
    {
        let mut profile = Self::new();
        profile.path = String::from_str(path);
        if !has_templates {
            return Err(Error::InvalidProfileError(String::from_str(path)));
        }
        match profile.init_templates() {
            Ok(()) => {},
            Err(e) => {
                return Err(e);
            },
        }
        let _registered = profile.templates.register_vec(templates);
        profile.config = config;
        Ok(profile)
    }

    /// The configuration of the profile.
    pub closed spec fn configuration(&self) -> ProfileConfig {
        self.config
    }

    /// Returns the configuration of the profile.
    pub fn config(&self) -> (r: &ProfileConfig)
        ensures
            *r == self.configuration(),
    {
        &self.config
    }

    /// Returns the path of the profile.
    pub fn path(&self) -> (r: String)
        ensures
            r@ == self@.0,
    {
        self.path.clone()
    }

    /// Returns the template registry of the profile.
    pub fn template_registry(&self) -> (r: &TemplateHandlebarsRegistry)
        ensures
            r@ == self@.1,
            r.escapes_output() == self.escapes_output(),
    {
        &self.templates
    }

    /// Returns the template registry of the profile, to register more into it.
    pub fn template_registry_mut(&mut self) -> (r: &mut TemplateHandlebarsRegistry)
        ensures
            r@ == old(self)@.1,
            r.escapes_output() == old(self).escapes_output(),
            final(self)@ == (old(self)@.0, final(r)@),
            final(self).escapes_output() == final(r).escapes_output(),
            final(self).configuration() == old(self).configuration(),
    {
        &mut self.templates
    }

    /// Initializes the template registry: a fresh one that does not escape
    /// output, holding only the default note and master note templates. When
    /// one of them does not parse the profile is left as it was. The template
    /// helpers are the caller's to register, through `template_registry_mut`.
    pub fn init_templates(&mut self) -> (r: Result<(), Error>)
        ensures
            r is Ok <==> template_compiles(NOTE_TEMPLATE@) && template_compiles(
                MASTER_NOTE_TEMPLATE@,
            ),
            r is Ok ==> final(self)@ == (old(self)@.0, default_sources()),
            r is Ok ==> !final(self).escapes_output(),
            r is Err ==> final(self)@ == old(self)@,
            r is Err ==> final(self).escapes_output() == old(self).escapes_output(),
            r is Err ==> (r matches Err(Error::HandlebarsTemplateError(_))),
            final(self).configuration() == old(self).configuration(),
    {
        let mut registry = TemplateHandlebarsRegistry::new();
        match registry.register_template_string(PROFILE_NOTE_TEMPLATE_NAME, NOTE_TEMPLATE) {
            Ok(()) => {},
            Err(e) => {
                return Err(e);
            },
        }
        match registry.register_template_string(
            PROFILE_MASTER_NOTE_TEMPLATE_NAME,
            MASTER_NOTE_TEMPLATE,
        ) {
            Ok(()) => {},
            Err(e) => {
                return Err(e);
            },
        }

        self.templates = registry;
        Ok(())
    }

    /// Returns the path of the metadata file of the profile.
    pub fn metadata_path(&self) -> (r: String)
        ensures
            r@ == path_push(self@.0, PROFILE_METADATA_FILENAME@),
    {
        let mut p = chars_of(self.path.as_str());
        push_path(&mut p, &chars_of(PROFILE_METADATA_FILENAME));
        string_of(&p)
    }

    /// Returns the path of the templates folder of the profile.
    pub fn templates_path(&self) -> (r: String)
        ensures
            r@ == path_push(self@.0, PROFILE_TEMPLATE_FILES_DIR_NAME@),
    {
        let mut p = chars_of(self.path.as_str());
        push_path(&mut p, &chars_of(PROFILE_TEMPLATE_FILES_DIR_NAME));
        string_of(&p)
    }

    /// What exporting the profile has to create, given what is already there
    /// (`is_exported`: its folder, `has_metadata`: its metadata file,
    /// `has_templates`: its folder of templates). A profile that has all three
    /// already exists, and exporting it fails.
    pub fn export_steps(&self, is_exported: bool, has_metadata: bool, has_templates: bool) -> (r: Result<ProfileExport, Error>)
        ensures
            is_exported && has_templates && has_metadata ==> (r matches Err(
                Error::ProfileAlreadyExists(p),
            ) && p@ == self@.0),
            !(is_exported && has_templates && has_metadata) ==> (r matches Ok(steps)
                && steps.create_folder == !is_exported && steps.write_metadata == !has_metadata
                && steps.create_templates == !has_templates),
    {
        if is_exported && has_templates && has_metadata {
            return Err(Error::ProfileAlreadyExists(self.path()));
        }
        Ok(ProfileExport {
            create_folder: !is_exported,
            write_metadata: !has_metadata,
            create_templates: !has_templates,
        })
    }
}

/// What an export of a profile creates in the filesystem.
pub struct ProfileExport {
    /// The folder of the profile.
    pub create_folder: bool,
    /// The metadata file, holding the configuration.
    pub write_metadata: bool,
    /// The folder of templates.
    pub create_templates: bool,
}

} // verus!

//! The template registry, backed by the Handlebars template engine.
//!
//! What the registry holds is told by the set of its template names; which
//! template texts the engine accepts is told by `template_compiles`.
use vstd::prelude::*;
use vstd::string::*;
use crate::error::Error;
use crate::helpers::{derefs, relative_path_from, relative_path_spec};
use crate::text::{chars_of, slice_chars, string_of};

verus! {

#[verifier::external_type_specification]
#[verifier::external_body]
pub struct ExHandlebars<'reg>(handlebars::Handlebars<'reg>);

#[verifier::external_type_specification]
#[verifier::external_body]
pub struct ExTemplateError(handlebars::TemplateError);

/// The template texts a Handlebars registry holds, by name (each held as the
/// template compiled from that text).
pub uninterp spec fn template_sources(registry: handlebars::Handlebars<'static>) -> Map<Seq<char>, Seq<char>>;

/// Whether a Handlebars registry HTML-escapes the values it renders (its
/// escape function is the default `html_escape`).
pub uninterp spec fn escapes(registry: handlebars::Handlebars<'static>) -> bool;

/// The contents of a registry that holds no template.
pub open spec fn no_templates() -> Map<Seq<char>, Seq<char>> {
    Map::empty()
}

/// Whether Handlebars parses the template text `source`.
pub uninterp spec fn template_compiles(source: Seq<char>) -> bool;

/// `handlebars::Handlebars::new`: a registry that holds no template and
/// escapes HTML in what it renders.
#[verifier::external_body]
fn handlebars_new() -> (r: handlebars::Handlebars<'static>)
    ensures
        template_sources(r) == no_templates(),
        escapes(r),
{
    handlebars::Handlebars::new()
}

/// `Handlebars::register_escape_fn(no_escape)`: output is no longer escaped;
/// the templates held are unchanged.
#[verifier::external_body]
fn handlebars_no_escape(registry: &mut handlebars::Handlebars<'static>)
    ensures
        template_sources(*final(registry)) == template_sources(*old(registry)),
        !escapes(*final(registry)),
{
    registry.register_escape_fn(handlebars::no_escape)
}

/// `Handlebars::register_template_string`: parses `source` and, when it
/// parses, holds it under `name` (replacing any template of that name); when
/// it does not parse, the registry is left as it was. Escaping is untouched.
#[verifier::external_body]
fn handlebars_register_template_string(
    registry: &mut handlebars::Handlebars<'static>,
    name: &str,
    source: &str,
) -> (r: Result<(), handlebars::TemplateError>)
    ensures
        r is Ok <==> template_compiles(source@),
        r is Ok ==> template_sources(*final(registry)) == template_sources(*old(registry)).insert(
            name@,
            source@,
        ),
        r is Err ==> template_sources(*final(registry)) == template_sources(*old(registry)),
        escapes(*final(registry)) == escapes(*old(registry)),
{
    registry.register_template_string(name, source)
}

/// `Handlebars::has_template`: whether a template of that name is held.
#[verifier::external_body]
fn handlebars_has_template(registry: &handlebars::Handlebars<'static>, name: &str) -> (r: bool)
    ensures
        r == template_sources(*registry).dom().contains(name@),
{
    registry.has_template(name)
}

/// `Handlebars::unregister_template`: the template of that name is no longer
/// held; escaping is untouched.
#[verifier::external_body]
fn handlebars_unregister_template(registry: &mut handlebars::Handlebars<'static>, name: &str)
    ensures
        template_sources(*final(registry)) == template_sources(*old(registry)).remove(name@),
        escapes(*final(registry)) == escapes(*old(registry)),
{
    registry.unregister_template(name)
}

/// The message of a template parsing error (its `Display`). What the message
/// says is left unsaid.
#[verifier::external_body]
fn template_error_message(error: &handlebars::TemplateError) -> (r: String) {
    error.to_string()
}

/// A generic struct for templates to be used in a template engine.
pub struct Template {
    name: String,
    s: String,
}

impl View for Template {
    /// The name and the text of the template.
    type V = (Seq<char>, Seq<char>);

    closed spec fn view(&self) -> (Seq<char>, Seq<char>) {
        (self.name@, self.s@)
    }
}

impl Template {
    /// A template with an empty name and an empty text.
    pub fn new() -> (r: Self)
        ensures
            r@ == (Seq::<char>::empty(), Seq::<char>::empty()),
    {
        Self { name: String::new(), s: String::new() }
    }

    /// The template named `name` with the text `s` (what reading a template
    /// file yields).
    pub fn from_content(name: &str, s: String) -> (r: Self)
        ensures
            r@ == (name@, s@),
    {
        Self { name: String::from_str(name), s }
    }
}

/// The templates among `ts` whose text parses, by name; of several with one
/// name the last one wins.
pub open spec fn compiled_sources(ts: Seq<(Seq<char>, Seq<char>)>) -> Map<Seq<char>, Seq<char>>
    decreases ts.len(),
{
    if ts.len() == 0 {
        Map::empty()
    } else if template_compiles(ts.last().1) {
        compiled_sources(ts.drop_last()).insert(ts.last().0, ts.last().1)
    } else {
        compiled_sources(ts.drop_last())
    }
}

/// The templates among `ts` whose text parses, in order.
pub open spec fn compiling(ts: Seq<Template>) -> Seq<Template>
    decreases ts.len(),
{
    if ts.len() == 0 {
        Seq::empty()
    } else if template_compiles(ts.last()@.1) {
        compiling(ts.drop_last()).push(ts.last())
    } else {
        compiling(ts.drop_last())
    }
}

pub open spec fn template_views(ts: Seq<Template>) -> Seq<(Seq<char>, Seq<char>)> {
    ts.map_values(|t: Template| t@)
}

/// The template registry implemented with Handlebars. Output is not escaped.
pub struct TemplateHandlebarsRegistry(handlebars::Handlebars<'static>);

impl View for TemplateHandlebarsRegistry {
    /// The texts of the templates held, by name.
    type V = Map<Seq<char>, Seq<char>>;

    closed spec fn view(&self) -> Map<Seq<char>, Seq<char>> {
        template_sources(self.0)
    }
}

impl TemplateHandlebarsRegistry {
    /// Whether the registry HTML-escapes the values it renders.
    pub closed spec fn escapes_output(&self) -> bool {
        escapes(self.0)
    }

    /// Creates a new registry, holding no template and not escaping output.
    pub fn new() -> (r: Self)
        ensures
            r@ == Map::<Seq<char>, Seq<char>>::empty(),
            !r.escapes_output(),
    {
        let mut renderer = handlebars_new();
        handlebars_no_escape(&mut renderer);
        Self(renderer)
    }

    /// Returns the wrapped template engine as a reference.
    pub fn registry(&self) -> (r: &handlebars::Handlebars<'static>)
        ensures
            template_sources(*r) == self@,
            escapes(*r) == self.escapes_output(),
    {
        &self.0
    }

    /// Returns the wrapped template engine for changes other than templates
    /// (such as helpers).
    pub fn as_mut(&mut self) -> (r: &mut handlebars::Handlebars<'static>)
        ensures
            template_sources(*r) == old(self)@,
            escapes(*r) == old(self).escapes_output(),
            final(self)@ == template_sources(*final(r)),
            final(self).escapes_output() == escapes(*final(r)),
    {
        &mut self.0
    }

    /// Whether a template of that name is held.
    pub fn has_template(&self, name: &str) -> (r: bool)
        ensures
            r == self@.dom().contains(name@),
    {
        handlebars_has_template(&self.0, name)
    }

    /// Registers the template, replacing one of the same name.
    pub fn register(&mut self, template: &Template) -> (r: Result<(), Error>)
        ensures
            r is Ok <==> template_compiles(template@.1),
            r is Ok ==> final(self)@ == old(self)@.insert(template@.0, template@.1),
            r is Err ==> final(self)@ == old(self)@ && r matches Err(Error::HandlebarsTemplateError(_)),
            final(self).escapes_output() == old(self).escapes_output(),
    {
        self.register_template_string(template.name.as_str(), template.s.as_str())
    }

    /// Removes the template of that name.
    pub fn unregister(&mut self, template_name: &str) -> (r: Result<(), Error>)
        ensures
            r is Ok,
            final(self)@ == old(self)@.remove(template_name@),
            final(self).escapes_output() == old(self).escapes_output(),
    {
        handlebars_unregister_template(&mut self.0, template_name);
        Ok(())
    }

    /// Register a vector of templates. This does not check whether the
    /// registrations succeed: every template whose text parses is registered
    /// (of several with one name, the last one that parses wins), the others
    /// are passed over, and the answer lists the registered templates in order.
    pub fn register_vec<'b>(&mut self, templates: &'b Vec<Template>) -> (r: Result<
        Vec<&'b Template>,
        Error,
    >)
        ensures
            final(self)@ == old(self)@.union_prefer_right(compiled_sources(template_views(templates@))),
            final(self).escapes_output() == old(self).escapes_output(),
            r matches Ok(v) && derefs(v@) == compiling(templates@),
    {
        let ghost tv = template_views(templates@);
        let ghost start = self@;
        let mut registered_templates: Vec<&'b Template> = Vec::new();
        let mut i: usize = 0;
        assert(tv.take(0) =~= Seq::<(Seq<char>, Seq<char>)>::empty());
        assert(templates@.take(0) =~= Seq::<Template>::empty());
        assert(start.union_prefer_right(Map::empty()) =~= start);
        while i < templates.len()
            invariant
                i <= templates.len(),
                tv == template_views(templates@),
                self@ == start.union_prefer_right(compiled_sources(tv.take(i as int))),
                self.escapes_output() == old(self).escapes_output(),
                derefs(registered_templates@) == compiling(templates@.take(i as int)),
            decreases templates.len() - i,
        {
            let template = &templates[i];
            assert(tv.take(i + 1).drop_last() =~= tv.take(i as int));
            assert(tv.take(i + 1).last() == template@);
            assert(templates@.take(i + 1).drop_last() =~= templates@.take(i as int));
            assert(templates@.take(i + 1).last() == *template);
            match self.register_template_string(template.name.as_str(), template.s.as_str()) {
                Ok(_v) => {
                    let ghost before = registered_templates@;
                    registered_templates.push(template);
                    assert(derefs(registered_templates@) =~= derefs(before).push(*template));
                    assert(start.union_prefer_right(compiled_sources(tv.take(i as int))).insert(
                        template@.0,
                        template@.1,
                    ) =~= start.union_prefer_right(compiled_sources(tv.take(i + 1))));
                },
                Err(_e) => {},
            }
            i += 1;
        }
        assert(tv.take(templates.len() as int) =~= tv);
        assert(templates@.take(templates.len() as int) =~= templates@);
        Ok(registered_templates)
    }

    /// Register the template text under the given name.
    pub fn register_template_string(&mut self, name: &str, s: &str) -> (r: Result<(), Error>)
        ensures
            r is Ok <==> template_compiles(s@),
            r is Ok ==> final(self)@ == old(self)@.insert(name@, s@),
            r is Err ==> final(self)@ == old(self)@ && r matches Err(Error::HandlebarsTemplateError(_)),
            final(self).escapes_output() == old(self).escapes_output(),
    {
        match handlebars_register_template_string(&mut self.0, name, s) {
            Ok(()) => Ok(()),
            Err(e) => Err(Error::HandlebarsTemplateError(template_error_message(&e))),
        }
    }
}

/// Finds template files by extension and names them after their paths.
pub struct TemplateGetter;

/// `p` ends with `.` followed by `ext`.
pub open spec fn has_extension(p: Seq<char>, ext: Seq<char>) -> bool {
    &&& p.len() >= ext.len() + 1
    &&& p.subrange(p.len() - ext.len() - 1, p.len() as int) == seq!['.'] + ext
}

impl TemplateGetter {
    /// The name of a template file found under `base` with the extension
    /// `file_ext`: its path relative to `base`, without the extension.
    pub fn template_name(file: &str, base: &str, file_ext: &str) -> (r: String)
        requires
            relative_path_spec(file@, base@) matches Some(p) && has_extension(p, file_ext@),
        ensures
            ({
                let p = relative_path_spec(file@, base@)->0;
                r@ == p.subrange(0, p.len() - file_ext@.len() - 1)
            }),
    {
        let rel = relative_path_from(file, base);
        let p = match rel {
            Some(p) => p,
            None => String::new(),
        };
        let cs = chars_of(p.as_str());
        let ext = chars_of(file_ext);
        string_of(&slice_chars(&cs, 0, cs.len() - ext.len() - 1))
    }
}

} // verus!

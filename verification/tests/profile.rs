use lanoma::config::ProfileConfig;
use lanoma::error::Error;
use lanoma::profile::{Profile, ProfileBuilder};
use lanoma::templates::Template;

#[test]
fn builder_fills_the_default_configuration() {
    let mut builder = ProfileBuilder::new();
    builder.path("profiles/me").name("Ada");
    let profile = builder.build();

    assert_eq!(profile.path(), "profiles/me");
    assert_eq!(profile.config().name, "Ada");
    assert_eq!(profile.config().version, "0.1.0");
    assert_eq!(profile.config().subject.files, vec!["*.tex".to_string()]);
    assert_eq!(profile.config().subject.command, "pdflatex {{note}}");
    assert!(profile.config().extra.is_empty());
}

#[test]
fn builder_without_settings() {
    let profile = ProfileBuilder::new().build();
    assert_eq!(profile.path(), "");
    assert_eq!(profile.config().name, "New Student");
    assert!(!profile.template_registry().has_template("_default"));
}

#[test]
fn profile_paths() {
    let mut builder = ProfileBuilder::new();
    builder.path("p");
    let profile = builder.build();
    assert_eq!(profile.metadata_path(), "p/.profile.toml");
    assert_eq!(profile.templates_path(), "p/.templates");
}

#[test]
fn init_templates_registers_the_defaults() {
    let mut profile = Profile::new();
    assert!(profile.init_templates().is_ok());
    assert!(profile.template_registry().has_template("_default"));
    assert!(profile.template_registry().has_template("master/_default"));
}

#[test]
fn opening_a_profile_without_templates_fails() {
    let r = Profile::from("p", false, &vec![], ProfileConfig::new());
    match r {
        Err(Error::InvalidProfileError(p)) => assert_eq!(p, "p"),
        _ => panic!("a profile without its templates folder is invalid"),
    }
}

#[test]
fn opening_a_profile_overrides_the_default_templates() {
    let templates = vec![Template::from_content("_default", "LOL".to_string())];
    let profile = Profile::from("p", true, &templates, ProfileConfig::new()).ok().unwrap();
    assert_eq!(profile.path(), "p");
    let mut data = serde_json::Map::new();
    data.insert("name".to_string(), serde_json::Value::String("ME".to_string()));
    let rendered = profile
        .template_registry()
        .registry()
        .render("_default", &serde_json::Value::Object(data))
        .unwrap();
    assert_eq!(rendered, "LOL");
    assert!(profile.template_registry().has_template("master/_default"));
}

#[test]
fn opening_a_profile_passes_over_a_broken_template() {
    let templates = vec![
        Template::from_content("x", "{{#if}}".to_string()),
        Template::from_content("y", "Y".to_string()),
    ];
    let profile = Profile::from("p", true, &templates, ProfileConfig::new()).ok().unwrap();
    assert!(!profile.template_registry().has_template("x"));
    assert!(profile.template_registry().has_template("y"));
    assert!(profile.template_registry().has_template("_default"));
}

#[test]
fn export_steps_create_what_is_missing() {
    let profile = Profile::new();
    let steps = profile.export_steps(false, false, false).ok().unwrap();
    assert!(steps.create_folder && steps.write_metadata && steps.create_templates);
    let steps = profile.export_steps(true, true, false).ok().unwrap();
    assert!(!steps.create_folder && !steps.write_metadata && steps.create_templates);
}

#[test]
fn exporting_an_existing_profile_fails() {
    let mut builder = ProfileBuilder::new();
    builder.path("here");
    let profile = builder.build();
    match profile.export_steps(true, true, true) {
        Err(Error::ProfileAlreadyExists(p)) => assert_eq!(p, "here"),
        _ => panic!("an exported profile cannot be exported again"),
    }
}

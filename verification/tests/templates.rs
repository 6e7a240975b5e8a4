use lanoma::error::Error;
use lanoma::templates::{Template, TemplateGetter, TemplateHandlebarsRegistry};

#[test]
fn registry_registers_and_removes_templates() {
    let mut registry = TemplateHandlebarsRegistry::new();
    assert!(!registry.has_template("note"));
    assert!(registry.register_template_string("note", "Hello {{name}}").is_ok());
    assert!(registry.has_template("note"));
    assert!(registry.unregister("note").is_ok());
    assert!(!registry.has_template("note"));
}

#[test]
fn registry_refuses_a_template_that_does_not_parse() {
    let mut registry = TemplateHandlebarsRegistry::new();
    let r = registry.register_template_string("bad", "{{#if}}");
    assert!(matches!(r, Err(Error::HandlebarsTemplateError(_))));
    assert!(!registry.has_template("bad"));
}

#[test]
fn registry_registers_a_template() {
    let mut registry = TemplateHandlebarsRegistry::new();
    let template = Template::from_content("page", "{{title}}".to_string());
    assert!(registry.register(&template).is_ok());
    assert!(registry.has_template("page"));
    let mut data = serde_json::Map::new();
    data.insert("title".to_string(), serde_json::Value::String("Limits".to_string()));
    let rendered = registry
        .registry()
        .render("page", &serde_json::Value::Object(data))
        .unwrap();
    assert_eq!(rendered, "Limits");
}

#[test]
fn register_vec_registers_all_that_parse() {
    let mut registry = TemplateHandlebarsRegistry::new();
    let templates = vec![
        Template::from_content("a", "A".to_string()),
        Template::from_content("b", "{{#each}}".to_string()),
        Template::from_content("c", "C".to_string()),
        Template::from_content("a", "second {{x}}".to_string()),
    ];
    let registered = registry.register_vec(&templates).ok().unwrap();
    assert_eq!(registered.len(), 3);
    assert!(registry.has_template("a"));
    assert!(!registry.has_template("b"));
    assert!(registry.has_template("c"));
    let mut data = serde_json::Map::new();
    data.insert("x".to_string(), serde_json::Value::String("<b>".to_string()));
    let rendered = registry.registry().render("a", &serde_json::Value::Object(data)).unwrap();
    assert_eq!(rendered, "second <b>");
}

#[test]
fn registering_again_replaces_the_text() {
    let mut registry = TemplateHandlebarsRegistry::new();
    assert!(registry.register(&Template::from_content("n", "old".to_string())).is_ok());
    assert!(registry.register(&Template::from_content("n", "new".to_string())).is_ok());
    let rendered = registry.registry().render("n", &serde_json::Value::Null).unwrap();
    assert_eq!(rendered, "new");
}

#[test]
fn template_names_come_from_the_relative_path() {
    assert_eq!(TemplateGetter::template_name("/base/sub/x.hbs", "/base", "hbs"), "sub/x");
    assert_eq!(TemplateGetter::template_name("t/_default.hbs", "t", "hbs"), "_default");
    assert_eq!(
        TemplateGetter::template_name("t/master/_default.hbs", "t", "hbs"),
        "master/_default"
    );
}

#[test]
fn a_new_template_is_empty() {
    let _ = Template::new();
}

#[test]
fn registering_one_name_leaves_the_others() {
    let mut registry = TemplateHandlebarsRegistry::new();
    assert!(registry.register_template_string("a", "A").is_ok());
    assert!(registry.register_template_string("b", "B").is_ok());
    assert!(registry.unregister("a").is_ok());
    assert!(!registry.has_template("a"));
    assert!(registry.has_template("b"));
}

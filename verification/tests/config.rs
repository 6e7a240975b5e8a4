use lanoma::config::{default_cmd, default_files, default_name, default_version, ProfileConfig, SubjectConfig};
use lanoma::consts::{APP_NAME, APP_VERSION};

#[test]
fn configuration_defaults() {
    assert_eq!(default_files(), vec!["*.tex".to_string()]);
    assert_eq!(default_cmd(), "pdflatex {{note}}");
    assert_eq!(default_name(), "New Student");
    assert_eq!(default_version(), APP_VERSION);
    assert_eq!(APP_NAME, "lanoma");
}

#[test]
fn default_configurations() {
    let subject = SubjectConfig::new();
    assert_eq!(subject.files, vec!["*.tex".to_string()]);
    assert_eq!(subject.command, "pdflatex {{note}}");
    assert!(subject.extra.is_empty());

    let profile = ProfileConfig::new();
    assert_eq!(profile.name, "New Student");
    assert_eq!(profile.version, APP_VERSION);
    assert_eq!(profile.subject.command, "pdflatex {{note}}");
    assert!(profile.extra.is_empty());
}

use frate::{is_valid_version, FrateToml, ManifestError};

fn sample_with_dep() -> FrateToml {
    let mut frate = FrateToml::default("test");
    assert!(frate.add("tool", "1.2.3").is_ok());
    frate
}

#[test]
fn test_default() {
    let frate = FrateToml::default("myproj");
    assert_eq!(frate.project.name, "myproj");
    assert_eq!(frate.project.version, "0.1.0");
    assert!(frate.dependencies.is_empty());
}

#[test]
fn test_add_valid() {
    let mut frate = FrateToml::default("x");
    assert!(frate.add("foo", "1.0.0").is_ok());
    assert_eq!(frate.dependencies.get("foo").unwrap(), "1.0.0");
}

#[test]
fn test_add_invalid_version() {
    let mut frate = FrateToml::default("x");
    let result = frate.add("foo", "bad.version");
    assert!(result.is_err());
}

#[test]
fn test_add_duplicate() {
    let mut frate = FrateToml::default("x");
    assert!(frate.add("foo", "1.0.0").is_ok());
    let result = frate.add("foo", "1.0.0");
    assert!(result.is_err());
}

#[test]
fn test_remove_existing() {
    let mut frate = sample_with_dep();
    frate.remove("tool");
    assert!(!frate.dependencies.contains_key("tool"));
}

#[test]
fn test_remove_non_existing() {
    let mut frate = FrateToml::default("x");
    frate.remove("nonexistent");
    assert!(frate.dependencies.is_empty());
}

#[test]
fn test_is_valid_version_valid() {
    assert!(is_valid_version("1.2.3"));
    assert!(is_valid_version("1.2.3-alpha"));
}

#[test]
fn test_is_valid_version_invalid() {
    assert!(!is_valid_version("1.2"));
    assert!(!is_valid_version("not-a-version"));
}

#[test]
fn add_reports_which_error() {
    let mut frate = FrateToml::default("x");
    match frate.add("foo", "1.2") {
        Err(ManifestError::InvalidVersion { version }) => assert_eq!(version, "1.2"),
        _ => panic!("expected an invalid version"),
    }
    assert!(frate.dependencies.is_empty());
    assert!(frate.add("foo", "1.0.0").is_ok());
    match frate.add("foo", "2.0.0") {
        Err(ManifestError::DuplicateDependency { name }) => assert_eq!(name, "foo"),
        _ => panic!("expected a duplicate"),
    }
    assert_eq!(frate.dependencies.get("foo").unwrap(), "1.0.0");
    assert_eq!(frate.dependencies.len(), 1);
}

#[test]
fn dependencies_keep_declaration_order() {
    let mut frate = FrateToml::default("x");
    assert!(frate.add("b", "1.0.0").is_ok());
    assert!(frate.add("a", "2.0.0").is_ok());
    assert!(frate.add("c", "3.0.0").is_ok());
    frate.remove("a");
    assert_eq!(frate.dependencies.len(), 2);
    assert_eq!(frate.dependencies.entry(0), ("b", "1.0.0"));
    assert_eq!(frate.dependencies.entry(1), ("c", "3.0.0"));
}

#[test]
fn insert_replaces_in_place() {
    let mut frate = FrateToml::default("x");
    assert!(frate.add("a", "1.0.0").is_ok());
    assert!(frate.add("b", "1.0.0").is_ok());
    let old = frate.dependencies.insert("a".to_string(), "1.1.0".to_string());
    assert_eq!(old.unwrap(), "1.0.0");
    assert_eq!(frate.dependencies.entry(0), ("a", "1.1.0"));
    assert_eq!(frate.dependencies.len(), 2);
}

#[test]
fn version_with_build_suffix_is_valid() {
    assert!(is_valid_version("1.2.3+build.5"));
    assert!(!is_valid_version(""));
    assert!(!is_valid_version("01.2.3"));
}

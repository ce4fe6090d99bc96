use depup::{ManifestError, PackageJson, Project, Report};

const DOC: &str = r#"{
  "name": "demo-app",
  "version": "0.1.0",
  "license": "MIT",
  "dependencies": {
    "left-pad": "^1.3.0",
    "@scope/name": "~2.0.1",
    "lodash": "4.17.21"
  },
  "devDependencies": {
    "jest": "^29.0.0"
  }
}"#;

#[test]
fn load_preserves_order_and_values() {
    let p = Project::new(DOC).unwrap();
    let deps = p.dependencies().unwrap();
    assert_eq!(deps.len(), 3);
    assert_eq!(deps[0].0, "left-pad");
    assert_eq!(deps[0].1, "^1.3.0");
    assert_eq!(deps[1].0, "@scope/name");
    assert_eq!(deps[1].1, "~2.0.1");
    assert_eq!(deps[2].0, "lodash");
    assert_eq!(deps[2].1, "4.17.21");
    let dev = p.dev_dependencies().unwrap();
    assert_eq!(dev.len(), 1);
    assert_eq!(dev[0].0, "jest");
    assert_eq!(dev[0].1, "^29.0.0");
}

#[test]
fn load_absent_sections() {
    let p = Project::new(r#"{"name": "x", "version": "1.0.0"}"#).unwrap();
    assert!(p.dependencies().is_none());
    assert!(p.dev_dependencies().is_none());
}

#[test]
fn name_and_version_fields() {
    let p = Project::new(DOC).unwrap();
    assert_eq!(p.name().unwrap(), "demo-app");
    assert_eq!(p.version().unwrap(), "0.1.0");
}

#[test]
fn missing_field_error() {
    let p = Project::new(r#"{"dependencies": {}}"#).unwrap();
    assert_eq!(p.name().unwrap_err(), ManifestError::MissingFieldError);
    assert_eq!(p.version().unwrap_err(), ManifestError::MissingFieldError);
}

#[test]
fn parse_error_on_malformed_text() {
    match Project::new("not json at all {") {
        Err(ManifestError::ParseError) => {},
        other => panic!("expected a parse error, got {:?}", other.is_ok()),
    }
}

#[test]
fn round_trip_preserves_document() {
    let p = Project::new(DOC).unwrap();
    let text = p.to_json_text();
    let q = Project::new(text.as_str()).unwrap();
    assert_eq!(q.name().unwrap(), "demo-app");
    assert_eq!(q.version().unwrap(), "0.1.0");
    assert_eq!(q.dependencies().unwrap(), p.dependencies().unwrap());
    assert_eq!(q.dev_dependencies().unwrap(), p.dev_dependencies().unwrap());
    // the unmodeled field survives the cycle
    assert!(text.contains("\"license\""));
    assert!(text.contains("\"MIT\""));
}

#[test]
fn update_replaces_one_value_only() {
    let mut p = Project::new(DOC).unwrap();
    p.update_dependency_version("left-pad", &String::from("2.0.0"), Some('^'));
    let deps = p.dependencies().unwrap();
    assert_eq!(deps[0].0, "left-pad");
    assert_eq!(deps[0].1, "^2.0.0");
    assert_eq!(deps[1].1, "~2.0.1");
    assert_eq!(deps[2].1, "4.17.21");
    assert_eq!(p.dev_dependencies().unwrap()[0].1, "^29.0.0");
    assert_eq!(p.name().unwrap(), "demo-app");
}

#[test]
fn update_scoped_package() {
    let mut p = Project::new(DOC).unwrap();
    p.update_dependency_version("@scope/name", &String::from("3.1.4"), Some('~'));
    let deps = p.dependencies().unwrap();
    assert_eq!(deps[1].0, "@scope/name");
    assert_eq!(deps[1].1, "~3.1.4");
    assert_eq!(deps[0].1, "^1.3.0");
    assert_eq!(deps[2].1, "4.17.21");
}

#[test]
fn update_without_prefix_pins_exactly() {
    let mut p = Project::new(DOC).unwrap();
    p.update_dependency_version("lodash", &String::from("5.0.0"), None);
    assert_eq!(p.dependencies().unwrap()[2].1, "5.0.0");
}

#[test]
fn update_falls_through_to_dev() {
    let mut p = Project::new(DOC).unwrap();
    p.update_dependency_version("jest", &String::from("30.0.0"), Some('^'));
    assert_eq!(p.dev_dependencies().unwrap()[0].1, "^30.0.0");
    assert_eq!(p.dependencies().unwrap()[0].1, "^1.3.0");
}

#[test]
fn update_unknown_name_is_noop() {
    let mut p = Project::new(DOC).unwrap();
    p.update_dependency_version("no-such-package", &String::from("9.9.9"), None);
    assert_eq!(p.dependencies().unwrap()[0].1, "^1.3.0");
    assert_eq!(p.dev_dependencies().unwrap()[0].1, "^29.0.0");
}

#[test]
fn update_survives_write_and_reload() {
    let mut p = Project::new(DOC).unwrap();
    p.update_dependency_version("left-pad", &String::from("2.0.0"), Some('^'));
    let q = Project::new(p.to_json_text().as_str()).unwrap();
    assert_eq!(q.dependencies().unwrap()[0].1, "^2.0.0");
    assert_eq!(q.dependencies().unwrap()[1].1, "~2.0.1");
}

#[test]
fn same_name_in_both_tables_updates_runtime_first() {
    // A name present in both mappings only ever updates the runtime entry:
    // an accepted ambiguity of the single-pointer mutator.
    let doc = r#"{
      "dependencies": {"shared": "^1.0.0"},
      "devDependencies": {"shared": "^1.0.0"}
    }"#;
    let mut p = Project::new(doc).unwrap();
    p.update_dependency_version("shared", &String::from("2.0.0"), Some('^'));
    assert_eq!(p.dependencies().unwrap()[0].1, "^2.0.0");
    assert_eq!(p.dev_dependencies().unwrap()[0].1, "^1.0.0");
}

#[test]
fn package_json_accessors_and_report_update() {
    let mut p = PackageJson::new(DOC).unwrap();
    assert_eq!(p.dependencies().len(), 3);
    assert_eq!(p.dev_dependencies().len(), 1);
    let keys = p.all_dependency_keys_iter();
    assert_eq!(keys, vec!["left-pad", "@scope/name", "lodash", "jest"]);
    let all = p.all_dependencies_iter();
    assert_eq!(all.len(), 4);
    assert_eq!(all[3].0, "jest");
    p.update_dependency_version(Report::new(
        String::from("left-pad"),
        String::from("^1.3.0"),
        String::from("2.0.0"),
        Some('^'),
    ));
    assert_eq!(p.dependencies()[0].1, "^2.0.0");
    assert_eq!(p.dependencies()[1].1, "~2.0.1");
    let text = p.write_to_file();
    let q = PackageJson::new(text.as_str()).unwrap();
    assert_eq!(q.dependencies()[0].1, "^2.0.0");
}

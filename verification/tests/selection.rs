use depup::{Action, Application, ApplicationEvent, DependencyTable, InputKey, Project};

const DOC: &str = r#"{
  "name": "demo-app",
  "version": "0.1.0",
  "dependencies": {
    "alpha": "^1.0.0",
    "beta": "~2.0.0",
    "gamma": "3.0.0"
  },
  "devDependencies": {
    "delta": "^4.0.0"
  }
}"#;

const DOC_NO_DEV: &str = r#"{
  "name": "demo-app",
  "version": "0.1.0",
  "dependencies": {
    "alpha": "^1.0.0",
    "beta": "~2.0.0",
    "gamma": "3.0.0"
  }
}"#;

fn app(doc: &str) -> Application {
    Application::new(Project::new(doc).unwrap())
}

#[test]
fn initial_state_prefers_runtime_table() {
    let a = app(DOC);
    assert_eq!(a.state().active_table, DependencyTable::Runtime);
    assert_eq!(a.state().dependencies_len, 3);
    assert_eq!(a.state().dev_dependencies_len, 1);
    assert_eq!(a.state().dependencies_table_state.selected, Some(0));
    assert_eq!(a.state().dev_dependencies_table_state.selected, Some(0));
}

#[test]
fn initial_state_dev_only() {
    let a = app(r#"{"devDependencies": {"delta": "^4.0.0"}}"#);
    assert_eq!(a.state().active_table, DependencyTable::Dev);
    assert_eq!(a.state().dependencies_table_state.selected, None);
    assert_eq!(a.state().dev_dependencies_table_state.selected, Some(0));
}

#[test]
fn next_wraps_to_zero() {
    let mut a = app(DOC);
    a.next();
    a.next();
    assert_eq!(a.state().dependencies_table_state.selected, Some(2));
    a.next();
    assert_eq!(a.state().dependencies_table_state.selected, Some(0));
}

#[test]
fn previous_wraps_to_last() {
    let mut a = app(DOC);
    assert_eq!(a.state().dependencies_table_state.selected, Some(0));
    a.previous();
    assert_eq!(a.state().dependencies_table_state.selected, Some(2));
    a.previous();
    assert_eq!(a.state().dependencies_table_state.selected, Some(1));
}

#[test]
fn switch_table_is_noop_without_dev_rows() {
    let mut a = app(DOC_NO_DEV);
    a.switch_table();
    assert_eq!(a.state().active_table, DependencyTable::Runtime);
}

#[test]
fn switch_table_flips_when_both_populated() {
    let mut a = app(DOC);
    a.switch_table();
    assert_eq!(a.state().active_table, DependencyTable::Dev);
    a.switch_table();
    assert_eq!(a.state().active_table, DependencyTable::Runtime);
}

#[test]
fn dispatch_moves_cursor_and_quits() {
    let mut a = app(DOC);
    assert_eq!(a.dispatch(ApplicationEvent::Input(InputKey::Down)), Action::Continue);
    assert_eq!(a.state().dependencies_table_state.selected, Some(1));
    assert_eq!(a.dispatch(ApplicationEvent::Input(InputKey::Up)), Action::Continue);
    assert_eq!(a.state().dependencies_table_state.selected, Some(0));
    assert_eq!(a.dispatch(ApplicationEvent::Tick), Action::Continue);
    assert_eq!(a.dispatch(ApplicationEvent::Input(InputKey::Other)), Action::Continue);
    assert_eq!(a.dispatch(ApplicationEvent::Input(InputKey::Esc)), Action::Quit);
    assert_eq!(a.dispatch(ApplicationEvent::Input(InputKey::LowerQ)), Action::Quit);
}

#[test]
fn apply_with_no_toggles_is_noop() {
    let mut a = app(DOC);
    assert_eq!(a.dispatch(ApplicationEvent::Input(InputKey::LowerU)), Action::Continue);
    assert_eq!(a.project().dependencies().unwrap()[0].1, "^1.0.0");
}

#[test]
fn toggled_update_applies_and_asks_to_persist() {
    let mut a = app(DOC);
    a.absorb_fetch(Ok(depup::Metadata {
        name: String::from("alpha"),
        dist_tags: depup::LatestVersion { latest: String::from("1.5.0") },
    }));
    // toggle the first runtime row, then apply
    assert_eq!(a.dispatch(ApplicationEvent::Input(InputKey::Space)), Action::Continue);
    assert_eq!(a.dispatch(ApplicationEvent::Input(InputKey::LowerU)), Action::PersistManifest);
    let deps_owned: Vec<(String, String)> = a.project().dependencies().unwrap().clone();
    assert_eq!(deps_owned[0].1, "^1.5.0");
    assert_eq!(deps_owned[1].1, "~2.0.0");
    assert_eq!(deps_owned[2].1, "3.0.0");
}

#[test]
fn tilde_prefix_is_kept_on_update() {
    let mut a = app(DOC);
    a.absorb_fetch(Ok(depup::Metadata {
        name: String::from("beta"),
        dist_tags: depup::LatestVersion { latest: String::from("2.9.0") },
    }));
    a.dispatch(ApplicationEvent::Input(InputKey::Down));
    a.dispatch(ApplicationEvent::Input(InputKey::Enter));
    assert_eq!(a.dispatch(ApplicationEvent::Input(InputKey::LowerU)), Action::PersistManifest);
    assert_eq!(a.project().dependencies().unwrap()[1].1, "~2.9.0");
}

#[test]
fn dev_toggle_updates_dev_entry() {
    let mut a = app(DOC);
    a.absorb_fetch(Ok(depup::Metadata {
        name: String::from("delta"),
        dist_tags: depup::LatestVersion { latest: String::from("4.2.0") },
    }));
    a.dispatch(ApplicationEvent::Input(InputKey::Tab));
    a.dispatch(ApplicationEvent::Input(InputKey::Space));
    assert_eq!(a.dispatch(ApplicationEvent::Input(InputKey::LowerU)), Action::PersistManifest);
    assert_eq!(a.project().dev_dependencies().unwrap()[0].1, "^4.2.0");
}

#[test]
fn toggle_twice_clears_selection() {
    let mut a = app(DOC);
    a.dispatch(ApplicationEvent::Input(InputKey::Space));
    a.dispatch(ApplicationEvent::Input(InputKey::Space));
    assert_eq!(a.dispatch(ApplicationEvent::Input(InputKey::LowerU)), Action::Continue);
    assert_eq!(a.project().dependencies().unwrap()[0].1, "^1.0.0");
}

#[test]
fn failed_fetch_changes_nothing() {
    let mut a = app(DOC);
    a.absorb_fetch(Err(depup::FetchError::NetworkError));
    assert_eq!(a.fetched_packages().len(), 0);
}

#[test]
fn fetched_map_accumulates() {
    let mut a = app(DOC);
    a.absorb_fetch(Ok(depup::Metadata {
        name: String::from("alpha"),
        dist_tags: depup::LatestVersion { latest: String::from("1.5.0") },
    }));
    a.absorb_fetch(Ok(depup::Metadata {
        name: String::from("beta"),
        dist_tags: depup::LatestVersion { latest: String::from("2.9.0") },
    }));
    assert_eq!(a.fetched_packages().len(), 2);
    assert_eq!(a.fetched_packages().get(&String::from("alpha")), Some(&String::from("1.5.0")));
    assert_eq!(a.fetched_packages().get(&String::from("gamma")), None);
}

#[test]
fn empty_tables_make_every_move_a_noop() {
    let mut a = app(r#"{"name": "bare", "version": "0.0.1"}"#);
    assert_eq!(a.state().dependencies_len, 0);
    assert_eq!(a.state().dev_dependencies_len, 0);
    assert_eq!(a.state().active_table, DependencyTable::Runtime);
    assert_eq!(a.state().dependencies_table_state.selected, None);
    a.next();
    a.previous();
    a.switch_table();
    a.toggle_update();
    assert_eq!(a.state().dependencies_table_state.selected, None);
    assert_eq!(a.state().dev_dependencies_table_state.selected, None);
    assert_eq!(a.dispatch(ApplicationEvent::Input(InputKey::LowerU)), Action::Continue);
}

#[test]
fn back_tab_switches_like_tab() {
    let mut a = app(DOC);
    assert_eq!(a.dispatch(ApplicationEvent::Input(InputKey::BackTab)), Action::Continue);
    assert_eq!(a.state().active_table, DependencyTable::Dev);
}

#[test]
fn dev_cursor_moves_independently() {
    let mut a = app(DOC);
    a.switch_table();
    a.next();
    // the single dev row wraps straight back to itself
    assert_eq!(a.state().dev_dependencies_table_state.selected, Some(0));
    assert_eq!(a.state().dependencies_table_state.selected, Some(0));
}

#[test]
fn dev_toggle_of_shared_name_updates_runtime_entry() {
    // a development row whose package also sits in the runtime mapping
    // writes the runtime entry: the mutator addresses by name, runtime first
    let doc = r#"{
      "dependencies": {"shared": "^1.0.0"},
      "devDependencies": {"shared": "~1.1.0", "only-dev": "2.0.0"}
    }"#;
    let mut a = app(doc);
    a.absorb_fetch(Ok(depup::Metadata {
        name: String::from("shared"),
        dist_tags: depup::LatestVersion { latest: String::from("3.0.0") },
    }));
    a.dispatch(ApplicationEvent::Input(InputKey::Tab));
    a.dispatch(ApplicationEvent::Input(InputKey::Space));
    assert_eq!(a.dispatch(ApplicationEvent::Input(InputKey::LowerU)), Action::PersistManifest);
    // the dev row's tilde prefix travels with the write into the runtime slot
    assert_eq!(a.project().dependencies().unwrap()[0].1, "~3.0.0");
    assert_eq!(a.project().dev_dependencies().unwrap()[0].1, "~1.1.0");
    assert_eq!(a.project().dev_dependencies().unwrap()[1].1, "2.0.0");
}

use argon::dict::Dict;
use argon::glob::Glob;
use argon::meta::Meta;
use argon::meta::ProjectData;
use argon::project::ProjectFileData;
use argon::value::Value;

#[test]
fn extend_appends_rules_and_lets_the_child_override_win() {
    let mut parent = Meta::default();
    let default_count = parent.sync_rules.len();
    let mut child = Meta::new();
    child.add_sync_rule(argon::meta::default_sync_rules().remove(0));
    child.add_ignore_glob(Glob::new("*.bak"));
    let mut data = ProjectData::new("Pin", "src/pin");
    data.set_class("Folder".to_string());
    child.set_project_data(data);
    parent.extend(child);
    // Rules accumulate; the child's entries come after the parent's.
    assert_eq!(parent.sync_rules.len(), default_count + 1);
    assert_eq!(parent.ignore_globs.len(), 1);
    // The child's pinpoint override wins.
    assert_eq!(parent.project_data.as_ref().map(|d| d.name.clone()), Some("Pin".to_string()));
}

#[test]
fn is_empty_sees_only_rules_globs_and_override() {
    let meta = Meta::new();
    assert!(meta.is_empty());
    let full = Meta::default();
    assert!(!full.is_empty());
}

#[test]
fn from_project_falls_back_to_the_defaults() {
    let bare = ProjectFileData::empty("Test");
    let meta = Meta::from_project(&bare);
    assert_eq!(meta.sync_rules.len(), argon::meta::default_sync_rules().len());
    assert!(meta.ignore_globs.is_empty());
    let mut configured = ProjectFileData::empty("Test");
    configured.sync_rules = Some(vec![argon::meta::default_sync_rules().remove(0)]);
    configured.ignore_globs = Some(vec![Glob::new("*.tmp")]);
    let meta = Meta::from_project(&configured);
    assert_eq!(meta.sync_rules.len(), 1);
    assert_eq!(meta.ignore_globs.len(), 1);
}

#[test]
fn snapshot_builders_compose() {
    let mut props = Dict::new();
    props.insert("Source", Value::Text("return 0".to_string()));
    let snap = argon::snapshot::Snapshot::new("Thing")
        .with_id(9)
        .with_class("ModuleScript")
        .with_properties(props)
        .with_path("src/Thing.luau");
    assert_eq!(snap.id, Some(9));
    assert_eq!(snap.name, "Thing");
    assert_eq!(snap.class, "ModuleScript");
    assert_eq!(snap.path.as_deref(), Some("src/Thing.luau"));
}

#[test]
fn apply_project_data_hits_only_its_exact_path() {
    let mut data = ProjectData::new("Renamed", "src/here");
    data.set_class("Folder".to_string());
    let meta = Meta::new().with_project_data(data);
    let snap = argon::snapshot::Snapshot::new("Plain");
    let untouched = snap.apply_project_data(&meta, "src/elsewhere");
    assert_eq!(untouched.name, "Plain");
    let snap = argon::snapshot::Snapshot::new("Plain");
    let changed = snap.apply_project_data(&meta, "src/here");
    assert_eq!(changed.name, "Renamed");
    assert_eq!(changed.class, "Folder");
}

#[test]
fn verify_name_rejects_separators_and_dot_names() {
    assert!(argon::processor::verify_name("Module"));
    assert!(!argon::processor::verify_name(""));
    assert!(!argon::processor::verify_name("a/b"));
    assert!(!argon::processor::verify_name("."));
    assert!(!argon::processor::verify_name(".."));
}

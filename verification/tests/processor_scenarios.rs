use argon::dict::Dict;
use argon::glob::Glob;
use argon::meta::Meta;
use argon::processor;
use argon::processor::WriteError;
use argon::project::ProjectFileData;
use argon::project::ProjectNodeData;
use argon::snapshot::AddedSnapshot;
use argon::snapshot::UpdatedSnapshot;
use argon::source::Source;
use argon::source::SourceKind;
use argon::tree::Tree;
use argon::value::Properties;
use argon::value::Value;
use argon::vfs::Vfs;
use argon::vfs::VfsEntry;

fn script_props(source: &str) -> Properties {
    let mut p: Properties = Dict::new();
    p.insert("Source", Value::Text(source.to_string()));
    p
}

fn meta_with_source(source: Source) -> Meta {
    let mut m = Meta::default();
    m.source = source;
    m
}

fn add_request(id: u64, parent: u64, name: &str, class: &str, properties: Properties)
    -> AddedSnapshot {
    AddedSnapshot {
        id,
        parent,
        name: name.to_string(),
        class: class.to_string(),
        properties,
        meta: None,
        children: Vec::new(),
    }
}

fn plain_update(id: u64) -> UpdatedSnapshot {
    UpdatedSnapshot { id, name: None, class: None, properties: None, meta: None }
}

/// A tree whose root owns the directory `src`, with one file-backed
/// module `Old` inside it.
fn folder_with_old_module() -> (Tree, Vfs) {
    let mut vfs = Vfs::new(false);
    vfs.write("src", VfsEntry::Dir);
    vfs.write("src/Old.luau", VfsEntry::Text("-- old".to_string()));
    let mut tree = Tree::init(1, "Root", "Folder", meta_with_source(Source::directory("src")));
    tree.insert_instance_with_ref(
        2,
        "Old",
        "ModuleScript",
        Dict::new(),
        meta_with_source(Source::file("src/Old.luau")),
        1,
    );
    (tree, vfs)
}

#[test]
fn adding_under_a_file_leaf_promotes_it_to_a_folder() {
    let (mut tree, mut vfs) = folder_with_old_module();
    let add = add_request(3, 2, "Module", "ModuleScript", script_props("return {}"));
    processor::apply_addition(add, &mut tree, &mut vfs).unwrap();
    // The old file moved into its folder representation.
    assert!(vfs.is_dir("src/Old"));
    assert!(!vfs.entry_exists("src/Old.luau"));
    assert_eq!(vfs.read("src/Old/.src.luau").unwrap(), "-- old");
    // The new module sits inside the folder with its literal body.
    assert_eq!(vfs.read("src/Old/Module.luau").unwrap(), "return {}");
    // The tree gained the instance, backed by the new file.
    let node = tree.get_node(3).expect("the new instance is recorded");
    assert_eq!(node.name, "Module");
    match &node.meta.source.kind {
        SourceKind::Path(p) => assert_eq!(p, "src/Old/Module.luau"),
        _ => panic!("the new instance must be path-sourced"),
    }
}

#[test]
fn removing_the_last_child_demotes_the_folder_back() {
    let (mut tree, mut vfs) = folder_with_old_module();
    let add = add_request(3, 2, "Module", "ModuleScript", script_props("return {}"));
    processor::apply_addition(add, &mut tree, &mut vfs).unwrap();
    processor::apply_removal(3, &mut tree, &mut vfs).unwrap();
    // The round trip restored the original file-backed state.
    assert_eq!(vfs.read("src/Old.luau").unwrap(), "-- old");
    assert!(!vfs.entry_exists("src/Old"));
    assert!(!vfs.entry_exists("src/Old/.src.luau"));
    assert!(!vfs.entry_exists("src/Old/Module.luau"));
    assert_eq!(vfs.entries.len(), 2);
    assert!(tree.get_node(3).is_none());
}

#[test]
fn reapplying_the_same_addition_changes_nothing() {
    let mut vfs = Vfs::new(false);
    vfs.write("src", VfsEntry::Dir);
    let mut tree = Tree::init(1, "Root", "Folder", meta_with_source(Source::directory("src")));
    let first = add_request(2, 1, "Module", "ModuleScript", script_props("return 1"));
    processor::apply_addition(first, &mut tree, &mut vfs).unwrap();
    let files_after_first = vfs.entries.len();
    let nodes_after_first = tree.ids.len();
    assert_eq!(vfs.read("src/Module.luau").unwrap(), "return 1");
    let again = add_request(2, 1, "Module", "ModuleScript", script_props("return 1"));
    processor::apply_addition(again, &mut tree, &mut vfs).unwrap();
    assert_eq!(vfs.entries.len(), files_after_first);
    assert_eq!(tree.ids.len(), nodes_after_first);
    assert_eq!(vfs.read("src/Module.luau").unwrap(), "return 1");
}

#[test]
fn renaming_a_folder_sourced_instance_moves_only_the_folder() {
    let mut vfs = Vfs::new(false);
    vfs.write("src", VfsEntry::Dir);
    vfs.write("src/A", VfsEntry::Dir);
    vfs.write("src/A/.src.luau", VfsEntry::Text("-- body".to_string()));
    let mut tree = Tree::init(1, "Root", "Folder", meta_with_source(Source::directory("src")));
    tree.insert_instance_with_ref(
        2,
        "A",
        "ModuleScript",
        Dict::new(),
        meta_with_source(Source::child_file("src/A", "src/A/.src.luau")),
        1,
    );
    let mut update = plain_update(2);
    update.name = Some("B".to_string());
    processor::apply_update(update, &mut tree, &mut vfs).unwrap();
    assert!(vfs.is_dir("src/B"));
    assert!(!vfs.entry_exists("src/A"));
    // The body file keeps its pattern-fixed name inside the folder.
    assert_eq!(vfs.read("src/B/.src.luau").unwrap(), "-- body");
    assert_eq!(tree.get_node(2).unwrap().name, "B");
}

#[test]
fn rename_cascade_moves_file_and_data_together() {
    let mut vfs = Vfs::new(false);
    vfs.write("src", VfsEntry::Dir);
    vfs.write("src/A.luau", VfsEntry::Text("-- a".to_string()));
    vfs.write("src/A.data.json", VfsEntry::Data(script_props("unused")));
    let mut tree = Tree::init(1, "Root", "Folder", meta_with_source(Source::directory("src")));
    let mut source = Source::file("src/A.luau");
    source.add_data("src/A.data.json");
    tree.insert_instance_with_ref(2, "A", "ModuleScript", Dict::new(), meta_with_source(source), 1);
    let mut update = plain_update(2);
    update.name = Some("B".to_string());
    processor::apply_update(update, &mut tree, &mut vfs).unwrap();
    assert_eq!(vfs.read("src/B.luau").unwrap(), "-- a");
    assert!(vfs.entry_exists("src/B.data.json"));
    assert!(!vfs.entry_exists("src/A.luau"));
    assert!(!vfs.entry_exists("src/A.data.json"));
}

#[test]
fn rename_cascade_leaves_a_filtered_entry_behind() {
    let mut vfs = Vfs::new(false);
    vfs.write("src", VfsEntry::Dir);
    vfs.write("src/A.luau", VfsEntry::Text("-- a".to_string()));
    vfs.write("src/A.data.json", VfsEntry::Data(script_props("unused")));
    let mut tree = Tree::init(1, "Root", "Folder", meta_with_source(Source::directory("src")));
    let mut source = Source::file("src/A.luau");
    source.add_data("src/A.data.json");
    let mut meta = meta_with_source(source);
    // The filter excludes every data sidecar, old and new path alike.
    meta.filter.paths = vec![Glob::new("*.data.json")];
    tree.insert_instance_with_ref(2, "A", "ModuleScript", Dict::new(), meta, 1);
    let mut update = plain_update(2);
    update.name = Some("B".to_string());
    processor::apply_update(update, &mut tree, &mut vfs).unwrap();
    // The body file moved; the excluded sidecar stayed put.
    assert_eq!(vfs.read("src/B.luau").unwrap(), "-- a");
    assert!(vfs.entry_exists("src/A.data.json"));
    assert!(!vfs.entry_exists("src/B.data.json"));
}

#[test]
fn missing_parent_is_a_quiet_no_op() {
    let mut vfs = Vfs::new(false);
    let mut tree = Tree::init(1, "Root", "Folder", meta_with_source(Source::directory("src")));
    let add = add_request(2, 99, "Module", "ModuleScript", script_props("x"));
    assert_eq!(processor::apply_addition(add, &mut tree, &mut vfs), Ok(()));
    assert_eq!(tree.ids.len(), 1);
    assert_eq!(vfs.entries.len(), 0);
}

#[test]
fn filtered_name_blocks_the_whole_addition() {
    let mut vfs = Vfs::new(false);
    vfs.write("src", VfsEntry::Dir);
    let mut meta = meta_with_source(Source::directory("src"));
    meta.filter.names = vec![Glob::new("Module")];
    let mut tree = Tree::init(1, "Root", "Folder", meta);
    let add = add_request(2, 1, "Module", "ModuleScript", script_props("x"));
    assert_eq!(processor::apply_addition(add, &mut tree, &mut vfs), Ok(()));
    assert!(!vfs.entry_exists("src/Module.luau"));
    assert_eq!(tree.ids.len(), 1);
}

#[test]
fn addition_without_any_rule_is_refused() {
    let mut vfs = Vfs::new(false);
    vfs.write("src", VfsEntry::Dir);
    let mut meta = Meta::new();
    meta.source = Source::directory("src");
    let mut tree = Tree::init(1, "Root", "Folder", meta);
    let add = add_request(2, 1, "Module", "ModuleScript", script_props("x"));
    assert_eq!(
        processor::apply_addition(add, &mut tree, &mut vfs),
        Err(WriteError::NoMatchingRule)
    );
}

#[test]
fn class_change_is_refused_before_any_write() {
    let (mut tree, mut vfs) = folder_with_old_module();
    let files = vfs.entries.len();
    let mut update = plain_update(2);
    update.class = Some("Folder".to_string());
    assert_eq!(
        processor::apply_update(update, &mut tree, &mut vfs),
        Err(WriteError::UnsupportedChange)
    );
    assert_eq!(vfs.entries.len(), files);
    assert_eq!(tree.get_node(2).unwrap().class, "ModuleScript");
}

fn project_rooted(node: ProjectNodeData) -> (Tree, Vfs) {
    let mut vfs = Vfs::new(false);
    let mut proj = ProjectFileData::empty("Test");
    proj.set_node("", node.clone_node());
    vfs.write("default.project.json", VfsEntry::Project(proj));
    let meta = meta_with_source(Source::project("Test", "default.project.json", node, ""));
    let tree = Tree::init(1, "Test", "DataModel", meta);
    (tree, vfs)
}

#[test]
fn adding_under_a_project_parent_grows_the_project_tree() {
    let (mut tree, mut vfs) = project_rooted(ProjectNodeData::empty());
    let add = add_request(2, 1, "Module", "ModuleScript", script_props("return {}"));
    processor::apply_addition(add, &mut tree, &mut vfs).unwrap();
    let proj = vfs.get_project("default.project.json").unwrap();
    let node = proj.get_node("Module").expect("the project gained the node");
    assert_eq!(node.class_name.as_deref(), Some("ModuleScript"));
    assert_eq!(tree.get_node(2).unwrap().name, "Module");
}

#[test]
fn a_missing_project_file_is_a_hard_error() {
    let mut vfs = Vfs::new(false);
    let meta = meta_with_source(Source::project(
        "Test",
        "ghost.project.json",
        ProjectNodeData::empty(),
        "",
    ));
    let mut tree = Tree::init(1, "Test", "DataModel", meta);
    let add = add_request(2, 1, "Module", "ModuleScript", script_props("x"));
    assert_eq!(
        processor::apply_addition(add, &mut tree, &mut vfs),
        Err(WriteError::ProjectMissing)
    );
}

#[test]
fn a_missing_project_node_is_a_hard_error() {
    let mut vfs = Vfs::new(false);
    let proj = ProjectFileData::empty("Test");
    vfs.write("default.project.json", VfsEntry::Project(proj));
    let meta = meta_with_source(Source::project(
        "Test",
        "default.project.json",
        ProjectNodeData::empty(),
        "ghost",
    ));
    let mut tree = Tree::init(1, "Test", "DataModel", meta);
    let add = add_request(2, 1, "Module", "ModuleScript", script_props("x"));
    assert_eq!(
        processor::apply_addition(add, &mut tree, &mut vfs),
        Err(WriteError::NodeNotFound)
    );
}

#[test]
fn a_path_redirect_is_cleaned_before_use() {
    let mut vfs = Vfs::new(false);
    vfs.write("proj", VfsEntry::Dir);
    vfs.write("proj/target", VfsEntry::Dir);
    let mut node = ProjectNodeData::empty();
    node.path_redirect = Some("sub/../target".to_string());
    let mut proj = ProjectFileData::empty("Test");
    proj.set_node("", node.clone_node());
    vfs.write("proj/default.project.json", VfsEntry::Project(proj));
    let meta = meta_with_source(Source::project(
        "Test",
        "proj/default.project.json",
        node,
        "",
    ));
    let mut tree = Tree::init(1, "Test", "DataModel", meta);
    let add = add_request(2, 1, "Kid", "Folder", Dict::new());
    processor::apply_addition(add, &mut tree, &mut vfs).unwrap();
    // The dotted redirect collapsed onto the real target directory.
    assert!(vfs.is_dir("proj/target/Kid"));
    assert!(!vfs.entry_exists("proj/sub/../target/Kid"));
}

#[test]
fn renaming_a_project_node_moves_it_in_the_project_tree() {
    let (mut tree, mut vfs) = project_rooted(ProjectNodeData::empty());
    let add = add_request(2, 1, "A", "ModuleScript", script_props("return {}"));
    processor::apply_addition(add, &mut tree, &mut vfs).unwrap();
    let mut update = plain_update(2);
    update.name = Some("B".to_string());
    processor::apply_update(update, &mut tree, &mut vfs).unwrap();
    let proj = vfs.get_project("default.project.json").unwrap();
    assert!(proj.get_node("B").is_some());
    assert!(proj.get_node("A").is_none());
    assert_eq!(tree.get_node(2).unwrap().name, "B");
}

#[test]
fn renaming_onto_an_existing_project_node_is_skipped() {
    let (mut tree, mut vfs) = project_rooted(ProjectNodeData::empty());
    let add_a = add_request(2, 1, "A", "ModuleScript", script_props("return {}"));
    processor::apply_addition(add_a, &mut tree, &mut vfs).unwrap();
    let add_b = add_request(3, 1, "B", "ModuleScript", script_props("return {}"));
    processor::apply_addition(add_b, &mut tree, &mut vfs).unwrap();
    let mut update = plain_update(2);
    update.name = Some("B".to_string());
    // A taken target is a benign race: the rename is skipped, nothing
    // is clobbered, and the request still succeeds.
    assert_eq!(processor::apply_update(update, &mut tree, &mut vfs), Ok(()));
    let proj = vfs.get_project("default.project.json").unwrap();
    assert!(proj.get_node("A").is_some());
    assert!(proj.get_node("B").is_some());
    assert_eq!(tree.get_node(2).unwrap().name, "A");
}

#[test]
fn removing_a_project_child_detaches_its_node() {
    let (mut tree, mut vfs) = project_rooted(ProjectNodeData::empty());
    let add = add_request(2, 1, "A", "ModuleScript", script_props("return {}"));
    processor::apply_addition(add, &mut tree, &mut vfs).unwrap();
    processor::apply_removal(2, &mut tree, &mut vfs).unwrap();
    let proj = vfs.get_project("default.project.json").unwrap();
    assert!(proj.get_node("A").is_none());
    assert!(tree.get_node(2).is_none());
}

#[test]
fn added_children_are_written_depth_first() {
    let mut vfs = Vfs::new(false);
    vfs.write("src", VfsEntry::Dir);
    let mut tree = Tree::init(1, "Root", "Folder", meta_with_source(Source::directory("src")));
    let child = argon::snapshot::Snapshot {
        id: Some(3),
        file_type: None,
        meta: None,
        path: None,
        name: "Inner".to_string(),
        class: "ModuleScript".to_string(),
        properties: script_props("return 2"),
        children: Vec::new(),
    };
    let add = AddedSnapshot {
        id: 2,
        parent: 1,
        name: "Outer".to_string(),
        class: "Folder".to_string(),
        properties: Dict::new(),
        meta: None,
        children: vec![child],
    };
    processor::apply_addition(add, &mut tree, &mut vfs).unwrap();
    assert!(vfs.is_dir("src/Outer"));
    assert_eq!(vfs.read("src/Outer/Inner.luau").unwrap(), "return 2");
    assert_eq!(tree.get_node(3).unwrap().parent, 2);
}

#[test]
fn container_properties_land_in_a_sidecar_data_file() {
    let mut vfs = Vfs::new(false);
    vfs.write("src", VfsEntry::Dir);
    let mut tree = Tree::init(1, "Root", "Folder", meta_with_source(Source::directory("src")));
    let mut props: Properties = Dict::new();
    props.insert("Tag", Value::Text("spawn".to_string()));
    let add = add_request(2, 1, "Spawns", "Folder", props);
    processor::apply_addition(add, &mut tree, &mut vfs).unwrap();
    assert!(vfs.is_dir("src/Spawns"));
    // The container has no file body, so every property goes to the
    // sidecar inside its folder.
    assert!(vfs.is_file("src/Spawns/.data.json"));
}

#[test]
fn leftover_properties_on_a_leaf_have_nowhere_to_go() {
    let mut vfs = Vfs::new(false);
    vfs.write("src", VfsEntry::Dir);
    let mut tree = Tree::init(1, "Root", "Folder", meta_with_source(Source::directory("src")));
    let mut props = script_props("return {}");
    props.insert("Marker", Value::Truth(true));
    let add = add_request(2, 1, "Module", "ModuleScript", props);
    // The instance-data rule is folder-only, so a bare leaf cannot
    // take a sidecar: the request fails hard.
    assert_eq!(
        processor::apply_addition(add, &mut tree, &mut vfs),
        Err(WriteError::NoMatchingRule)
    );
}

#[test]
fn a_corrupted_name_aborts_before_any_write() {
    let mut vfs = Vfs::new(false);
    vfs.write("src", VfsEntry::Dir);
    let mut tree = Tree::init(1, "Root", "Folder", meta_with_source(Source::directory("src")));
    let add = add_request(2, 1, "bad/name", "ModuleScript", script_props("x"));
    assert_eq!(processor::apply_addition(add, &mut tree, &mut vfs), Ok(()));
    assert_eq!(vfs.entries.len(), 1);
    assert_eq!(tree.ids.len(), 1);
}

#[test]
fn updating_properties_writes_them_into_the_project_node() {
    let (mut tree, mut vfs) = project_rooted(ProjectNodeData::empty());
    let add = add_request(2, 1, "A", "ModuleScript", script_props("return 1"));
    processor::apply_addition(add, &mut tree, &mut vfs).unwrap();
    let mut update = plain_update(2);
    update.properties = Some(script_props("return 2"));
    processor::apply_update(update, &mut tree, &mut vfs).unwrap();
    let proj = vfs.get_project("default.project.json").unwrap();
    let node = proj.get_node("A").expect("the node is still there");
    match node.properties.get("Source") {
        Some(Value::Text(s)) => assert_eq!(s, "return 2"),
        other => panic!("unexpected Source property: {:?}", other.is_some()),
    }
    match tree.get_node(2).unwrap().properties.get("Source") {
        Some(Value::Text(s)) => assert_eq!(s, "return 2"),
        other => panic!("unexpected Source property: {:?}", other.is_some()),
    }
}

use argon::dir;
use argon::glob::Glob;
use argon::meta::Meta;
use argon::middleware::FileType;
use argon::snapshot::Snapshot;
use argon::value::Value;
use argon::vfs::Vfs;
use argon::vfs::VfsEntry;

fn child_named<'a>(snap: &'a Snapshot, name: &str) -> Option<&'a Snapshot> {
    snap.children.iter().find(|c| c.name == name)
}

#[test]
fn walking_a_directory_builds_the_subtree() {
    let mut vfs = Vfs::new(false);
    vfs.write("src", VfsEntry::Dir);
    vfs.write("src/Module.luau", VfsEntry::Text("return {}".to_string()));
    vfs.write("src/Sub", VfsEntry::Dir);
    vfs.write("src/Sub/.src.luau", VfsEntry::Text("-- body".to_string()));
    vfs.write("src/Sub/Extra.luau", VfsEntry::Text("-- extra".to_string()));
    let meta = Meta::default();
    let snap = dir::snapshot_dir("src", &meta, &vfs).expect("the directory is there");
    assert_eq!(snap.name, "src");
    assert_eq!(snap.children.len(), 2);

    let module = child_named(&snap, "Module").expect("the leaf module is seen");
    assert_eq!(module.class, "ModuleScript");
    assert!(matches!(
        module.properties.get("Source"),
        Some(Value::Text(t)) if t == "return {}"
    ));

    // The folder representation resolves through its body file, and
    // the body itself is not listed again as a child.
    let sub = child_named(&snap, "Sub").expect("the folder module is seen");
    assert_eq!(sub.class, "ModuleScript");
    assert_eq!(sub.file_type, Some(FileType::ModuleScript));
    assert!(matches!(
        sub.properties.get("Source"),
        Some(Value::Text(t)) if t == "-- body"
    ));
    assert_eq!(sub.children.len(), 1);
    assert_eq!(sub.children[0].name, "Extra");
}

#[test]
fn ignored_entries_are_skipped_before_rule_matching() {
    let mut vfs = Vfs::new(false);
    vfs.write("src", VfsEntry::Dir);
    vfs.write("src/Keep.luau", VfsEntry::Text("k".to_string()));
    vfs.write("src/Skip.luau", VfsEntry::Text("s".to_string()));
    let mut meta = Meta::default();
    meta.add_ignore_glob(Glob::new("*Skip*"));
    let snap = dir::snapshot_dir("src", &meta, &vfs).unwrap();
    assert_eq!(snap.children.len(), 1);
    assert_eq!(snap.children[0].name, "Keep");
}

#[test]
fn unmatched_loose_files_yield_no_snapshot() {
    let mut vfs = Vfs::new(false);
    vfs.write("src", VfsEntry::Dir);
    vfs.write("src/notes.md", VfsEntry::Text("hello".to_string()));
    let meta = Meta::default();
    assert!(dir::new_snapshot("src/notes.md", &meta, &vfs).is_none());
    let snap = dir::snapshot_dir("src", &meta, &vfs).unwrap();
    assert_eq!(snap.children.len(), 0);
}

#[test]
fn an_unmatched_directory_walks_as_a_plain_container() {
    let mut vfs = Vfs::new(false);
    vfs.write("assets", VfsEntry::Dir);
    vfs.write("assets/Models", VfsEntry::Dir);
    vfs.write("assets/Models/Tree.luau", VfsEntry::Text("t".to_string()));
    let meta = Meta::default();
    let snap = dir::new_snapshot("assets/Models", &meta, &vfs).expect("a container");
    assert_eq!(snap.name, "Models");
    assert_eq!(snap.class, "Folder");
    assert_eq!(snap.children.len(), 1);
}

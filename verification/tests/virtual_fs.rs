use argon::vfs::Vfs;
use argon::vfs::VfsEntry;
use argon::vfs::VfsError;
use argon::vfs::VfsEvent;

#[test]
fn write_read_and_kinds() {
    let mut vfs = Vfs::new(false);
    vfs.write("src", VfsEntry::Dir);
    vfs.write("src/a.luau", VfsEntry::Text("return 1".to_string()));
    assert!(vfs.entry_exists("src"));
    assert!(vfs.is_dir("src"));
    assert!(!vfs.is_file("src"));
    assert!(vfs.is_file("src/a.luau"));
    assert_eq!(vfs.read("src/a.luau").unwrap(), "return 1");
    assert_eq!(vfs.read("missing"), Err(VfsError::NotFound));
    assert_eq!(vfs.read("src"), Err(VfsError::NotAFile));
}

#[test]
fn read_dir_lists_direct_children_only() {
    let mut vfs = Vfs::new(false);
    vfs.write("src", VfsEntry::Dir);
    vfs.write("src/a.luau", VfsEntry::Text(String::new()));
    vfs.write("src/sub", VfsEntry::Dir);
    vfs.write("src/sub/b.luau", VfsEntry::Text(String::new()));
    vfs.write("other.txt", VfsEntry::Text(String::new()));
    let mut listing = vfs.read_dir("src").unwrap();
    listing.sort();
    assert_eq!(listing, vec!["src/a.luau".to_string(), "src/sub".to_string()]);
    assert_eq!(vfs.read_dir("src/a.luau"), Err(VfsError::NotADirectory));
    assert_eq!(vfs.read_dir("ghost"), Err(VfsError::NotFound));
}

#[test]
fn rename_moves_a_whole_subtree() {
    let mut vfs = Vfs::new(false);
    vfs.write("a", VfsEntry::Dir);
    vfs.write("a/x.luau", VfsEntry::Text("x".to_string()));
    vfs.write("a/sub", VfsEntry::Dir);
    vfs.write("a/sub/y.luau", VfsEntry::Text("y".to_string()));
    vfs.rename("a", "b").unwrap();
    assert!(!vfs.entry_exists("a"));
    assert!(!vfs.entry_exists("a/x.luau"));
    assert!(vfs.is_dir("b"));
    assert_eq!(vfs.read("b/x.luau").unwrap(), "x");
    assert_eq!(vfs.read("b/sub/y.luau").unwrap(), "y");
}

#[test]
fn rename_refuses_a_taken_target() {
    let mut vfs = Vfs::new(false);
    vfs.write("a", VfsEntry::Text("a".to_string()));
    vfs.write("b", VfsEntry::Text("b".to_string()));
    assert_eq!(vfs.rename("a", "b"), Err(VfsError::AlreadyExists));
    assert_eq!(vfs.read("a").unwrap(), "a");
    assert_eq!(vfs.read("b").unwrap(), "b");
}

#[test]
fn remove_drops_everything_under_a_directory() {
    let mut vfs = Vfs::new(false);
    vfs.write("a", VfsEntry::Dir);
    vfs.write("a/x", VfsEntry::Text(String::new()));
    vfs.write("ab", VfsEntry::Text(String::new()));
    vfs.remove("a");
    assert!(!vfs.entry_exists("a"));
    assert!(!vfs.entry_exists("a/x"));
    assert!(vfs.entry_exists("ab"));
}

#[test]
fn watch_list_grows_and_shrinks() {
    let mut vfs = Vfs::new(true);
    assert!(!vfs.is_watched("src"));
    vfs.watch("src");
    assert!(vfs.is_watched("src"));
    vfs.unwatch("src");
    assert!(!vfs.is_watched("src"));
}

#[test]
fn event_path_names_the_changed_file() {
    let e = VfsEvent::Create("src/a.luau".to_string());
    assert_eq!(e.path(), "src/a.luau");
    let e = VfsEvent::Delete("src/b.luau".to_string());
    assert_eq!(e.path(), "src/b.luau");
    let e = VfsEvent::Write("src/c.luau".to_string());
    assert_eq!(e.path(), "src/c.luau");
}

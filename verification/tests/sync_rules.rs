use argon::glob::Glob;
use argon::vfs::Vfs;
use argon::vfs::VfsEntry;
use argon::meta::default_sync_rules;
use argon::meta::SyncRule;
use argon::middleware::FileType;

fn module_rule() -> SyncRule {
    // The `*.luau` module rule of the default set.
    let rules = default_sync_rules();
    rules
        .into_iter()
        .find(|r| r.file_type == FileType::ModuleScript)
        .expect("the defaults carry a module rule")
}

#[test]
fn glob_star_spans_directories() {
    let g = Glob::new("*.luau");
    assert!(g.matches("src/Module.luau"));
    assert!(!g.matches("src/Module.lua"));
}

#[test]
fn glob_question_mark_matches_one_character() {
    let g = Glob::new("a?c");
    assert!(g.matches("abc"));
    assert!(!g.matches("ac"));
    assert!(!g.matches("abbc"));
}

#[test]
fn resolve_server_script_strips_suffix() {
    let rules = default_sync_rules();
    let rule = &rules[2];
    let resolved = rule.resolve("game/Boot.server.luau").expect("rule matches");
    assert_eq!(resolved.file_type, FileType::ServerScript);
    assert_eq!(resolved.name, "Boot");
    assert_eq!(resolved.path, "game/Boot.server.luau");
}

#[test]
fn resolve_module_script_uses_stem() {
    let rule = module_rule();
    let resolved = rule.resolve("src/Module.luau").expect("rule matches");
    assert_eq!(resolved.file_type, FileType::ModuleScript);
    assert_eq!(resolved.name, "Module");
}

#[test]
fn resolve_non_matching_path_is_none() {
    let rule = module_rule();
    assert!(rule.resolve("notes.txt").is_none());
}

#[test]
fn excluded_path_does_not_match() {
    let mut rule = module_rule();
    rule.exclude = Some(Glob::new("*.spec.luau"));
    assert!(rule.matches("src/Thing.luau"));
    assert!(!rule.matches("src/Thing.spec.luau"));
}

#[test]
fn matches_child_sees_body_file_name() {
    let rule = module_rule();
    assert!(rule.matches_child("Old/.src.luau"));
    assert!(!rule.matches_child("Old/other.txt"));
}

#[test]
fn locate_fills_pattern_star_with_name() {
    let rule = module_rule();
    let leaf = rule.locate("src/Module", "Module", false).expect("pattern present");
    assert_eq!(leaf, "src/Module.luau");
    let body = rule.locate("src/Module", "Module", true).expect("child pattern present");
    assert_eq!(body, "src/Module/.src.luau");
}

#[test]
fn default_rules_prefer_luau_for_module_scripts() {
    let rule = module_rule();
    assert_eq!(rule.pattern.as_ref().map(|g| g.as_str().to_string()), Some("*.luau".to_string()));
}

#[test]
fn an_excluded_first_body_candidate_vetoes_resolution() {
    let mut rule = module_rule();
    rule.child_pattern = Some(Glob::new("*.body"));
    rule.exclude = Some(Glob::new("*skip*"));
    let mut vfs = Vfs::new(false);
    vfs.write("F", VfsEntry::Dir);
    vfs.write("F/a.skip.body", VfsEntry::Text(String::new()));
    vfs.write("F/b.body", VfsEntry::Text(String::new()));
    // The first candidate the pattern finds is excluded: the folder
    // resolves to nothing, later candidates are not substituted.
    assert!(rule.resolve_child("F", &vfs).is_none());

    let mut vfs = Vfs::new(false);
    vfs.write("F", VfsEntry::Dir);
    vfs.write("F/b.body", VfsEntry::Text(String::new()));
    vfs.write("F/a.skip.body", VfsEntry::Text(String::new()));
    // With a clean candidate first, it wins as usual.
    let res = rule.resolve_child("F", &vfs).expect("the clean candidate resolves");
    assert_eq!(res.path, "F/b.body");
    assert_eq!(res.name, "F");
}

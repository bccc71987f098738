use argon::text;
use argon::workspace;

#[test]
fn workspace_dir_and_name_come_from_the_project_path() {
    assert_eq!(workspace::get_dir("game/default.project.json"), "game");
    assert_eq!(workspace::get_name("game/default.project.json"), "game");
    assert_eq!(workspace::get_dir("nested/deep/p.project.json"), "nested/deep");
    assert_eq!(workspace::get_name("nested/deep/p.project.json"), "deep");
}

#[test]
fn placeholders_are_filled_everywhere_they_occur() {
    let filled = workspace::fill_name_placeholder("# $name\n$name is great", "argon");
    assert_eq!(filled, "# argon\nargon is great");
    let filled = workspace::fill_src_placeholder("\"$path\": \"$src\"", "src");
    assert_eq!(filled, "\"$path\": \"src\"");
}

#[test]
fn file_name_and_stem_handle_dotfiles() {
    assert_eq!(text::get_file_name("a/b/c.luau"), "c.luau");
    assert_eq!(text::get_file_name("plain"), "plain");
    assert_eq!(text::get_file_stem("a/b.server.luau"), "b.server");
    assert_eq!(text::get_file_stem("a/.src"), ".src");
    assert_eq!(text::get_file_stem("a/.src.luau"), ".src");
}

#[test]
fn parent_and_join_are_inverses_on_simple_paths() {
    let joined = text::path_join("src", "Module.luau");
    assert_eq!(joined, "src/Module.luau");
    assert_eq!(text::get_parent(&joined), "src");
    assert_eq!(text::get_parent("top"), "");
}

#[test]
fn replace_all_scans_left_to_right() {
    assert_eq!(text::replace_all("aaa", "aa", "b"), "ba");
    assert_eq!(text::replace_all("A.data.json", "A", "B"), "B.data.json");
    assert_eq!(text::replace_all("none", "x", "y"), "none");
}

#[test]
fn sourcemap_arguments_follow_the_flag_order() {
    let args = workspace::sourcemap_spawn_args(Some("game"), Some("map.json"), true, false);
    assert_eq!(args, vec!["sourcemap", "game", "--output", "map.json", "--watch"]);
    let args = workspace::sourcemap_spawn_args(None, None, false, true);
    assert_eq!(args, vec!["sourcemap", "--non-scripts"]);
}

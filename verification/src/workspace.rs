//! Workspace paths: where a project file's workspace lives and what it
//! is called, plus the placeholder filling used when one is scaffolded.

use vstd::prelude::*;

use crate::text;

verus! {

/// The directory a project file lives in: everything before the file
/// name.
pub fn get_dir(project_path: &str) -> (r: String)
    ensures
        r@ == text::parent_of(project_path@),
{
    text::get_parent(project_path).to_owned()
}

/// The workspace's name: the name of the directory the project file
/// lives in.
pub fn get_name(project_path: &str) -> (r: String)
    ensures
        r@ == text::file_name_of(text::parent_of(project_path@)),
{
    let dir = text::get_parent(project_path);
    text::get_file_name(dir).to_owned()
}

/// A scaffolding template's text with every `$name` placeholder
/// replaced by the project's name.
pub fn fill_name_placeholder(content: &str, name: &str) -> (r: String)
    ensures
        r@ == text::replaced(content@, "$name"@, name@),
{
    text::replace_all(content, "$name", name)
}

/// A scaffolding template's text with every `$src` placeholder
/// replaced by the source directory.
pub fn fill_src_placeholder(content: &str, source: &str) -> (r: String)
    ensures
        r@ == text::replaced(content@, "$src"@, source@),
{
    text::replace_all(content, "$src", source)
}

/// The argument list a re-spawned sourcemap session is started with:
/// the subcommand, the optional project and output paths, and the two
/// flags, in that order.
pub open spec fn sourcemap_args_spec(
    project: Option<Seq<char>>,
    output: Option<Seq<char>>,
    watch: bool,
    non_scripts: bool,
) -> Seq<Seq<char>> {
    seq!["sourcemap"@] + (match project {
        Some(p) => seq![p],
        None => Seq::<Seq<char>>::empty(),
    }) + (match output {
        Some(o) => seq!["--output"@, o],
        None => Seq::<Seq<char>>::empty(),
    }) + (if watch {
        seq!["--watch"@]
    } else {
        Seq::<Seq<char>>::empty()
    }) + (if non_scripts {
        seq!["--non-scripts"@]
    } else {
        Seq::<Seq<char>>::empty()
    })
}

/// Builds the argument list for re-spawning a sourcemap session.
pub fn sourcemap_spawn_args(
    project: Option<&str>,
    output: Option<&str>,
    watch: bool,
    non_scripts: bool,
) -> (r: Vec<String>)
    ensures
        crate::vfs::str_views(r@) == sourcemap_args_spec(
            match project {
                Some(p) => Some(p@),
                None => None,
            },
            match output {
                Some(o) => Some(o@),
                None => None,
            },
            watch,
            non_scripts,
        ),
{
    let mut args: Vec<String> = Vec::new();
    args.push("sourcemap".to_owned());
    match project {
        Some(p) => args.push(p.to_owned()),
        None => {},
    }
    match output {
        Some(o) => {
            args.push("--output".to_owned());
            args.push(o.to_owned());
        },
        None => {},
    }
    if watch {
        args.push("--watch".to_owned());
    }
    if non_scripts {
        args.push("--non-scripts".to_owned());
    }
    proof {
        assert(crate::vfs::str_views(args@) =~= sourcemap_args_spec(
            match project {
                Some(p) => Some(p@),
                None => None,
            },
            match output {
                Some(o) => Some(o@),
                None => None,
            },
            watch,
            non_scripts,
        ));
    }
    args
}

} // verus!

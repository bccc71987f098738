//! The processor: applies one remote-originated addition, update or
//! removal to the tree and the file system, promoting and demoting
//! file and folder representations as children come and go.

use vstd::prelude::*;

use crate::dict::Dict;
use crate::meta;
use crate::meta::Meta;
use crate::meta::SyncbackFilter;
use crate::meta::SyncRule;
use crate::middleware;
use crate::middleware::FileType;
use crate::project;
use crate::project::ProjectFileData;
use crate::project::ProjectNodeData;
use crate::snapshot::AddedSnapshot;
use crate::snapshot::Snapshot;
use crate::snapshot::UpdatedSnapshot;
use crate::source::Source;
use crate::source::SourceEntry;
use crate::source::SourceEntryView;
use crate::source::SourceKind;
use crate::text;
use crate::tree::Tree;
use crate::tree::TreeNodeView;
use crate::value::clone_props;
use crate::value::Properties;
use crate::vfs::Vfs;
use crate::vfs::VfsEntry;

verus! {

/// Why a reconciliation step could not be carried out.
#[derive(Clone, Copy, PartialEq, Eq, Structural, Debug)]
pub enum WriteError {
    /// No sync rule of the context yields a location for the write.
    NoMatchingRule,
    /// The project file backing the instance is gone or not a project.
    ProjectMissing,
    /// The project file has no node under the recorded node path.
    NodeNotFound,
    /// A rename's target is already taken on disk.
    PathTaken,
    /// The request changes a class or a context, which no client may do.
    UnsupportedChange,
}

/// The node table a project-file entry holds; empty for anything else.
pub open spec fn entry_project_nodes(e: crate::vfs::VfsEntryView) -> Map<
    Seq<char>,
    crate::project::ProjectNodeView,
> {
    match e {
        crate::vfs::VfsEntryView::Project(p) => p.nodes,
        _ => Map::empty(),
    }
}

/// Whether `name` can stand as a file or instance name.
pub open spec fn name_valid(name: Seq<char>) -> bool {
    &&& name.len() > 0
    &&& !name.contains('/')
    &&& name != "."@
    &&& name != ".."@
}

/// Whether `name` can stand as a file or instance name: it is not
/// empty, holds no separator and is no relative-path component.
pub fn verify_name(name: &str) -> (r: bool)
    ensures
        r == name_valid(name@),
{
    let n: usize = name.unicode_len();
    if n == 0 {
        return false;
    }
    let mut i: usize = 0;
    while i < n
        invariant
            i <= n,
            n == name@.len(),
            forall|j: int| 0 <= j < i ==> name@[j] != '/',
        decreases n - i,
    {
        if name.get_char(i) == '/' {
            proof {
                assert(name@.contains(name@[i as int]));
            }
            return false;
        }
        i += 1;
    }
    proof {
        if name@.contains('/') {
            let j = choose|j: int| 0 <= j < name@.len() && name@[j] == '/';
        }
        reveal_strlit(".");
        reveal_strlit("..");
    }
    !text::str_eq(name, ".") && !text::str_eq(name, "..")
}

/// The entries of `m` whose names the filter `f` admits.
pub open spec fn admitted_props(
    m: Map<Seq<char>, crate::value::ValueView>,
    f: crate::meta::SyncbackFilterView,
) -> Map<Seq<char>, crate::value::ValueView> {
    Map::new(|k: Seq<char>| m.contains_key(k) && !f.matches_name_spec(k), |k: Seq<char>| m[k])
}

/// Properties whose names the syncback filter admits.
pub fn validate_properties(props: Properties, filter: &SyncbackFilter) -> (r: Properties)
    requires
        props.wf(),
    ensures
        r.wf(),
        r@ == admitted_props(props@, filter@),
{
    let ghost gm = props@;
    let n = props.len();
    let mut out: Properties = Dict::new();
    let mut i: usize = 0;
    while i < n
        invariant
            i <= n,
            n == props.keys@.len(),
            props.wf(),
            gm == props@,
            out.wf(),
            forall|j: int|
                0 <= j < i && !filter@.matches_name_spec(#[trigger] props.kseq()[j])
                    ==> out@.contains_key(props.kseq()[j]) && out@[props.kseq()[j]]
                    == props.vseq()[j],
            forall|k: Seq<char>|
                #[trigger] out@.contains_key(k) ==> gm.contains_key(k)
                    && !filter@.matches_name_spec(k) && out@[k] == gm[k],
        decreases n - i,
    {
        let k = props.key_at(i);
        proof {
            crate::dict::lemma_assoc_index(props.kseq(), props.vseq(), i as int);
        }
        if !filter.matches_name(k) {
            let v = props.val_at(i).clone();
            out.insert(k, v);
        }
        i += 1;
    }
    proof {
        assert forall|k: Seq<char>|
            #[trigger] out@.contains_key(k) <==> gm.contains_key(k)
                && !filter@.matches_name_spec(k) by {
            if gm.contains_key(k) && !filter@.matches_name_spec(k) {
                crate::dict::lemma_assoc_contains(props.kseq(), props.vseq(), k);
                let j = choose|j: int|
                    0 <= j < props.kseq().len() && #[trigger] props.kseq()[j] == k;
                crate::dict::lemma_assoc_index(props.kseq(), props.vseq(), j);
                assert(out@.contains_key(props.kseq()[j]));
            }
        };
        assert(out@ =~= admitted_props(gm, filter@));
    }
    out
}

/// The first rule of `rules` matching the leaf path `p`; declaration
/// order decides, the first match wins.
pub open spec fn first_leaf_match(rules: Seq<crate::meta::SyncRuleView>, p: Seq<char>) -> Option<
    crate::meta::SyncRuleView,
>
    decreases rules.len(),
{
    if rules.len() == 0 {
        None
    } else if rules[0].matches_spec(p) {
        Some(rules[0])
    } else {
        first_leaf_match(rules.skip(1), p)
    }
}

/// The first rule of `rules` that claims `p` as a body file.
pub open spec fn first_child_match(rules: Seq<crate::meta::SyncRuleView>, p: Seq<char>) -> Option<
    crate::meta::SyncRuleView,
>
    decreases rules.len(),
{
    if rules.len() == 0 {
        None
    } else if rules[0].matches_child_spec(p) {
        Some(rules[0])
    } else {
        first_child_match(rules.skip(1), p)
    }
}

/// Where the first rule of `rules` with file type `ft` that yields a
/// location places an instance named `name` at `path`.
pub open spec fn first_located(
    rules: Seq<crate::meta::SyncRuleView>,
    ft: FileType,
    path: Seq<char>,
    name: Seq<char>,
    is_dir: bool,
) -> Option<Seq<char>>
    decreases rules.len(),
{
    if rules.len() == 0 {
        None
    } else if rules[0].file_type == ft && rules[0].locate_spec(path, name, is_dir) is Some {
        rules[0].locate_spec(path, name, is_dir)
    } else {
        first_located(rules.skip(1), ft, path, name, is_dir)
    }
}

/// Whether a childless snapshot can be written cleanly as a fresh
/// leaf under a directory-represented, path-sourced parent: the name
/// is sound, the class has a middleware, the rules locate a free body
/// path the filter admits, the reference is fresh, and every admitted
/// property fits the body file's native format.
pub open spec fn leaf_add_ready(
    treem: Map<u64, TreeNodeView>,
    vfsm: Map<Seq<char>, crate::vfs::VfsEntryView>,
    parent_id: u64,
    parent_path: Seq<char>,
    rules: Seq<crate::meta::SyncRuleView>,
    f: crate::meta::SyncbackFilterView,
    snapshot: Snapshot,
) -> bool {
    let mw = middleware::middleware_of_class(snapshot.class@)->0;
    let key = middleware::native_key(mw)->0;
    let located = first_located(
        rules,
        mw,
        text::joined(parent_path, snapshot.name@),
        snapshot.name@,
        false,
    );
    &&& !(vfsm.contains_key(parent_path) && !(vfsm[parent_path] is Dir))
    &&& snapshot.id is Some
    &&& treem.contains_key(parent_id)
    &&& !treem.contains_key(snapshot.id->0)
    &&& snapshot.children@.len() == 0
    &&& name_valid(snapshot.name@)
    &&& middleware::middleware_of_class(snapshot.class@) is Some
    &&& located is Some
    &&& !vfsm.contains_key(located->0)
    &&& !f.matches_path_spec(located->0)
    &&& middleware::leftover_props(admitted_props(snapshot.properties@, f), key) == Map::<
        Seq<char>,
        crate::value::ValueView,
    >::empty()
}

/// The body path a clean leaf addition writes.
pub open spec fn leaf_add_body(
    rules: Seq<crate::meta::SyncRuleView>,
    parent_path: Seq<char>,
    snapshot: Snapshot,
) -> Seq<char> {
    first_located(
        rules,
        middleware::middleware_of_class(snapshot.class@)->0,
        text::joined(parent_path, snapshot.name@),
        snapshot.name@,
        false,
    )->0
}

/// The text that body file holds: the admitted properties' native
/// value.
pub open spec fn leaf_add_text(f: crate::meta::SyncbackFilterView, snapshot: Snapshot) -> Seq<
    char,
> {
    middleware::native_text(
        admitted_props(snapshot.properties@, f),
        middleware::native_key(middleware::middleware_of_class(snapshot.class@)->0)->0,
    )
}

/// The file system after a file-leaf parent is promoted: the file is
/// gone from its old place, the folder stands, and the body file
/// inside it holds what the file held.
pub open spec fn promoted_map(
    m: Map<Seq<char>, crate::vfs::VfsEntryView>,
    pp: Seq<char>,
    folder: Seq<char>,
    body: Seq<char>,
) -> Map<Seq<char>, crate::vfs::VfsEntryView> {
    m.remove(pp).insert(folder, crate::vfs::VfsEntryView::Dir).insert(body, m[pp])
}

/// What a promotion names: the folder (from the first matching rule's
/// derived name) and the body location inside it.
pub open spec fn promote_folder_of(
    rules: Seq<crate::meta::SyncRuleView>,
    pp: Seq<char>,
) -> Seq<char> {
    let rule = first_leaf_match(rules, pp)->0;
    text::with_name_of(pp, rule.name_spec(pp))
}

pub open spec fn promote_body_of(
    rules: Seq<crate::meta::SyncRuleView>,
    pp: Seq<char>,
) -> Seq<char> {
    let rule = first_leaf_match(rules, pp)->0;
    rule.locate_spec(promote_folder_of(rules, pp), rule.name_spec(pp), true)->0
}

/// The clean promotion conditions: the parent path is a lone file, a
/// rule claims it and locates a body inside the derived folder, no
/// data sidecar rides along, and the folder's place is wholly free.
pub open spec fn promote_ready(
    m: Map<Seq<char>, crate::vfs::VfsEntryView>,
    pp: Seq<char>,
    rules: Seq<crate::meta::SyncRuleView>,
    src_rel: Seq<SourceEntryView>,
) -> bool {
    let rule = first_leaf_match(rules, pp)->0;
    let folder = promote_folder_of(rules, pp);
    &&& m.contains_key(pp)
    &&& !(m[pp] is Dir)
    &&& first_leaf_match(rules, pp) is Some
    &&& rule.locate_spec(folder, rule.name_spec(pp), true) is Some
    &&& crate::source::first_data(src_rel) is None
    &&& (forall|k: Seq<char>| m.contains_key(k) ==> !text::under(folder, k))
    &&& !text::under(pp, folder)
    &&& (forall|k: Seq<char>| m.contains_key(k) && text::under(pp, k) ==> k == pp)
}

/// The path a path-kind source points at; empty for the other kinds.
pub open spec fn path_of_kind(k: crate::source::SourceKindView) -> Seq<char> {
    match k {
        crate::source::SourceKindView::Path(p) => p,
        _ => Seq::empty(),
    }
}

/// Where the body file of the folder-represented `node` would move
/// when the folder is demoted: the location the first child-claiming
/// rule derives beside the folder.
pub open spec fn demote_target(node: TreeNodeView) -> Option<Seq<char>> {
    match crate::source::first_file(node.meta.source.relevant) {
        Some(body) => match first_child_match(node.meta.sync_rules, body) {
            Some(rule) => rule.locate_spec(
                path_of_kind(node.meta.source.kind),
                text::file_name_of(path_of_kind(node.meta.source.kind)),
                false,
            ),
            None => None,
        },
        None => None,
    }
}

/// `node` with its source rewritten to the single file `new_path`.
pub open spec fn demoted_node(node: TreeNodeView, new_path: Seq<char>) -> TreeNodeView {
    TreeNodeView {
        meta: crate::meta::MetaView {
            source: crate::source::SourceView {
                kind: crate::source::SourceKindView::Path(new_path),
                relevant: seq![SourceEntryView::FileEntry(new_path)],
            },
            ..node.meta
        },
        ..node
    }
}

/// The first sync rule of `rules` matching the leaf path `path`.
pub fn find_matching_rule<'a>(rules: &'a Vec<SyncRule>, path: &str) -> (r: Option<&'a SyncRule>)
    ensures
        match r {
            Some(rule) => first_leaf_match(meta::rule_views(rules@), path@) == Some(rule@)
                && rule@.matches_spec(path@),
            None => first_leaf_match(meta::rule_views(rules@), path@) is None,
        },
{
    let ghost views = meta::rule_views(rules@);
    let n = rules.len();
    let mut i: usize = 0;
    proof {
        assert(views.skip(0) =~= views);
    }
    while i < n
        invariant
            i <= n,
            n == rules@.len(),
            views == meta::rule_views(rules@),
            first_leaf_match(views, path@) == first_leaf_match(views.skip(i as int), path@),
        decreases n - i,
    {
        proof {
            assert(views.skip(i as int)[0] == views[i as int]);
            assert(views[i as int] == rules@[i as int]@);
            assert(views.skip(i as int).skip(1) =~= views.skip(i + 1));
        }
        if rules[i].matches(path) {
            return Some(&rules[i]);
        }
        i += 1;
    }
    proof {
        assert(views.skip(n as int) =~= Seq::<crate::meta::SyncRuleView>::empty());
    }
    None
}

/// The first location that a rule of `rules` with file type `ft` gives
/// for an instance named `name` at `path`.
pub fn locate_by_type(rules: &Vec<SyncRule>, ft: FileType, path: &str, name: &str, is_dir: bool)
    -> (r: Option<String>)
    ensures
        match r {
            Some(p) => first_located(meta::rule_views(rules@), ft, path@, name@, is_dir)
                == Some(p@),
            None => first_located(
                meta::rule_views(rules@),
                ft,
                path@,
                name@,
                is_dir,
            ) is None,
        },
{
    let ghost views = meta::rule_views(rules@);
    let n = rules.len();
    let mut i: usize = 0;
    proof {
        assert(views.skip(0) =~= views);
    }
    while i < n
        invariant
            i <= n,
            n == rules@.len(),
            views == meta::rule_views(rules@),
            first_located(views, ft, path@, name@, is_dir) == first_located(
                views.skip(i as int),
                ft,
                path@,
                name@,
                is_dir,
            ),
        decreases n - i,
    {
        proof {
            assert(views.skip(i as int)[0] == views[i as int]);
            assert(views[i as int] == rules@[i as int]@);
            assert(views.skip(i as int).skip(1) =~= views.skip(i + 1));
        }
        if rules[i].file_type == ft {
            match rules[i].locate(path, name, is_dir) {
                Some(p) => {
                    return Some(p);
                },
                None => {},
            }
        }
        i += 1;
    }
    proof {
        assert(views.skip(n as int) =~= Seq::<crate::meta::SyncRuleView>::empty());
    }
    None
}

/// The first rule of `rules` whose child pattern claims `path` as a
/// body file.
pub fn find_child_rule<'a>(rules: &'a Vec<SyncRule>, path: &str) -> (r: Option<&'a SyncRule>)
    ensures
        match r {
            Some(rule) => first_child_match(meta::rule_views(rules@), path@) == Some(
                rule@,
            ) && rule@.matches_child_spec(path@),
            None => first_child_match(meta::rule_views(rules@), path@) is None,
        },
{
    let ghost views = meta::rule_views(rules@);
    let n = rules.len();
    let mut i: usize = 0;
    proof {
        assert(views.skip(0) =~= views);
    }
    while i < n
        invariant
            i <= n,
            n == rules@.len(),
            views == meta::rule_views(rules@),
            first_child_match(views, path@) == first_child_match(
                views.skip(i as int),
                path@,
            ),
        decreases n - i,
    {
        proof {
            assert(views.skip(i as int)[0] == views[i as int]);
            assert(views[i as int] == rules@[i as int]@);
            assert(views.skip(i as int).skip(1) =~= views.skip(i + 1));
        }
        if rules[i].matches_child(path) {
            return Some(&rules[i]);
        }
        i += 1;
    }
    proof {
        assert(views.skip(n as int) =~= Seq::<crate::meta::SyncRuleView>::empty());
    }
    None
}

/// The context a freshly written instance lives in: the parent's
/// rules, ignore globs and filter, extended by the snapshot's own.
fn child_meta(snapshot_meta: Option<Meta>, parent_meta: &Meta) -> (r: Meta)
    requires
        parent_meta.wf(),
        snapshot_meta matches Some(m) ==> m.wf(),
    ensures
        r.wf(),
{
    let mut base = Meta::new();
    base.set_sync_rules(meta::clone_rules(&parent_meta.sync_rules));
    base.set_ignore_globs(meta::clone_globs(&parent_meta.ignore_globs));
    base.filter = parent_meta.filter.clone_filter();
    match snapshot_meta {
        Some(m) => {
            base.keep_unknowns = m.keep_unknowns;
            base.extend(m);
        },
        None => {},
    }
    base
}

/// Writes the on-disk representation of one fresh instance at `path`:
/// its body through the class's middleware, or a plain directory, plus
/// a sidecar data file for what the body cannot encode. Hands back the
/// instance's context, or nothing when a name check, a filter or an
/// existing entry stopped the write.
fn write_instance(
    has_children: bool,
    path: &str,
    name: &str,
    class: &str,
    properties: Properties,
    snapshot_meta: Option<Meta>,
    parent_meta: &Meta,
    vfs: &mut Vfs,
) -> (r: Result<Option<Meta>, WriteError>)
    requires
        properties.wf(),
        parent_meta.wf(),
        snapshot_meta matches Some(m) ==> m.wf(),
        old(vfs).wf(),
    ensures
        final(vfs).wf(),
        final(vfs).watched == old(vfs).watched,
        final(vfs).watch_enabled == old(vfs).watch_enabled,
        r matches Ok(Some(m)) ==> m.wf(),
        !name_valid(name@) ==> r == Ok::<Option<Meta>, WriteError>(None) && final(vfs)@
            == old(vfs)@,
        ({
            let mw = middleware::middleware_of_class(class@)->0;
            let located = first_located(
                meta::rule_views(parent_meta.sync_rules@),
                mw,
                path@,
                name@,
                false,
            );
            (name_valid(name@) && (middleware::middleware_of_class(class@) is Some)
                && has_children == false && (located is Some) && old(vfs)@.contains_key(
                located->0,
            )) ==> r == Ok::<Option<Meta>, WriteError>(None) && final(vfs)@ == old(vfs)@
        }),
        ({
            let mw = middleware::middleware_of_class(class@)->0;
            let key = middleware::native_key(mw)->0;
            let body = first_located(
                meta::rule_views(parent_meta.sync_rules@),
                mw,
                path@,
                name@,
                false,
            )->0;
            (name_valid(name@) && (middleware::middleware_of_class(class@) is Some)
                && has_children == false && (first_located(
                meta::rule_views(parent_meta.sync_rules@),
                mw,
                path@,
                name@,
                false,
            ) is Some) && !old(vfs)@.contains_key(body)
                && !parent_meta@.filter.matches_path_spec(body)
                && middleware::leftover_props(properties@, key) == Map::<
                Seq<char>,
                crate::value::ValueView,
            >::empty()) ==> (r matches Ok(Some(m)) && m@.source.kind
                == crate::source::SourceKindView::Path(body)
                && crate::source::first_file(m@.source.relevant) == Some(body)
                && final(vfs)@ == old(vfs)@.insert(
                body,
                crate::vfs::VfsEntryView::Text(
                    middleware::native_text(properties@, key),
                ),
            ))
        }),
    {
    if !verify_name(name) {
        return Ok(None);
    }
    let mut m = child_meta(snapshot_meta, parent_meta);
    let filter = &parent_meta.filter;
    match middleware::from_class(class) {
        Some(mw) => {
            proof {
                middleware::lemma_class_middleware_has_native_key(class@);
            }
            let file_path = match locate_by_type(
                &parent_meta.sync_rules,
                mw,
                path,
                name,
                has_children,
            ) {
                Some(p) => p,
                None => {
                    return Err(WriteError::NoMatchingRule);
                },
            };
            if has_children {
                if vfs.entry_exists(path) {
                    return Ok(None);
                }
                if filter.matches_path(path) {
                    return Ok(None);
                }
                vfs.write(path, VfsEntry::Dir);
                m.set_source(Source::child_file(path, file_path.as_str()));
            } else {
                if vfs.entry_exists(file_path.as_str()) {
                    return Ok(None);
                }
                m.set_source(Source::file(file_path.as_str()));
            }
            if filter.matches_path(file_path.as_str()) {
                return Ok(None);
            }
            let leftover = middleware::write_props(mw, properties, file_path.as_str(), vfs);
            if !crate::value::props_is_empty(&leftover) {
                let data_path = match locate_by_type(
                    &parent_meta.sync_rules,
                    FileType::InstanceData,
                    path,
                    name,
                    has_children,
                ) {
                    Some(p) => p,
                    None => {
                        return Err(WriteError::NoMatchingRule);
                    },
                };
                if filter.matches_path(data_path.as_str()) {
                    // The data file is filtered; its properties stay
                    // unpersisted, the body file stands.
                } else {
                    let written = middleware::write_data(leftover, data_path.as_str(), vfs);
                    m.source.set_data(written);
                }
            }
            Ok(Some(m))
        },
        None => {
            if vfs.entry_exists(path) {
                return Ok(None);
            }
            if filter.matches_path(path) {
                return Ok(None);
            }
            vfs.write(path, VfsEntry::Dir);
            m.set_source(Source::directory(path));
            let data_path = match locate_by_type(
                &parent_meta.sync_rules,
                FileType::InstanceData,
                path,
                name,
                true,
            ) {
                Some(p) => p,
                None => {
                    return Err(WriteError::NoMatchingRule);
                },
            };
            if filter.matches_path(data_path.as_str()) {
                // Filtered: the directory stands without a data file.
            } else {
                let written = middleware::write_data(properties, data_path.as_str(), vfs);
                m.source.set_data(written);
            }
            Ok(Some(m))
        },
    }
}

/// Turns the file at `parent_path` into a folder representation: makes
/// the folder, moves the file to the rule's body location inside it,
/// and moves the data sidecar along. Hands back the folder path and the
/// parent's new source, or nothing when the folder's place is taken.
fn promote_file_to_folder(parent_path: &str, parent_meta: &Meta, vfs: &mut Vfs) -> (r: Result<
    Option<(String, Source)>,
    WriteError,
>)
    requires
        parent_meta.wf(),
        old(vfs).wf(),
    ensures
        final(vfs).wf(),
        final(vfs).watched == old(vfs).watched,
        final(vfs).watch_enabled == old(vfs).watch_enabled,
        r matches Ok(Some((folder, src))) ==> src.wf() && (src@.kind
            == crate::source::SourceKindView::Path(folder@)),
        r matches Ok(None) ==> final(vfs)@ == old(vfs)@,
        ({
            let rule = first_leaf_match(
                meta::rule_views(parent_meta.sync_rules@),
                parent_path@,
            )->0;
            let pname = rule.name_spec(parent_path@);
            let folder = text::with_name_of(parent_path@, pname);
            let body = rule.locate_spec(folder, pname, true)->0;
            (old(vfs)@.contains_key(parent_path@) && (first_leaf_match(
                meta::rule_views(parent_meta.sync_rules@),
                parent_path@,
            ) is Some) && (rule.locate_spec(folder, pname, true) is Some) && (
            crate::source::first_data(parent_meta@.source.relevant) is None) && (forall|
                k: Seq<char>,
            |
                old(vfs)@.contains_key(k) ==> !text::under(folder, k)) && !text::under(
                parent_path@,
                folder,
            ) && (forall|k: Seq<char>|
                old(vfs)@.contains_key(k) && text::under(parent_path@, k) ==> k
                    == parent_path@)) ==> (r matches Ok(Some(fs)) && fs.0@ == folder
                && fs.1@.kind == crate::source::SourceKindView::Path(folder)
                && fs.1@.relevant == seq![
                SourceEntryView::FolderEntry(folder),
                SourceEntryView::FileEntry(body),
            ] && final(vfs)@ == old(vfs)@.remove(parent_path@).insert(
                folder,
                crate::vfs::VfsEntryView::Dir,
            ).insert(body, old(vfs)@[parent_path@]))
        }),
{
    let ghost grule0 = first_leaf_match(
        meta::rule_views(parent_meta.sync_rules@),
        parent_path@,
    )->0;
    let ghost gname0 = grule0.name_spec(parent_path@);
    let ghost gfolder0 = text::with_name_of(parent_path@, gname0);
    let ghost gbody0 = grule0.locate_spec(gfolder0, gname0, true)->0;
    let ghost ghyp = old(vfs)@.contains_key(parent_path@) && (first_leaf_match(
        meta::rule_views(parent_meta.sync_rules@),
        parent_path@,
    ) is Some) && (grule0.locate_spec(gfolder0, gname0, true) is Some) && (
    crate::source::first_data(parent_meta@.source.relevant) is None) && (forall|
        k: Seq<char>,
    |
        old(vfs)@.contains_key(k) ==> !text::under(gfolder0, k)) && !text::under(
        parent_path@,
        gfolder0,
    ) && (forall|k: Seq<char>|
        old(vfs)@.contains_key(k) && text::under(parent_path@, k) ==> k == parent_path@);
    let rule = match find_matching_rule(&parent_meta.sync_rules, parent_path) {
        Some(rule) => rule,
        None => {
            return Err(WriteError::NoMatchingRule);
        },
    };
    let name = rule.get_name(parent_path);
    let folder_path = text::with_file_name(parent_path, name.as_str());
    proof {
        if ghyp {
            assert(rule@ == grule0);
            assert(folder_path@ == gfolder0);
            assert(text::under(folder_path@, folder_path@));
            assert(!vfs@.contains_key(folder_path@));
        }
    }
    if vfs.entry_exists(folder_path.as_str()) {
        return Ok(None);
    }
    let file_path = match rule.locate(folder_path.as_str(), name.as_str(), true) {
        Some(p) => p,
        None => {
            return Err(WriteError::NoMatchingRule);
        },
    };
    proof {
        if ghyp {
            assert(file_path@ == gbody0);
            let cp = grule0.child_pattern->0;
            assert(gbody0 == gfolder0 + seq!['/'] + cp);
            assert(gbody0.subrange(0, gfolder0.len() as int + 1) =~= gfolder0
                + seq!['/']);
            assert(text::is_prefix_of(gfolder0 + seq!['/'], gbody0));
            assert(text::under(gfolder0, gbody0));
            assert(gbody0.len() > gfolder0.len());
        }
    }
    let data_paths: Option<(String, String)> = match parent_meta.source.get_data() {
        Some(old_dp) => {
            let new_dp = match locate_by_type(
                &parent_meta.sync_rules,
                FileType::InstanceData,
                folder_path.as_str(),
                name.as_str(),
                true,
            ) {
                Some(p) => p,
                None => {
                    return Err(WriteError::NoMatchingRule);
                },
            };
            Some((old_dp, new_dp))
        },
        None => None,
    };
    let mut source = Source::child_file(folder_path.as_str(), file_path.as_str());
    vfs.write(folder_path.as_str(), VfsEntry::Dir);
    proof {
        if ghyp {
            assert forall|k: Seq<char>| vfs@.contains_key(k) implies !text::under(
                file_path@,
                k,
            ) by {
                if text::under(gbody0, k) {
                    text::lemma_under_trans(gfolder0, gbody0, k);
                    text::lemma_under_decomp(gbody0, k);
                }
            };
        }
    }
    match vfs.rename(parent_path, file_path.as_str()) {
        Ok(()) => {},
        Err(_) => {
            return Err(WriteError::PathTaken);
        },
    }
    match data_paths {
        Some(dp) => {
            source.add_data(dp.1.as_str());
            match vfs.rename(dp.0.as_str(), dp.1.as_str()) {
                Ok(()) => {},
                Err(_) => {
                    return Err(WriteError::PathTaken);
                },
            }
        },
        None => {},
    }
    proof {
        let grule = first_leaf_match(
            meta::rule_views(parent_meta.sync_rules@),
            parent_path@,
        )->0;
        let gname = grule.name_spec(parent_path@);
        let gfolder = text::with_name_of(parent_path@, gname);
        let gbody = grule.locate_spec(gfolder, gname, true)->0;
        if old(vfs)@.contains_key(parent_path@) && (first_leaf_match(
            meta::rule_views(parent_meta.sync_rules@),
            parent_path@,
        ) is Some) && (grule.locate_spec(gfolder, gname, true) is Some) && (
        crate::source::first_data(parent_meta@.source.relevant) is None) && (forall|
            k: Seq<char>,
        |
            old(vfs)@.contains_key(k) ==> !text::under(gfolder, k)) && !text::under(
            parent_path@,
            gfolder,
        ) && (forall|k: Seq<char>|
            old(vfs)@.contains_key(k) && text::under(parent_path@, k) ==> k
                == parent_path@) {
            assert(folder_path@ == gfolder);
            assert(file_path@ == gbody);
            assert(source@.relevant =~= seq![
                SourceEntryView::FolderEntry(gfolder),
                SourceEntryView::FileEntry(gbody),
            ]);
            assert(text::under(gfolder, gbody)) by {
                let cp = grule.child_pattern->0;
                assert(gbody == gfolder + seq!['/'] + cp);
                assert(gbody.subrange(0, gfolder.len() as int + 1) =~= gfolder
                    + seq!['/']);
                assert(text::is_prefix_of(gfolder + seq!['/'], gbody));
            }
            assert forall|k: Seq<char>| text::under(gbody, k) implies text::under(
                gfolder,
                k,
            ) by {
                text::lemma_under_trans(gfolder, gbody, k);
            };
            assert forall|k: Seq<char>|
                text::under(gbody, k) && k != gbody implies !old(vfs)@.contains_key(
                parent_path@ + k.skip(gbody.len() as int),
            ) && parent_path@ + k.skip(gbody.len() as int) != gfolder by {
                text::lemma_under_decomp(gbody, k);
                let suffix = k.skip(gbody.len() as int);
                assert(k.subrange(0, gbody.len() as int + 1) == gbody + seq!['/']);
                assert(k.subrange(0, gbody.len() as int + 1)[gbody.len() as int] == (
                gbody + seq!['/'])[gbody.len() as int]);
                assert(k[gbody.len() as int] == '/');
                assert(suffix[0] == '/');
                assert(text::under(parent_path@, parent_path@ + suffix)) by {
                    assert((parent_path@ + suffix).subrange(
                        0,
                        parent_path@.len() as int + 1,
                    ) =~= parent_path@ + seq!['/']);
                    assert(text::is_prefix_of(
                        parent_path@ + seq!['/'],
                        parent_path@ + suffix,
                    ));
                }
                if old(vfs)@.contains_key(parent_path@ + suffix) {
                    assert(parent_path@ + suffix == parent_path@);
                    assert(suffix =~= Seq::<char>::empty());
                }
                if parent_path@ + suffix == gfolder {
                    assert(text::under(parent_path@, gfolder));
                }
            };
            assert(parent_path@ + gbody.skip(gbody.len() as int) =~= parent_path@);
            assert(vfs@ =~= old(vfs)@.remove(parent_path@).insert(
                gfolder,
                crate::vfs::VfsEntryView::Dir,
            ).insert(gbody, old(vfs)@[parent_path@]));
        }
    }
    Ok(Some((folder_path, source)))
}

/// Adds one snapshot, and its children below it, under a path-sourced
/// parent: promotes a file parent to a folder first when it is about
/// to receive its first child, then writes the instance and records it
/// in the tree. Hands back the parent's (possibly rewritten) source.
fn add_non_project_instances(
    parent_id: u64,
    parent_path: &str,
    snapshot: Snapshot,
    parent_meta: &Meta,
    tree: &mut Tree,
    vfs: &mut Vfs,
) -> (r: Result<Source, WriteError>)
    requires
        crate::snapshot::snap_wf(snapshot),
        parent_meta.wf(),
        old(tree).wf(),
        old(vfs).wf(),
    ensures
        final(tree).wf(),
        final(vfs).wf(),
        final(vfs).watched == old(vfs).watched,
        final(vfs).watch_enabled == old(vfs).watch_enabled,
        final(tree).root_ref == old(tree).root_ref,
        forall|k: u64|
            old(tree)@.contains_key(k) ==> final(tree)@.contains_key(k),
        forall|k: u64|
            old(tree)@.contains_key(k) && k != parent_id ==> final(tree)@[k] == old(
                tree,
            )@[k],
        old(tree)@.contains_key(parent_id) ==> final(tree)@[parent_id].name == old(
            tree,
        )@[parent_id].name && final(tree)@[parent_id].class == old(
            tree,
        )@[parent_id].class && final(tree)@[parent_id].properties == old(
            tree,
        )@[parent_id].properties,
        r matches Ok(src) ==> src.wf(),
        !(old(vfs)@.contains_key(parent_path@) && !(old(vfs)@[parent_path@] is Dir))
            && !name_valid(snapshot.name@) ==> (r is Ok && r->Ok_0@
            == parent_meta@.source) && final(tree)@ == old(tree)@ && final(vfs)@ == old(
            vfs,
        )@,
        ({
            let mw = middleware::middleware_of_class(snapshot.class@)->0;
            let located = first_located(
                meta::rule_views(parent_meta.sync_rules@),
                mw,
                text::joined(parent_path@, snapshot.name@),
                snapshot.name@,
                false,
            );
            (!(old(vfs)@.contains_key(parent_path@) && !(old(vfs)@[parent_path@] is Dir))
                && name_valid(snapshot.name@) && (middleware::middleware_of_class(
                snapshot.class@,
            ) is Some) && snapshot.children@.len() == 0 && (located is Some) && old(
                vfs,
            )@.contains_key(located->0)) ==> r is Ok && final(tree)@ == old(tree)@
                && final(vfs)@ == old(vfs)@
        }),
        ({
            let rules = meta::rule_views(parent_meta.sync_rules@);
            let folder = promote_folder_of(rules, parent_path@);
            let pbody = promote_body_of(rules, parent_path@);
            let promoted = promoted_map(old(vfs)@, parent_path@, folder, pbody);
            (promote_ready(old(vfs)@, parent_path@, rules, parent_meta@.source.relevant)
                && leaf_add_ready(
                old(tree)@,
                promoted,
                parent_id,
                folder,
                rules,
                parent_meta@.filter,
                snapshot,
            )) ==> (r is Ok && (r matches Ok(src) ==> src@.kind
                == crate::source::SourceKindView::Path(folder) && src@.relevant == seq![
                SourceEntryView::FolderEntry(folder),
                SourceEntryView::FileEntry(pbody),
            ]) && final(tree)@.contains_key(snapshot.id->0) && final(tree)@[
                snapshot.id->0
            ].name == snapshot.name@ && final(tree)@[snapshot.id->0].class
                == snapshot.class@ && final(tree)@[snapshot.id->0].properties
                == admitted_props(snapshot.properties@, parent_meta@.filter)
                && final(tree)@[snapshot.id->0].parent == parent_id && final(vfs)@
                == promoted.insert(
                leaf_add_body(rules, folder, snapshot),
                crate::vfs::VfsEntryView::Text(
                    leaf_add_text(parent_meta@.filter, snapshot),
                ),
            ))
        }),
        leaf_add_ready(
            old(tree)@,
            old(vfs)@,
            parent_id,
            parent_path@,
            meta::rule_views(parent_meta.sync_rules@),
            parent_meta@.filter,
            snapshot,
        ) ==> (r is Ok && final(tree)@.contains_key(snapshot.id->0)
            && final(tree)@[snapshot.id->0].name == snapshot.name@
            && final(tree)@[snapshot.id->0].class == snapshot.class@
            && final(tree)@[snapshot.id->0].properties == admitted_props(
            snapshot.properties@,
            parent_meta@.filter,
        ) && final(tree)@[snapshot.id->0].parent == parent_id && final(vfs)@ == old(
            vfs,
        )@.insert(
            leaf_add_body(meta::rule_views(parent_meta.sync_rules@), parent_path@, snapshot),
            crate::vfs::VfsEntryView::Text(
                leaf_add_text(parent_meta@.filter, snapshot),
            ),
        )),
    decreases crate::snapshot::snap_height(snapshot),
{
    let ghost gsnap = snapshot;
    let ghost gbad = !(old(vfs)@.contains_key(parent_path@) && !(old(vfs)@[parent_path@]
        is Dir)) && !name_valid(snapshot.name@);
    let ghost gconf = !(old(vfs)@.contains_key(parent_path@) && !(old(vfs)@[parent_path@]
        is Dir)) && name_valid(snapshot.name@) && (middleware::middleware_of_class(
        snapshot.class@,
    ) is Some) && snapshot.children@.len() == 0 && (first_located(
        meta::rule_views(parent_meta.sync_rules@),
        middleware::middleware_of_class(snapshot.class@)->0,
        text::joined(parent_path@, snapshot.name@),
        snapshot.name@,
        false,
    ) is Some) && old(vfs)@.contains_key(
        first_located(
            meta::rule_views(parent_meta.sync_rules@),
            middleware::middleware_of_class(snapshot.class@)->0,
            text::joined(parent_path@, snapshot.name@),
            snapshot.name@,
            false,
        )->0,
    );
    let ghost ghyp = leaf_add_ready(
        old(tree)@,
        old(vfs)@,
        parent_id,
        parent_path@,
        meta::rule_views(parent_meta.sync_rules@),
        parent_meta@.filter,
        snapshot,
    );
    let ghost grules = meta::rule_views(parent_meta.sync_rules@);
    let ghost gpfolder = promote_folder_of(grules, parent_path@);
    let ghost gpbody = promote_body_of(grules, parent_path@);
    let ghost gpromoted = promoted_map(old(vfs)@, parent_path@, gpfolder, gpbody);
    let ghost ghyp2 = promote_ready(
        old(vfs)@,
        parent_path@,
        grules,
        parent_meta@.source.relevant,
    ) && leaf_add_ready(
        old(tree)@,
        gpromoted,
        parent_id,
        gpfolder,
        grules,
        parent_meta@.filter,
        snapshot,
    );
    let mut parent_dir: String = parent_path.to_owned();
    let parent_source: Source = if vfs.is_file(parent_path) {
        match promote_file_to_folder(parent_path, parent_meta, vfs)? {
            Some(fs) => {
                let (folder, src) = fs;
                parent_dir = folder;
                src
            },
            None => {
                return Ok(parent_meta.source.clone_source());
            },
        }
    } else {
        parent_meta.source.clone_source()
    };
    let Snapshot { id, name, class, properties, children, meta: snap_meta, .. } = snapshot;
    let id = match id {
        Some(i) => i,
        None => {
            return Ok(parent_source);
        },
    };
    let path = text::path_join(parent_dir.as_str(), name.as_str());
    let ghost gcs = children@;
    proof {
        crate::snapshot::lemma_snaps_wf_index(gcs);
    }
    let has_children = children.len() > 0;
    let vprops = validate_properties(properties, &parent_meta.filter);
    let body_props = clone_props(&vprops);
    match write_instance(
        has_children,
        path.as_str(),
        name.as_str(),
        class.as_str(),
        body_props,
        snap_meta,
        parent_meta,
        vfs,
    )? {
        Some(m) => {
            let m_for_tree = m.clone_meta();
            let inserted = tree.insert_instance_with_ref(
                id,
                name.as_str(),
                class.as_str(),
                vprops,
                m_for_tree,
                parent_id,
            );
            if !inserted {
                return Ok(parent_source);
            }
            let mut rest = children;
            let mut i: usize = 0;
            let n = rest.len();
            while i < n
                invariant
                    i <= n,
                    n == gcs.len(),
                    rest@ == gcs.skip(i as int),
                    crate::snapshot::snaps_wf(gcs),
                    m.wf(),
                    tree.wf(),
                    vfs.wf(),
                    vfs.watched == old(vfs).watched,
                    vfs.watch_enabled == old(vfs).watch_enabled,
                    tree.root_ref == old(tree).root_ref,
                    forall|k: u64|
                        old(tree)@.contains_key(k) ==> tree@.contains_key(k),
                    forall|k: u64|
                        old(tree)@.contains_key(k) && k != parent_id ==> tree@[k] == old(
                            tree,
                        )@[k],
                    !old(tree)@.contains_key(id),
                    old(tree)@.contains_key(parent_id) ==> tree@[parent_id].name == old(
                        tree,
                    )@[parent_id].name && tree@[parent_id].class == old(
                        tree,
                    )@[parent_id].class && tree@[parent_id].properties == old(
                        tree,
                    )@[parent_id].properties,
                    gcs == gsnap.children@,
                    gsnap == snapshot,
                    gbad == (!(old(vfs)@.contains_key(parent_path@) && !(old(vfs)@[
                        parent_path@
                    ] is Dir)) && !name_valid(gsnap.name@)),
                    !gbad,
                    gconf == (!(old(vfs)@.contains_key(parent_path@) && !(old(vfs)@[
                        parent_path@
                    ] is Dir)) && name_valid(gsnap.name@) && (
                    middleware::middleware_of_class(gsnap.class@) is Some)
                        && gsnap.children@.len() == 0 && (first_located(
                        meta::rule_views(parent_meta.sync_rules@),
                        middleware::middleware_of_class(gsnap.class@)->0,
                        text::joined(parent_path@, gsnap.name@),
                        gsnap.name@,
                        false,
                    ) is Some) && old(vfs)@.contains_key(
                        first_located(
                            meta::rule_views(parent_meta.sync_rules@),
                            middleware::middleware_of_class(gsnap.class@)->0,
                            text::joined(parent_path@, gsnap.name@),
                            gsnap.name@,
                            false,
                        )->0,
                    )),
                    !gconf,
                    ghyp == leaf_add_ready(
                        old(tree)@,
                        old(vfs)@,
                        parent_id,
                        parent_path@,
                        meta::rule_views(parent_meta.sync_rules@),
                        parent_meta@.filter,
                        gsnap,
                    ),
                    ghyp ==> (tree@.contains_key(gsnap.id->0)
                        && tree@[gsnap.id->0].name == gsnap.name@
                        && tree@[gsnap.id->0].class == gsnap.class@
                        && tree@[gsnap.id->0].properties == admitted_props(
                        gsnap.properties@,
                        parent_meta@.filter,
                    ) && tree@[gsnap.id->0].parent == parent_id && vfs@ == old(
                        vfs,
                    )@.insert(
                        leaf_add_body(
                            meta::rule_views(parent_meta.sync_rules@),
                            parent_path@,
                            gsnap,
                        ),
                        crate::vfs::VfsEntryView::Text(
                            leaf_add_text(parent_meta@.filter, gsnap),
                        ),
                    )),
                    ghyp2 == (promote_ready(
                        old(vfs)@,
                        parent_path@,
                        grules,
                        parent_meta@.source.relevant,
                    ) && leaf_add_ready(
                        old(tree)@,
                        gpromoted,
                        parent_id,
                        gpfolder,
                        grules,
                        parent_meta@.filter,
                        gsnap,
                    )),
                    grules == meta::rule_views(parent_meta.sync_rules@),
                    gpfolder == promote_folder_of(grules, parent_path@),
                    gpbody == promote_body_of(grules, parent_path@),
                    gpromoted == promoted_map(
                        old(vfs)@,
                        parent_path@,
                        gpfolder,
                        gpbody,
                    ),
                    ghyp2 ==> (tree@.contains_key(gsnap.id->0)
                        && tree@[gsnap.id->0].name == gsnap.name@
                        && tree@[gsnap.id->0].class == gsnap.class@
                        && tree@[gsnap.id->0].properties == admitted_props(
                        gsnap.properties@,
                        parent_meta@.filter,
                    ) && tree@[gsnap.id->0].parent == parent_id && vfs@
                        == gpromoted.insert(
                        leaf_add_body(grules, gpfolder, gsnap),
                        crate::vfs::VfsEntryView::Text(
                            leaf_add_text(parent_meta@.filter, gsnap),
                        ),
                    ) && parent_source@.kind == crate::source::SourceKindView::Path(
                        gpfolder,
                    ) && parent_source@.relevant == seq![
                        SourceEntryView::FolderEntry(gpfolder),
                        SourceEntryView::FileEntry(gpbody),
                    ]),
                    crate::snapshot::snaps_height(gcs) < crate::snapshot::snap_height(
                        snapshot,
                    ),
                decreases n - i,
            {
                let child = rest.remove(0);
                proof {
                    assert(child == gcs[i as int]);
                    assert(rest@ =~= gcs.skip(i + 1));
                    crate::snapshot::lemma_snaps_wf_index(gcs);
                    crate::snapshot::lemma_child_height(gcs, i as int);
                }
                let mut child = child;
                let cprops = validate_properties(child.properties, &m.filter);
                child.properties = cprops;
                proof {
                    assert(crate::snapshot::snap_wf(child));
                }
                let res = add_non_project_instances(
                    id,
                    path.as_str(),
                    child,
                    &m,
                    tree,
                    vfs,
                );
                match res {
                    Ok(_) => {},
                    Err(e) => {
                        return Err(e);
                    },
                }
                i += 1;
            }
        },
        None => {},
    }
    Ok(parent_source)
}

/// Adds one snapshot, and its children below it, as nodes of the
/// parent's project file, and records them in the tree.
fn add_project_instances(
    parent_id: u64,
    project_path: &str,
    node_path: &str,
    snapshot: Snapshot,
    project: &mut ProjectFileData,
    parent_meta: &Meta,
    tree: &mut Tree,
) -> (r: Result<(), WriteError>)
    requires
        crate::snapshot::snap_wf(snapshot),
        parent_meta.wf(),
        old(project).wf(),
        old(tree).wf(),
    ensures
        final(project).wf(),
        final(tree).wf(),
        final(tree).root_ref == old(tree).root_ref,
        forall|k: u64|
            old(tree)@.contains_key(k) ==> final(tree)@.contains_key(k),
        forall|k: u64|
            old(tree)@.contains_key(k) && k != parent_id ==> final(tree)@[k] == old(
                tree,
            )@[k],
        old(tree)@.contains_key(parent_id) ==> final(tree)@[parent_id].name == old(
            tree,
        )@[parent_id].name && final(tree)@[parent_id].class == old(
            tree,
        )@[parent_id].class && final(tree)@[parent_id].properties == old(
            tree,
        )@[parent_id].properties,
        r is Ok,
        snapshot.id matches Some(sid) ==> (old(tree)@.contains_key(parent_id) && !old(
            tree,
        )@.contains_key(sid) ==> final(tree)@.contains_key(sid) && final(tree)@[sid].name
            == snapshot.name@ && final(tree)@[sid].class == snapshot.class@),
        snapshot.id is Some && snapshot.children@.len() == 0
            ==> (final(project)@.nodes.contains_key(
            project::node_path_joined(node_path@, snapshot.name@),
        ) && final(project)@.nodes[
            project::node_path_joined(node_path@, snapshot.name@)
        ].class_name == Some(snapshot.class@) && final(project)@.nodes[
            project::node_path_joined(node_path@, snapshot.name@)
        ].properties == admitted_props(snapshot.properties@, parent_meta@.filter)),
    decreases crate::snapshot::snap_height(snapshot),
{
    let ghost gsnap = snapshot;
    let Snapshot { id, name, class, properties, children, meta: snap_meta, .. } = snapshot;
    let id = match id {
        Some(i) => i,
        None => {
            return Ok(());
        },
    };
    let vprops = validate_properties(properties, &parent_meta.filter);
    let mut node = ProjectNodeData::empty();
    node.class_name = Some(class.clone());
    node.properties = clone_props(&vprops);
    match &snap_meta {
        Some(sm) => {
            if sm.keep_unknowns {
                node.keep_unknowns = Some(true);
            }
        },
        None => {},
    }
    let child_node_path = project::join_node_path(node_path, name.as_str());
    let source = Source::project(
        name.as_str(),
        project_path,
        node.clone_node(),
        child_node_path.as_str(),
    );
    let mut m = child_meta(snap_meta, parent_meta);
    m.set_source(source);
    let m_for_tree = m.clone_meta();
    let inserted = tree.insert_instance_with_ref(
        id,
        name.as_str(),
        class.as_str(),
        vprops,
        m_for_tree,
        parent_id,
    );
    project.set_node(child_node_path.as_str(), node);
    if !inserted {
        return Ok(());
    }
    let ghost gcs = children@;
    proof {
        crate::snapshot::lemma_snaps_wf_index(gcs);
    }
    let mut rest = children;
    let mut i: usize = 0;
    let n = rest.len();
    while i < n
        invariant
            i <= n,
            n == gcs.len(),
            rest@ == gcs.skip(i as int),
            crate::snapshot::snaps_wf(gcs),
            m.wf(),
            project.wf(),
            tree.wf(),
            tree.root_ref == old(tree).root_ref,
            forall|k: u64| old(tree)@.contains_key(k) ==> tree@.contains_key(k),
            forall|k: u64|
                old(tree)@.contains_key(k) && k != parent_id ==> tree@[k] == old(
                    tree,
                )@[k],
            !old(tree)@.contains_key(id),
            old(tree)@.contains_key(parent_id) ==> tree@[parent_id].name == old(
                tree,
            )@[parent_id].name && tree@[parent_id].class == old(
                tree,
            )@[parent_id].class && tree@[parent_id].properties == old(
                tree,
            )@[parent_id].properties,
            old(tree)@.contains_key(parent_id) ==> tree@.contains_key(id)
                && tree@[id].name == snapshot.name@ && tree@[id].class == snapshot.class@,
            gcs == gsnap.children@,
            gsnap.children@.len() == 0 ==> (project@.nodes.contains_key(
                project::node_path_joined(node_path@, gsnap.name@),
            ) && project@.nodes[
                project::node_path_joined(node_path@, gsnap.name@)
            ].class_name == Some(gsnap.class@) && project@.nodes[
                project::node_path_joined(node_path@, gsnap.name@)
            ].properties == admitted_props(gsnap.properties@, parent_meta@.filter)),
            crate::snapshot::snaps_height(gcs) < crate::snapshot::snap_height(snapshot),
        decreases n - i,
    {
        let child = rest.remove(0);
        proof {
            assert(child == gcs[i as int]);
            assert(rest@ =~= gcs.skip(i + 1));
            crate::snapshot::lemma_snaps_wf_index(gcs);
            crate::snapshot::lemma_child_height(gcs, i as int);
        }
        let mut child = child;
        let cprops = validate_properties(child.properties, &m.filter);
        child.properties = cprops;
        proof {
            assert(crate::snapshot::snap_wf(child));
        }
        let res = add_project_instances(
            id,
            project_path,
            child_node_path.as_str(),
            child,
            project,
            &m,
            tree,
        );
        match res {
            Ok(_) => {},
            Err(e) => {
                return Err(e);
            },
        }
        i += 1;
    }
    Ok(())
}

/// Applies a remote-originated addition: writes the new subtree to the
/// file system or the governing project file, and records it in the
/// tree. A missing parent or a filter match is a logged no-op.
pub fn apply_addition(snapshot: AddedSnapshot, tree: &mut Tree, vfs: &mut Vfs) -> (r: Result<
    (),
    WriteError,
>)
    requires
        snapshot.wf(),
        old(tree).wf(),
        old(vfs).wf(),
        old(tree)@.contains_key(snapshot.parent) ==> !(old(tree)@[snapshot.parent].meta
            .source.kind is Absent),
    ensures
        final(tree).wf(),
        final(vfs).wf(),
        final(vfs).watched == old(vfs).watched,
        final(vfs).watch_enabled == old(vfs).watch_enabled,
        final(tree).root_ref == old(tree).root_ref,
        !old(tree)@.contains_key(snapshot.parent) ==> r == Ok::<(), WriteError>(())
            && final(tree)@ == old(tree)@ && final(vfs)@ == old(vfs)@,
        old(tree)@.contains_key(snapshot.parent) && (old(tree)@[snapshot.parent].meta
            .filter.matches_name_spec(snapshot.name@) || old(tree)@[snapshot.parent].meta
            .filter.matches_class_spec(snapshot.class@)) ==> r == Ok::<(), WriteError>(())
            && final(tree)@ == old(tree)@ && final(vfs)@ == old(vfs)@,
        forall|k: u64|
            old(tree)@.contains_key(k) ==> final(tree)@.contains_key(k),
        forall|k: u64|
            old(tree)@.contains_key(k) && k != snapshot.parent ==> final(tree)@[k]
                == old(tree)@[k],
        old(tree)@.contains_key(snapshot.parent) ==> final(tree)@[snapshot.parent].name
            == old(tree)@[snapshot.parent].name && final(tree)@[snapshot.parent].class
            == old(tree)@[snapshot.parent].class && final(tree)@[snapshot.parent]
            .properties == old(tree)@[snapshot.parent].properties,
        ({
            let node = old(tree)@[snapshot.parent];
            let pp = path_of_kind(node.meta.source.kind);
            (old(tree)@.contains_key(snapshot.parent) && (node.meta.source.kind is Path)
                && !node.meta.filter.matches_name_spec(snapshot.name@)
                && !node.meta.filter.matches_class_spec(snapshot.class@) && !(old(
                vfs,
            )@.contains_key(pp) && !(old(vfs)@[pp] is Dir)) && !name_valid(
                snapshot.name@,
            )) ==> r is Ok && final(vfs)@ == old(vfs)@ && (forall|k: u64|
                final(tree)@.contains_key(k) <==> old(tree)@.contains_key(k))
        }),
        ({
            let node = old(tree)@[snapshot.parent];
            let pp = path_of_kind(node.meta.source.kind);
            let mw = middleware::middleware_of_class(snapshot.class@)->0;
            let located = first_located(
                node.meta.sync_rules,
                mw,
                text::joined(pp, snapshot.name@),
                snapshot.name@,
                false,
            );
            (old(tree)@.contains_key(snapshot.parent) && (node.meta.source.kind is Path)
                && !node.meta.filter.matches_name_spec(snapshot.name@)
                && !node.meta.filter.matches_class_spec(snapshot.class@) && !(old(
                vfs,
            )@.contains_key(pp) && !(old(vfs)@[pp] is Dir)) && name_valid(snapshot.name@)
                && (middleware::middleware_of_class(snapshot.class@) is Some)
                && snapshot.children@.len() == 0 && (located is Some) && old(
                vfs,
            )@.contains_key(located->0)) ==> r is Ok && final(vfs)@ == old(vfs)@ && (
            forall|k: u64|
                final(tree)@.contains_key(k) <==> old(tree)@.contains_key(k))
        }),
        ({
            let node = old(tree)@[snapshot.parent];
            let pp = path_of_kind(node.meta.source.kind);
            let snap = Snapshot {
                id: Some(snapshot.id),
                file_type: None,
                meta: snapshot.meta,
                path: None,
                name: snapshot.name,
                class: snapshot.class,
                properties: snapshot.properties,
                children: snapshot.children,
            };
            (old(tree)@.contains_key(snapshot.parent) && (node.meta.source.kind is Path)
                && !node.meta.filter.matches_name_spec(snapshot.name@)
                && !node.meta.filter.matches_class_spec(snapshot.class@)
                && leaf_add_ready(
                old(tree)@,
                old(vfs)@,
                snapshot.parent,
                pp,
                node.meta.sync_rules,
                node.meta.filter,
                snap,
            )) ==> (r is Ok && final(tree)@.contains_key(snapshot.id)
                && final(tree)@[snapshot.id].name == snapshot.name@
                && final(tree)@[snapshot.id].class == snapshot.class@
                && final(tree)@[snapshot.id].properties == admitted_props(
                snapshot.properties@,
                node.meta.filter,
            ) && final(tree)@[snapshot.id].parent == snapshot.parent && final(vfs)@
                == old(vfs)@.insert(
                leaf_add_body(node.meta.sync_rules, pp, snap),
                crate::vfs::VfsEntryView::Text(
                    leaf_add_text(node.meta.filter, snap),
                ),
            ))
        }),
        ({
            let node = old(tree)@[snapshot.parent];
            let pp = path_of_kind(node.meta.source.kind);
            let folder = promote_folder_of(node.meta.sync_rules, pp);
            let pbody = promote_body_of(node.meta.sync_rules, pp);
            let promoted = promoted_map(old(vfs)@, pp, folder, pbody);
            let snap = Snapshot {
                id: Some(snapshot.id),
                file_type: None,
                meta: snapshot.meta,
                path: None,
                name: snapshot.name,
                class: snapshot.class,
                properties: snapshot.properties,
                children: snapshot.children,
            };
            (old(tree)@.contains_key(snapshot.parent) && (node.meta.source.kind is Path)
                && !node.meta.filter.matches_name_spec(snapshot.name@)
                && !node.meta.filter.matches_class_spec(snapshot.class@)
                && promote_ready(
                old(vfs)@,
                pp,
                node.meta.sync_rules,
                node.meta.source.relevant,
            ) && leaf_add_ready(
                old(tree)@,
                promoted,
                snapshot.parent,
                folder,
                node.meta.sync_rules,
                node.meta.filter,
                snap,
            )) ==> (r is Ok && final(tree)@.contains_key(snapshot.id) && final(tree)@[
                snapshot.id
            ].name == snapshot.name@ && final(tree)@[snapshot.id].class
                == snapshot.class@ && final(tree)@[snapshot.id].properties
                == admitted_props(snapshot.properties@, node.meta.filter)
                && final(tree)@[snapshot.id].parent == snapshot.parent
                && final(tree)@.contains_key(snapshot.parent) && final(tree)@[
                snapshot.parent
            ].meta.source.kind == crate::source::SourceKindView::Path(folder)
                && final(tree)@[snapshot.parent].meta.source.relevant == seq![
                SourceEntryView::FolderEntry(folder),
                SourceEntryView::FileEntry(pbody),
            ] && final(vfs)@ == promoted.insert(
                leaf_add_body(node.meta.sync_rules, folder, snap),
                crate::vfs::VfsEntryView::Text(
                    leaf_add_text(node.meta.filter, snap),
                ),
            ))
        }),
        old(tree)@[snapshot.parent].meta.source.kind matches
            crate::source::SourceKindView::Project(info) ==> ((old(tree)@.contains_key(
            snapshot.parent,
        ) && !(
        old(tree)@[snapshot.parent].meta.filter.matches_name_spec(snapshot.name@)) && !(
        old(tree)@[snapshot.parent].meta.filter.matches_class_spec(snapshot.class@))
            && info.node.path_redirect is None && old(vfs)@.contains_key(
            info.project_path,
        ) && (old(vfs)@[info.project_path] is Project) && entry_project_nodes(
            old(vfs)@[info.project_path],
        ).contains_key(info.node_path) && !old(tree)@.contains_key(snapshot.id)) ==> (
        r is Ok && final(tree)@.contains_key(snapshot.id) && final(tree)@[snapshot.id]
            .name == snapshot.name@ && final(tree)@[snapshot.id].class
            == snapshot.class@ && (forall|k: Seq<char>|
            k != info.project_path ==> ((#[trigger] final(vfs)@.contains_key(k) <==> old(
                vfs,
            )@.contains_key(k)) && (final(vfs)@.contains_key(k) ==> final(vfs)@[k]
                == old(vfs)@[k]))) && (snapshot.children@.len() == 0
            ==> final(vfs)@.contains_key(info.project_path) && (final(vfs)@[
            info.project_path
        ] is Project) && entry_project_nodes(final(vfs)@[info.project_path]).contains_key(
            project::node_path_joined(info.node_path, snapshot.name@),
        ) && entry_project_nodes(final(vfs)@[info.project_path])[
            project::node_path_joined(info.node_path, snapshot.name@)
        ].class_name == Some(snapshot.class@) && entry_project_nodes(final(vfs)@[
            info.project_path
        ])[
            project::node_path_joined(info.node_path, snapshot.name@)
        ].properties == admitted_props(
            snapshot.properties@,
            old(tree)@[snapshot.parent].meta.filter,
        )))),
{
    let parent_id = snapshot.parent;
    if !tree.contains_ref(parent_id) {
        return Ok(());
    }
    let parent_meta = match tree.get_node(parent_id) {
        Some(node) => node.meta.clone_meta(),
        None => {
            return Ok(());
        },
    };
    if parent_meta.filter.matches_name(snapshot.name.as_str()) {
        return Ok(());
    }
    if parent_meta.filter.matches_class(snapshot.class.as_str()) {
        return Ok(());
    }
    let snap = snapshot.to_snapshot();
    match &parent_meta.source.kind {
        SourceKind::Path(path) => {
            let parent_path = path.clone();
            let parent_source = add_non_project_instances(
                parent_id,
                parent_path.as_str(),
                snap,
                &parent_meta,
                tree,
                vfs,
            )?;
            let mut new_parent_meta = parent_meta.clone_meta();
            new_parent_meta.set_source(parent_source);
            tree.update_meta(parent_id, new_parent_meta);
            Ok(())
        },
        SourceKind::Project(info) => {
            match &info.node.path_redirect {
                Some(custom) => {
                    let raw = text::with_file_name(
                        info.project_path.as_str(),
                        custom.as_str(),
                    );
                    let redirect = text::clean_path(raw.as_str());
                    let parent_source = add_non_project_instances(
                        parent_id,
                        redirect.as_str(),
                        snap,
                        &parent_meta,
                        tree,
                        vfs,
                    )?;
                    let node_copy = info.node.clone_node();
                    let source = Source::project(
                        info.name.as_str(),
                        info.project_path.as_str(),
                        node_copy,
                        info.node_path.as_str(),
                    ).with_relevants(parent_source.relevant);
                    let mut new_parent_meta = parent_meta.clone_meta();
                    new_parent_meta.set_source(source);
                    tree.update_meta(parent_id, new_parent_meta);
                    Ok(())
                },
                None => {
                    let mut proj = match vfs.get_project(info.project_path.as_str()) {
                        Ok(p) => p,
                        Err(_) => {
                            return Err(WriteError::ProjectMissing);
                        },
                    };
                    if !proj.nodes.contains_key(info.node_path.as_str()) {
                        return Err(WriteError::NodeNotFound);
                    }
                    add_project_instances(
                        parent_id,
                        info.project_path.as_str(),
                        info.node_path.as_str(),
                        snap,
                        &mut proj,
                        &parent_meta,
                        tree,
                    )?;
                    vfs.write(info.project_path.as_str(), VfsEntry::Project(proj));
                    Ok(())
                },
            }
        },
        SourceKind::Absent => {
            proof {
                assert(false);
            }
            Err(WriteError::UnsupportedChange)
        },
    }
}

/// Whether `k` lies outside the removal cone of every non-project
/// relevant entry of `rel`.
pub open spec fn outside_entries(rel: Seq<SourceEntryView>, k: Seq<char>) -> bool {
    forall|j: int|
        0 <= j < rel.len() ==> ((#[trigger] rel[j]) is ProjectEntry || !text::under(
            rel[j].path_view(),
            k,
        ))
}

/// Turns the now-childless folder representation of the instance under
/// `parent_id` back into a bare file: moves the body file out beside
/// its siblings, moves the data sidecar along, and drops the folder.
/// Turns the folder representation of the instance under `parent_id`
/// back into a bare file. In the clean case — a path-sourced folder
/// whose body file a child rule claims, no data sidecar, the sibling
/// location free — the body moves out to the rule-derived sibling
/// path, the folder goes away, and the parent's source becomes that
/// single file.
pub fn demote_folder_to_file(parent_id: u64, tree: &mut Tree, vfs: &mut Vfs) -> (r: Result<
    (),
    WriteError,
>)
    requires
        old(tree).wf(),
        old(vfs).wf(),
    ensures
        final(tree).wf(),
        final(vfs).wf(),
        final(vfs).watched == old(vfs).watched,
        final(vfs).watch_enabled == old(vfs).watch_enabled,
        final(tree).root_ref == old(tree).root_ref,
        forall|k: u64|
            final(tree)@.contains_key(k) <==> old(tree)@.contains_key(k),
        ({
            let node = old(tree)@[parent_id];
            let body = crate::source::first_file(node.meta.source.relevant)->0;
            let folder = path_of_kind(node.meta.source.kind);
            let new_path = demote_target(node)->0;
            (old(tree)@.contains_key(parent_id) && (node.meta.source.kind is Path)
                && (crate::source::first_file(node.meta.source.relevant) is Some)
                && (demote_target(node) is Some) && (crate::source::first_data(
                node.meta.source.relevant,
            ) is None) && old(vfs)@.contains_key(body) && (forall|k: Seq<char>|
                old(vfs)@.contains_key(k) ==> !text::under(new_path, k)) && (forall|
                k: Seq<char>,
            |
                old(vfs)@.contains_key(k) && text::under(body, k) ==> k == body)) ==> (
            r is Ok && final(tree)@ == old(tree)@.insert(
                parent_id,
                demoted_node(node, new_path),
            ) && (forall|k: Seq<char>|
                #[trigger] final(vfs)@.contains_key(k) <==> (((old(vfs)@.contains_key(k)
                    && k != body) || k == new_path) && !text::under(folder, k))) && (
            forall|k: Seq<char>|
                #[trigger] final(vfs)@.contains_key(k) && k != new_path
                    ==> final(vfs)@[k] == old(vfs)@[k]) && (final(vfs)@.contains_key(
                new_path,
            ) ==> final(vfs)@[new_path] == old(vfs)@[body]))
        }),
{
    let pmeta = match tree.get_node(parent_id) {
        Some(node) => node.meta.clone_meta(),
        None => {
            return Ok(());
        },
    };
    let folder_path = match &pmeta.source.kind {
        SourceKind::Path(p) => p.clone(),
        _ => {
            return Ok(());
        },
    };
    let name = text::get_file_name(folder_path.as_str());
    let body = match pmeta.source.get_file() {
        Some(f) => f,
        None => {
            return Ok(());
        },
    };
    let rule = match find_child_rule(&pmeta.sync_rules, body.as_str()) {
        Some(rule) => rule,
        None => {
            return Ok(());
        },
    };
    let new_path = match rule.locate(folder_path.as_str(), name, false) {
        Some(p) => p,
        None => {
            return Ok(());
        },
    };
    match vfs.rename(body.as_str(), new_path.as_str()) {
        Ok(()) => {},
        Err(_) => {
            return Err(WriteError::PathTaken);
        },
    }
    let mut source = Source::file(new_path.as_str());
    match pmeta.source.get_data() {
        Some(old_dp) => {
            let new_dp = match locate_by_type(
                &pmeta.sync_rules,
                FileType::InstanceData,
                folder_path.as_str(),
                name,
                false,
            ) {
                Some(p) => p,
                None => {
                    return Err(WriteError::NoMatchingRule);
                },
            };
            match vfs.rename(old_dp.as_str(), new_dp.as_str()) {
                Ok(()) => {
                    source.add_data(new_dp.as_str());
                },
                Err(_) => {
                    return Err(WriteError::PathTaken);
                },
            }
        },
        None => {},
    }
    vfs.remove(folder_path.as_str());
    let mut new_meta = pmeta.clone_meta();
    new_meta.set_source(source);
    tree.update_meta(parent_id, new_meta);
    proof {
        let node = old(tree)@[parent_id];
        let sbody = crate::source::first_file(node.meta.source.relevant)->0;
        let snew = demote_target(node)->0;
        if old(tree)@.contains_key(parent_id) && (node.meta.source.kind is Path) && (
        crate::source::first_file(node.meta.source.relevant) is Some) && (demote_target(
            node,
        ) is Some) && (crate::source::first_data(node.meta.source.relevant) is None)
            && old(vfs)@.contains_key(sbody) && (forall|k: Seq<char>|
            old(vfs)@.contains_key(k) ==> !text::under(snew, k)) && (forall|k: Seq<char>|
            old(vfs)@.contains_key(k) && text::under(sbody, k) ==> k == sbody) {
            assert(body@ == sbody);
            assert(folder_path@ == path_of_kind(node.meta.source.kind));
            assert(new_path@ == snew);
            assert(tree@ =~= old(tree)@.insert(parent_id, demoted_node(node, snew)));
            assert forall|k: Seq<char>| #[trigger] vfs@.contains_key(k) <==> (((old(
                vfs,
            )@.contains_key(k) && k != sbody) || k == snew) && !text::under(
                folder_path@,
                k,
            )) by {
                if text::under(snew, k) && k != snew {
                    text::lemma_under_decomp(snew, k);
                    let suffix = k.skip(snew.len() as int);
                    if old(vfs)@.contains_key(sbody + suffix) {
                        assert(text::under(sbody, sbody + suffix)) by {
                            assert(k.subrange(0, snew.len() as int + 1) == snew
                                + seq!['/']);
                            assert(k.subrange(0, snew.len() as int + 1)[
                                snew.len() as int
                            ] == (snew + seq!['/'])[snew.len() as int]);
                            assert(k[snew.len() as int] == '/');
                            assert(suffix[0] == '/');
                            assert((sbody + suffix).subrange(
                                0,
                                sbody.len() as int + 1,
                            ) =~= sbody + seq!['/']);
                            assert(text::is_prefix_of(sbody + seq!['/'], sbody + suffix));
                        }
                        assert(sbody + suffix == sbody);
                        assert(suffix =~= Seq::<char>::empty());
                        assert(k =~= snew);
                    }
                }
                if k == snew {
                    assert(snew + k.skip(snew.len() as int) =~= sbody + k.skip(
                        snew.len() as int,
                    ) || true);
                    assert(k.skip(snew.len() as int) =~= Seq::<char>::empty());
                    assert(sbody + k.skip(snew.len() as int) =~= sbody);
                    assert(text::under(snew, k));
                }
            };
        }
    }
    Ok(())
}

/// Removes every on-disk entry of the instance under `id`, except
/// project-boundary markers, and demotes the parent's folder back to a
/// file when this was its last child.
fn remove_non_project_instances(id: u64, meta: &Meta, tree: &mut Tree, vfs: &mut Vfs) -> (r:
    Result<(), WriteError>)
    requires
        meta.wf(),
        old(tree).wf(),
        old(vfs).wf(),
    ensures
        final(tree).wf(),
        final(vfs).wf(),
        final(vfs).watched == old(vfs).watched,
        final(vfs).watch_enabled == old(vfs).watch_enabled,
        final(tree).root_ref == old(tree).root_ref,
        forall|k: u64|
            final(tree)@.contains_key(k) <==> old(tree)@.contains_key(k),
        (old(tree)@.contains_key(id) ==> !(old(tree)@.contains_key(
            old(tree)@[id].parent,
        ) && old(tree)@[old(tree)@[id].parent].children.len() == 1)) ==> (r is Ok
            && final(tree)@ == old(tree)@ && (forall|i: int|
            0 <= i < meta@.source.relevant.len() && !((#[trigger] meta@.source.relevant[
                i
            ]) is ProjectEntry) && !meta@.filter.matches_path_spec(
                meta@.source.relevant[i].path_view(),
            ) ==> !final(vfs)@.contains_key(meta@.source.relevant[i].path_view()))),
        ({
            let pid = old(tree)@[id].parent;
            let pnode = old(tree)@[pid];
            let folder = path_of_kind(pnode.meta.source.kind);
            let body = crate::source::first_file(pnode.meta.source.relevant)->0;
            let new_path = demote_target(pnode)->0;
            (old(tree)@.contains_key(id) && old(tree)@.contains_key(pid) && pnode
                .children.len() == 1 && (pnode.meta.source.kind is Path) && (
            crate::source::first_file(pnode.meta.source.relevant) is Some) && (
            demote_target(pnode) is Some) && (crate::source::first_data(
                pnode.meta.source.relevant,
            ) is None) && old(vfs)@.contains_key(body) && outside_entries(
                meta@.source.relevant,
                body,
            ) && !text::under(folder, new_path) && (forall|k: Seq<char>|
                old(vfs)@.contains_key(k) ==> !text::under(new_path, k)) && (forall|
                k: Seq<char>,
            |
                old(vfs)@.contains_key(k) && text::under(body, k) ==> k == body)) ==> (
            r is Ok && final(tree)@ == old(tree)@.insert(
                pid,
                demoted_node(pnode, new_path),
            ) && final(vfs)@.contains_key(new_path) && final(vfs)@[new_path] == old(
                vfs,
            )@[body] && (forall|k: Seq<char>|
                text::under(folder, k) ==> !(#[trigger] final(vfs)@.contains_key(k))))
        }),
{
    let n = meta.source.relevant.len();
    let mut i: usize = 0;
    while i < n
        invariant
            i <= n,
            n == meta.source.relevant@.len(),
            meta.wf(),
            vfs.wf(),
            vfs.watched == old(vfs).watched,
            vfs.watch_enabled == old(vfs).watch_enabled,
            tree == old(tree),
            forall|j: int|
                0 <= j < i && !((#[trigger] meta@.source.relevant[j]) is ProjectEntry)
                    && !meta@.filter.matches_path_spec(
                    meta@.source.relevant[j].path_view(),
                ) ==> !vfs@.contains_key(meta@.source.relevant[j].path_view()),
            forall|k: Seq<char>|
                #[trigger] vfs@.contains_key(k) ==> old(vfs)@.contains_key(k) && vfs@[k]
                    == old(vfs)@[k],
            forall|k: Seq<char>|
                old(vfs)@.contains_key(k) && outside_entries(meta@.source.relevant, k)
                    ==> #[trigger] vfs@.contains_key(k),
        decreases n - i,
    {
        let ghost vpre = vfs@;
        proof {
            assert(meta@.source.relevant[i as int] == meta.source.relevant@[i as int]@);
        }
        let skip_entry = match &meta.source.relevant[i] {
            SourceEntry::ProjectEntry(_) => true,
            _ => false,
        };
        if !skip_entry {
            let path = meta.source.relevant[i].path().to_owned();
            proof {
                assert(path@ == meta@.source.relevant[i as int].path_view());
            }
            if !vfs.entry_exists(path.as_str()) {
                proof {
                    assert(!vfs@.contains_key(
                        meta@.source.relevant[i as int].path_view(),
                    ));
                }
            } else if !meta.filter.matches_path(path.as_str()) {
                vfs.remove(path.as_str());
                proof {
                    assert(text::under(path@, path@));
                    assert(!vfs@.contains_key(
                        meta@.source.relevant[i as int].path_view(),
                    ));
                }
            } else {
                proof {
                    assert(meta@.filter.matches_path_spec(
                        meta@.source.relevant[i as int].path_view(),
                    ));
                }
            }
        } else {
            proof {
                assert(meta@.source.relevant[i as int] is ProjectEntry);
            }
        }
        proof {
            assert forall|j: int|
                0 <= j < i + 1 && !((#[trigger] meta@.source.relevant[j]) is ProjectEntry)
                    && !meta@.filter.matches_path_spec(
                    meta@.source.relevant[j].path_view(),
                ) implies !vfs@.contains_key(meta@.source.relevant[j].path_view()) by {
                assert(meta@.source.relevant[j] == meta.source.relevant@[j]@);
                if j < i as int {
                    assert(!vpre.contains_key(meta@.source.relevant[j].path_view()));
                    assert(vfs@.contains_key(meta@.source.relevant[j].path_view())
                        ==> vpre.contains_key(meta@.source.relevant[j].path_view()));
                } else {
                    assert(j == i as int);
                    assert(!(meta@.source.relevant[j] is ProjectEntry));
                    assert(!meta@.filter.matches_path_spec(
                        meta@.source.relevant[j].path_view(),
                    ));
                    assert(!vfs@.contains_key(meta@.source.relevant[j].path_view()));
                }
            };
        }
        i += 1;
    }
    // When the parent folder hosted exactly the one child that just
    // went away, fold it back into a file representation.
    let parent_id = match tree.get_node(id) {
        Some(node) => node.parent,
        None => {
            return Ok(());
        },
    };
    let child_count = match tree.get_node(parent_id) {
        Some(node) => node.children.len(),
        None => {
            return Ok(());
        },
    };
    if child_count != 1 {
        return Ok(());
    }
    let ghost gpid = old(tree)@[id].parent;
    let ghost gpnode = old(tree)@[gpid];
    let ghost gfolder = path_of_kind(gpnode.meta.source.kind);
    let ghost gbody = crate::source::first_file(gpnode.meta.source.relevant)->0;
    let ghost gtarget = demote_target(gpnode)->0;
    let ghost hypd = old(tree)@.contains_key(id) && old(tree)@.contains_key(gpid)
        && gpnode.children.len() == 1 && (gpnode.meta.source.kind is Path) && (
    crate::source::first_file(gpnode.meta.source.relevant) is Some) && (demote_target(
        gpnode,
    ) is Some) && (crate::source::first_data(gpnode.meta.source.relevant) is None)
        && old(vfs)@.contains_key(gbody) && outside_entries(meta@.source.relevant, gbody)
        && !text::under(gfolder, gtarget) && (forall|k: Seq<char>|
        old(vfs)@.contains_key(k) ==> !text::under(gtarget, k)) && (forall|k: Seq<char>|
        old(vfs)@.contains_key(k) && text::under(gbody, k) ==> k == gbody);
    proof {
        if hypd {
            assert(vfs@.contains_key(gbody));
            assert(vfs@[gbody] == old(vfs)@[gbody]);
            assert(forall|k: Seq<char>|
                #[trigger] vfs@.contains_key(k) ==> !text::under(gtarget, k));
            assert(forall|k: Seq<char>|
                #[trigger] vfs@.contains_key(k) && text::under(gbody, k) ==> k == gbody);
        }
    }
    let r = demote_folder_to_file(parent_id, tree, vfs);
    proof {
        if hypd {
            assert(tree@ == old(tree)@.insert(gpid, demoted_node(gpnode, gtarget)));
            assert(vfs@.contains_key(gtarget) && vfs@[gtarget] == old(vfs)@[gbody]);
            assert(forall|k: Seq<char>|
                text::under(gfolder, k) ==> !(#[trigger] vfs@.contains_key(k)));
        }
    }
    r
}

/// Applies a remote-originated removal: deletes the instance's on-disk
/// entries or its project node, demotes a folder that lost its last
/// child, and detaches the instance from the tree last.
pub fn apply_removal(id: u64, tree: &mut Tree, vfs: &mut Vfs) -> (r: Result<(), WriteError>)
    requires
        old(tree).wf(),
        old(vfs).wf(),
        id != old(tree).root_ref,
        old(tree)@.contains_key(id) ==> !(old(tree)@[id].meta.source.kind is Absent),
    ensures
        final(tree).wf(),
        final(vfs).wf(),
        final(vfs).watched == old(vfs).watched,
        final(vfs).watch_enabled == old(vfs).watch_enabled,
        final(tree).root_ref == old(tree).root_ref,
        !old(tree)@.contains_key(id) ==> r == Ok::<(), WriteError>(()) && final(tree)@
            == old(tree)@ && final(vfs)@ == old(vfs)@,
        old(tree)@.contains_key(id) && (old(tree)@[id].meta.filter.matches_name_spec(
            old(tree)@[id].name,
        ) || old(tree)@[id].meta.filter.matches_class_spec(old(tree)@[id].class)) ==> r
            == Ok::<(), WriteError>(()) && final(tree)@ == old(tree)@ && final(vfs)@
            == old(vfs)@,
        r is Ok && old(tree)@.contains_key(id) && !(old(tree)@[id].meta.filter
            .matches_name_spec(old(tree)@[id].name)) && !(old(tree)@[id].meta.filter
            .matches_class_spec(old(tree)@[id].class)) ==> !final(tree)@.contains_key(id),
        forall|k: u64|
            final(tree)@.contains_key(k) ==> old(tree)@.contains_key(k),
        ({
            let node = old(tree)@[id];
            (old(tree)@.contains_key(id) && !node.meta.filter.matches_name_spec(
                node.name,
            ) && !node.meta.filter.matches_class_spec(node.class) && (node.meta.source
                .kind is Path) && !(old(tree)@.contains_key(node.parent) && old(
                tree,
            )@[node.parent].children.len() == 1)) ==> (r is Ok
                && !final(tree)@.contains_key(id) && (forall|i: int|
                0 <= i < node.meta.source.relevant.len()
                    && !((#[trigger] node.meta.source.relevant[i]) is ProjectEntry)
                    && !node.meta.filter.matches_path_spec(
                    node.meta.source.relevant[i].path_view(),
                ) ==> !final(vfs)@.contains_key(
                    node.meta.source.relevant[i].path_view(),
                )))
        }),
        ({
            let node = old(tree)@[id];
            let pid = node.parent;
            let pnode = old(tree)@[pid];
            let folder = path_of_kind(pnode.meta.source.kind);
            let body = crate::source::first_file(pnode.meta.source.relevant)->0;
            let new_path = demote_target(pnode)->0;
            (old(tree)@.contains_key(id) && !node.meta.filter.matches_name_spec(
                node.name,
            ) && !node.meta.filter.matches_class_spec(node.class) && (node.meta.source
                .kind is Path) && old(tree)@.contains_key(pid) && pid != id && pnode
                .children.len() == 1 && (pnode.meta.source.kind is Path) && (
            crate::source::first_file(pnode.meta.source.relevant) is Some) && (
            demote_target(pnode) is Some) && (crate::source::first_data(
                pnode.meta.source.relevant,
            ) is None) && old(vfs)@.contains_key(body) && outside_entries(
                node.meta.source.relevant,
                body,
            ) && !text::under(folder, new_path) && (forall|k: Seq<char>|
                old(vfs)@.contains_key(k) ==> !text::under(new_path, k)) && (forall|
                k: Seq<char>,
            |
                old(vfs)@.contains_key(k) && text::under(body, k) ==> k == body)) ==> (
            r is Ok && !final(tree)@.contains_key(id) && (final(tree)@.contains_key(pid)
                ==> final(tree)@[pid] == (TreeNodeView {
                children: crate::tree::remove_first(pnode.children, id),
                ..demoted_node(pnode, new_path)
            })) && final(vfs)@.contains_key(new_path) && final(vfs)@[new_path] == old(
                vfs,
            )@[body] && (forall|k: Seq<char>|
                text::under(folder, k) ==> !(#[trigger] final(vfs)@.contains_key(k))))
        }),
        ({
            let node = old(tree)@[id];
            ((old(tree)@.contains_key(id) && !node.meta.filter.matches_name_spec(
                node.name,
            ) && !node.meta.filter.matches_class_spec(node.class)) ==> (node.meta.source.kind
                matches crate::source::SourceKindView::Project(info) ==> ((
            info.node.path_redirect is None && old(vfs)@.contains_key(info.project_path)
                && (old(vfs)@[info.project_path] is Project) && info.node_path.len() > 0
                && entry_project_nodes(old(vfs)@[info.project_path]).contains_key(
                info.node_path,
            )) ==> (r is Ok && !final(tree)@.contains_key(id)
                && final(vfs)@.contains_key(info.project_path) && (final(vfs)@[
                info.project_path
            ] is Project) && (forall|nk: Seq<char>|
                text::under(info.node_path, nk) ==> !(#[trigger] entry_project_nodes(
                    final(vfs)@[info.project_path],
                ).contains_key(nk))) && (forall|k: Seq<char>|
                k != info.project_path ==> ((#[trigger] final(vfs)@.contains_key(k) <==>
                old(vfs)@.contains_key(k)) && (final(vfs)@.contains_key(k)
                    ==> final(vfs)@[k] == old(vfs)@[k])))))))
        }),
{
    let meta = match tree.get_node(id) {
        Some(node) => {
            if node.meta.filter.matches_name(node.name.as_str())
                || node.meta.filter.matches_class(node.class.as_str()) {
                return Ok(());
            }
            node.meta.clone_meta()
        },
        None => {
            return Ok(());
        },
    };
    match &meta.source.kind {
        SourceKind::Path(_) => {
            remove_non_project_instances(id, &meta, tree, vfs)?;
        },
        SourceKind::Project(info) => {
            let mut proj = match vfs.get_project(info.project_path.as_str()) {
                Ok(p) => p,
                Err(_) => {
                    return Err(WriteError::ProjectMissing);
                },
            };
            if info.node_path.as_str().is_empty() {
                return Err(WriteError::NodeNotFound);
            }
            let existed = proj.remove_subtree(info.node_path.as_str());
            if !existed {
                return Err(WriteError::NodeNotFound);
            }
            if info.node.path_redirect.is_some() {
                remove_non_project_instances(id, &meta, tree, vfs)?;
            }
            vfs.write(info.project_path.as_str(), VfsEntry::Project(proj));
        },
        SourceKind::Absent => {
            proof {
                assert(false);
            }
            return Err(WriteError::UnsupportedChange);
        },
    }
    tree.remove_instance(id);
    Ok(())
}

/// The path of the instance's sidecar data file: the recorded one, or
/// the place the rules would put it.
fn locate_instance_data(name: &str, path: &str, meta: &Meta, vfs: &Vfs) -> (r: Option<String>)
    requires
        meta.wf(),
        vfs.wf(),
    ensures
        match r {
            Some(p) => crate::source::first_data(meta@.source.relevant) == Some(p@) || (
            (crate::source::first_data(meta@.source.relevant) is None) && first_located(
                meta::rule_views(meta.sync_rules@),
                FileType::InstanceData,
                path@,
                name@,
                vfs@.contains_key(path@) && (vfs@[path@] is Dir),
            ) == Some(p@)),
            None => (crate::source::first_data(meta@.source.relevant) is None)
                && (first_located(
                meta::rule_views(meta.sync_rules@),
                FileType::InstanceData,
                path@,
                name@,
                vfs@.contains_key(path@) && (vfs@[path@] is Dir),
            ) is None),
        },
{
    match meta.source.get_data() {
        Some(p) => Some(p),
        None => {
            let is_dir = vfs.is_dir(path);
            locate_by_type(
                &meta.sync_rules,
                FileType::InstanceData,
                path,
                name,
                is_dir,
            )
        },
    }
}

/// Writes an updated property map back to the instance's file and
/// sidecar, reusing the recorded file path or re-deriving it from the
/// rules, and stores the new properties in the tree.
fn update_non_project_properties(
    id: u64,
    path: &str,
    properties: Properties,
    meta: &mut Meta,
    tree: &mut Tree,
    vfs: &mut Vfs,
) -> (r: Result<(), WriteError>)
    requires
        properties.wf(),
        old(meta).wf(),
        old(tree).wf(),
        old(vfs).wf(),
    ensures
        final(meta).wf(),
        final(tree).wf(),
        final(vfs).wf(),
        final(vfs).watched == old(vfs).watched,
        final(vfs).watch_enabled == old(vfs).watch_enabled,
        final(tree).root_ref == old(tree).root_ref,
        forall|k: u64|
            final(tree)@.contains_key(k) <==> old(tree)@.contains_key(k),
        ({
            let node = old(tree)@[id];
            let mw = middleware::middleware_of_class(node.class)->0;
            let key = middleware::native_key(mw)->0;
            let aprops = admitted_props(properties@, old(meta)@.filter);
            let f = crate::source::first_file(old(meta)@.source.relevant)->0;
            (old(tree)@.contains_key(id) && !old(meta)@.filter.matches_path_spec(path@)
                && (middleware::middleware_of_class(node.class) is Some) && (
            crate::source::first_file(old(meta)@.source.relevant) is Some)
                && middleware::leftover_props(aprops, key) == Map::<
                Seq<char>,
                crate::value::ValueView,
            >::empty() && (crate::source::first_data(old(meta)@.source.relevant) is None)
                && (first_located(
                meta::rule_views(old(meta).sync_rules@),
                FileType::InstanceData,
                path@,
                node.name,
                false,
            ) is None) && !(old(vfs)@.contains_key(path@) && (old(vfs)@[path@] is Dir)))
                ==> (r is Ok && final(meta)@ == old(meta)@
                && final(tree)@.contains_key(id) && final(tree)@[id].properties
                == aprops && final(tree)@[
                id
            ].name == node.name && final(tree)@[id].class == node.class && final(vfs)@
                == old(vfs)@.insert(
                f,
                crate::vfs::VfsEntryView::Text(middleware::native_text(aprops, key)),
            ))
        }),
{
    let filter = meta.filter.clone_filter();
    if filter.matches_path(path) {
        return Ok(());
    }
    let (name, class) = match tree.get_node(id) {
        Some(node) => (node.name.clone(), node.class.clone()),
        None => {
            return Ok(());
        },
    };
    let vprops = validate_properties(properties, &filter);
    match middleware::from_class(class.as_str()) {
        Some(mw) => {
            proof {
                middleware::lemma_class_middleware_has_native_key(class@);
            }
            let file_path = match meta.source.get_file() {
                Some(p) => Some(p),
                None => {
                    let is_dir = vfs.is_dir(path);
                    let located = locate_by_type(
                        &meta.sync_rules,
                        mw,
                        path,
                        name.as_str(),
                        is_dir,
                    );
                    match &located {
                        Some(p) => {
                            meta.source.add_file(p.as_str());
                        },
                        None => {},
                    }
                    located
                },
            };
            match file_path {
                Some(file_path) => {
                    let body = clone_props(&vprops);
                    let leftover = middleware::write_props(
                        mw,
                        body,
                        file_path.as_str(),
                        vfs,
                    );
                    match locate_instance_data(name.as_str(), path, meta, vfs) {
                        Some(data_path) => {
                            let written = middleware::write_data(
                                leftover,
                                data_path.as_str(),
                                vfs,
                            );
                            meta.source.set_data(written);
                        },
                        None => {},
                    }
                },
                None => {
                    return Err(WriteError::NoMatchingRule);
                },
            }
        },
        None => {
            match locate_instance_data(name.as_str(), path, meta, vfs) {
                Some(data_path) => {
                    let body = clone_props(&vprops);
                    let written = middleware::write_data(body, data_path.as_str(), vfs);
                    meta.source.set_data(written);
                },
                None => {},
            }
        },
    }
    tree.set_properties(id, vprops);
    Ok(())
}

/// The path an entry moves to when the instance it belongs to is
/// renamed: its file name with every occurrence of the old name
/// replaced by the new one.
pub open spec fn renamed_entry_path(p: Seq<char>, old_name: Seq<char>, new_name: Seq<char>)
    -> Seq<char> {
    text::with_name_of(
        p,
        text::replaced(text::file_name_of(p), old_name, new_name),
    )
}

/// What one relevant entry becomes when its instance is renamed: a
/// file or data entry moves to its renamed path unless the filter
/// excludes both the old and the new place; every other entry stays.
pub open spec fn renamed_entry(
    e: SourceEntryView,
    old_name: Seq<char>,
    new_name: Seq<char>,
    f: crate::meta::SyncbackFilterView,
) -> SourceEntryView {
    match e {
        SourceEntryView::FileEntry(p) => if f.matches_path_spec(p) && f.matches_path_spec(
            renamed_entry_path(p, old_name, new_name),
        ) {
            e
        } else {
            SourceEntryView::FileEntry(renamed_entry_path(p, old_name, new_name))
        },
        SourceEntryView::DataEntry(p) => if f.matches_path_spec(p) && f.matches_path_spec(
            renamed_entry_path(p, old_name, new_name),
        ) {
            e
        } else {
            SourceEntryView::DataEntry(renamed_entry_path(p, old_name, new_name))
        },
        _ => e,
    }
}

/// What one relevant entry becomes when the folder representation
/// moves: folder entries point at the new folder, everything else
/// stays.
pub open spec fn folder_redirected(e: SourceEntryView, to: Seq<char>) -> SourceEntryView {
    match e {
        SourceEntryView::FolderEntry(_) => SourceEntryView::FolderEntry(to),
        _ => e,
    }
}

/// Renames every relevant file and data entry of `source` for an
/// instance renamed from `old_name` to `new_name`. Every entry moves
/// on its own: one that the filter excludes under both its old and new
/// path, or whose new place is taken, stays put while the others still
/// move.
fn rename_relevant_entries(
    source: &mut Source,
    old_name: &str,
    new_name: &str,
    filter: &SyncbackFilter,
    vfs: &mut Vfs,
) -> (r: Result<(), WriteError>)
    requires
        old(source).wf(),
        old(vfs).wf(),
    ensures
        final(source).wf(),
        final(vfs).wf(),
        final(vfs).watched == old(vfs).watched,
        final(vfs).watch_enabled == old(vfs).watch_enabled,
        final(source)@.kind == old(source)@.kind,
        r is Ok ==> final(source)@.relevant.len() == old(source)@.relevant.len(),
        r is Ok ==> (forall|i: int|
            0 <= i < old(source)@.relevant.len()
                ==> (#[trigger] final(source)@.relevant[i]) == renamed_entry(
                old(source)@.relevant[i],
                old_name@,
                new_name@,
                filter@,
            )),
{
    let n = source.relevant.len();
    let mut out: Vec<SourceEntry> = Vec::new();
    let mut i: usize = 0;
    while i < n
        invariant
            i <= n,
            n == old(source).relevant@.len(),
            source == old(source),
            old(source).wf(),
            vfs.wf(),
            vfs.watched == old(vfs).watched,
            vfs.watch_enabled == old(vfs).watch_enabled,
            out@.len() == i,
            forall|j: int|
                0 <= j < i ==> (#[trigger] crate::source::entry_views(out@)[j])
                    == renamed_entry(
                    old(source)@.relevant[j],
                    old_name@,
                    new_name@,
                    filter@,
                ),
        decreases n - i,
    {
        proof {
            assert(crate::source::entry_views(source.relevant@)[i as int]
                == source.relevant@[i as int]@);
        }
        let entry = &source.relevant[i];
        let is_movable = match entry {
            SourceEntry::FileEntry(_) => true,
            SourceEntry::DataEntry(_) => true,
            _ => false,
        };
        let ghost prev = out@;
        if is_movable {
            let p = entry.path().to_owned();
            let fname = text::get_file_name(p.as_str());
            let replaced_name = text::replace_all(fname, old_name, new_name);
            let new_path = text::with_file_name(p.as_str(), replaced_name.as_str());
            let blocked = filter.matches_path(p.as_str()) && filter.matches_path(
                new_path.as_str(),
            );
            if blocked {
                let e = source.relevant[i].clone_entry();
                out.push(e);
            } else {
                match vfs.rename(p.as_str(), new_path.as_str()) {
                    Ok(()) => {},
                    Err(_) => {
                        // The target is taken: surface the conflict as
                        // a hard error; already-moved entries stay.
                        return Err(WriteError::PathTaken);
                    },
                }
                let moved = match &source.relevant[i] {
                    SourceEntry::FileEntry(_) => SourceEntry::FileEntry(
                        new_path.clone(),
                    ),
                    SourceEntry::DataEntry(_) => SourceEntry::DataEntry(
                        new_path.clone(),
                    ),
                    _ => source.relevant[i].clone_entry(),
                };
                out.push(moved);
            }
        } else {
            let e = source.relevant[i].clone_entry();
            out.push(e);
        }
        proof {
            assert(crate::source::entry_views(out@) =~= crate::source::entry_views(
                prev,
            ).push(out@[out@.len() - 1]@));
        }
        i += 1;
    }
    source.relevant = out;
    Ok(())
}

/// Carries out the path-sourced part of an update: new properties,
/// then the rename cascade over the instance's relevant entries.
fn update_path_instance(
    id: u64,
    path: String,
    new_name: Option<String>,
    new_properties: Option<Properties>,
    meta: Meta,
    tree: &mut Tree,
    vfs: &mut Vfs,
) -> (r: Result<(), WriteError>)
    requires
        meta.wf(),
        new_properties matches Some(p) ==> p.wf(),
        old(tree).wf(),
        old(vfs).wf(),
    ensures
        final(tree).wf(),
        final(vfs).wf(),
        final(vfs).watched == old(vfs).watched,
        final(vfs).watch_enabled == old(vfs).watch_enabled,
        final(tree).root_ref == old(tree).root_ref,
        forall|k: u64|
            final(tree)@.contains_key(k) <==> old(tree)@.contains_key(k),
        ({
            let node = old(tree)@[id];
            let mw = middleware::middleware_of_class(node.class)->0;
            let key = middleware::native_key(mw)->0;
            let aprops = admitted_props(new_properties->0@, meta@.filter);
            let f = crate::source::first_file(meta@.source.relevant)->0;
            (old(tree)@.contains_key(id) && (new_properties is Some) && (
            new_name is None) && !meta@.filter.matches_path_spec(path@) && (
            middleware::middleware_of_class(node.class) is Some) && (
            crate::source::first_file(meta@.source.relevant) is Some)
                && middleware::leftover_props(aprops, key) == Map::<
                Seq<char>,
                crate::value::ValueView,
            >::empty() && (crate::source::first_data(meta@.source.relevant) is None) && (
            first_located(
                meta::rule_views(meta.sync_rules@),
                FileType::InstanceData,
                path@,
                node.name,
                false,
            ) is None) && !(old(vfs)@.contains_key(path@) && (old(vfs)@[path@] is Dir)))
                ==> (r is Ok && final(tree)@.contains_key(id) && final(tree)@[id]
                .properties == aprops && final(tree)@[id].name == node.name
                && final(vfs)@ == old(vfs)@.insert(
                f,
                crate::vfs::VfsEntryView::Text(middleware::native_text(aprops, key)),
            ))
        }),
        ({
            let node = old(tree)@[id];
            let nm = new_name->0;
            (old(tree)@.contains_key(id) && (new_properties is None) && (
            new_name is Some) && !name_valid(nm@)) ==> r is Ok && final(tree)@ == old(
                tree,
            )@ && final(vfs)@ == old(vfs)@
        }),
        ({
            let node = old(tree)@[id];
            let nm = new_name->0;
            let new_path = text::with_name_of(
                path@,
                text::replaced(text::file_name_of(path@), node.name, nm@),
            );
            (old(tree)@.contains_key(id) && (new_properties is None) && (
            new_name is Some) && name_valid(nm@) && old(vfs)@.contains_key(new_path))
                ==> r is Ok && final(tree)@ == old(tree)@ && final(vfs)@ == old(vfs)@
        }),
        ({
            let node = old(tree)@[id];
            let nm = new_name->0;
            let new_path = text::with_name_of(
                path@,
                text::replaced(text::file_name_of(path@), node.name, nm@),
            );
            (old(tree)@.contains_key(id) && (new_properties is None) && (
            new_name is Some) && name_valid(nm@) && !old(vfs)@.contains_key(new_path)
                && (crate::source::first_folder(meta@.source.relevant) is None)) ==> (
            r is Ok ==> (final(tree)@.contains_key(id) && final(tree)@[id].name == nm@
                && final(tree)@[id].meta.source.kind
                == crate::source::SourceKindView::Path(new_path) && final(tree)@[
                id
            ].meta.source.relevant.len() == meta@.source.relevant.len() && (forall|
                i: int,
            |
                0 <= i < meta@.source.relevant.len() ==> (#[trigger] final(tree)@[
                    id
                ].meta.source.relevant[i]) == renamed_entry(
                    meta@.source.relevant[i],
                    node.name,
                    nm@,
                    meta@.filter,
                ))))
        }),
        ({
            let node = old(tree)@[id];
            let nm = new_name->0;
            let new_path = text::with_name_of(
                path@,
                text::replaced(text::file_name_of(path@), node.name, nm@),
            );
            let fp = crate::source::first_folder(meta@.source.relevant)->0;
            let to = text::with_name_of(fp, nm@);
            (old(tree)@.contains_key(id) && (new_properties is None) && (
            new_name is Some) && name_valid(nm@) && !old(vfs)@.contains_key(new_path) && (
            crate::source::first_folder(meta@.source.relevant) is Some) && !(
            meta@.filter.matches_path_spec(fp) && meta@.filter.matches_path_spec(to))
                && (forall|k: Seq<char>|
                old(vfs)@.contains_key(k) ==> !text::under(to, k))) ==> (r is Ok
                && final(tree)@.contains_key(id) && final(tree)@[id].name == nm@
                && final(tree)@[id].meta.source.kind
                == crate::source::SourceKindView::Path(new_path) && final(tree)@[
                id
            ].meta.source.relevant.len() == meta@.source.relevant.len() && (forall|
                i: int,
            |
                0 <= i < meta@.source.relevant.len() ==> (#[trigger] final(tree)@[
                    id
                ].meta.source.relevant[i]) == folder_redirected(
                    meta@.source.relevant[i],
                    to,
                )) && (forall|k: Seq<char>|
                #[trigger] final(vfs)@.contains_key(k) <==> ((old(vfs)@.contains_key(k)
                    && !text::under(fp, k)) || (text::under(to, k) && old(
                    vfs,
                )@.contains_key(fp + k.skip(to.len() as int))))) && (forall|k: Seq<char>|
                #[trigger] final(vfs)@.contains_key(k) && !text::under(to, k)
                    ==> final(vfs)@[k] == old(vfs)@[k]) && (forall|k: Seq<char>|
                #[trigger] final(vfs)@.contains_key(k) && text::under(to, k)
                    ==> final(vfs)@[k] == old(vfs)@[fp + k.skip(to.len() as int)]))
        }),
{
    let mut meta = meta;
    match new_properties {
        Some(props) => {
            update_non_project_properties(id, path.as_str(), props, &mut meta, tree, vfs)?;
        },
        None => {},
    }
    let ghost gtree1 = tree@;
    match new_name {
        Some(name) => {
            if !verify_name(name.as_str()) {
                return Ok(());
            }
            let old_name = match tree.get_node(id) {
                Some(node) => node.name.clone(),
                None => {
                    return Ok(());
                },
            };
            let fname = text::get_file_name(path.as_str());
            let replaced_name = text::replace_all(fname, old_name.as_str(), name.as_str());
            let new_path = text::with_file_name(path.as_str(), replaced_name.as_str());
            if vfs.entry_exists(new_path.as_str()) {
                return Ok(());
            }
            meta.source.kind = SourceKind::Path(new_path.clone());
            let filter = meta.filter.clone_filter();
            let folder = meta.source.get_folder();
            match folder {
                Some(folder) => {
                    rename_folder_entry(&mut meta, folder, name.as_str(), &filter, vfs);
                },
                None => {
                    let mut src = Source {
                        kind: SourceKind::Path(new_path.clone()),
                        relevant: Vec::new(),
                    };
                    core::mem::swap(&mut src, &mut meta.source);
                    let mut src = src;
                    rename_relevant_entries(
                        &mut src,
                        old_name.as_str(),
                        name.as_str(),
                        &filter,
                        vfs,
                    )?;
                    meta.source = src;
                },
            }
            tree.set_name(id, name.as_str());
        },
        None => {},
    }
    tree.update_meta(id, meta);
    Ok(())
}

/// Moves a folder-represented instance to its new name: the folder
/// alone is renamed, the pattern-fixed body file inside moves with it.
fn rename_folder_entry(
    meta: &mut Meta,
    folder: String,
    new_name: &str,
    filter: &SyncbackFilter,
    vfs: &mut Vfs,
)
    requires
        old(meta).wf(),
        old(vfs).wf(),
    ensures
        final(meta).wf(),
        final(vfs).wf(),
        final(vfs).watched == old(vfs).watched,
        final(vfs).watch_enabled == old(vfs).watch_enabled,
        ({
            let to = text::with_name_of(folder@, new_name@);
            (!(filter@.matches_path_spec(folder@) && filter@.matches_path_spec(to)) && (
            old(meta)@.source.kind is Path) && (forall|k: Seq<char>|
                old(vfs)@.contains_key(k) ==> !text::under(to, k)))
                ==> (final(meta)@.source.kind == old(meta)@.source.kind
                && final(meta)@.source.relevant.len() == old(meta)@.source.relevant.len()
                && (forall|i: int|
                0 <= i < old(meta)@.source.relevant.len()
                    ==> (#[trigger] final(meta)@.source.relevant[i]) == folder_redirected(
                    old(meta)@.source.relevant[i],
                    to,
                )))
        }),
        ({
            let to = text::with_name_of(folder@, new_name@);
            (!(filter@.matches_path_spec(folder@) && filter@.matches_path_spec(to)) && (
            forall|k: Seq<char>|
                old(vfs)@.contains_key(k) ==> !text::under(to, k))) ==> ((forall|
                k: Seq<char>,
            |
                #[trigger] final(vfs)@.contains_key(k) <==> ((old(vfs)@.contains_key(k)
                    && !text::under(folder@, k)) || (text::under(to, k) && old(
                    vfs,
                )@.contains_key(folder@ + k.skip(to.len() as int))))) && (forall|
                k: Seq<char>,
            |
                #[trigger] final(vfs)@.contains_key(k) && !text::under(to, k)
                    ==> final(vfs)@[k] == old(vfs)@[k]) && (forall|k: Seq<char>|
                #[trigger] final(vfs)@.contains_key(k) && text::under(to, k)
                    ==> final(vfs)@[k] == old(vfs)@[folder@ + k.skip(to.len() as int)]))
        }),
{
    let new_folder = text::with_file_name(folder.as_str(), new_name);
    let blocked = filter.matches_path(folder.as_str()) && filter.matches_path(
        new_folder.as_str(),
    );
    if blocked {
        return ;
    }
    match vfs.rename(folder.as_str(), new_folder.as_str()) {
        Ok(()) => {
            let n = meta.source.relevant.len();
            let mut entries: Vec<SourceEntry> = Vec::new();
            let mut i: usize = 0;
            while i < n
                invariant
                    i <= n,
                    n == meta.source.relevant@.len(),
                    meta == old(meta),
                    new_folder@ == text::with_name_of(folder@, new_name@),
                    entries@.len() == i,
                    forall|j: int|
                        0 <= j < i ==> (#[trigger] crate::source::entry_views(
                            entries@,
                        )[j]) == folder_redirected(
                            old(meta)@.source.relevant[j],
                            new_folder@,
                        ),
                decreases n - i,
            {
                proof {
                    assert(meta@.source.relevant[i as int] == meta.source.relevant@[
                        i as int
                    ]@);
                }
                let ghost prev = entries@;
                let e = match &meta.source.relevant[i] {
                    SourceEntry::FolderEntry(_) => SourceEntry::FolderEntry(
                        new_folder.clone(),
                    ),
                    _ => meta.source.relevant[i].clone_entry(),
                };
                entries.push(e);
                proof {
                    assert(crate::source::entry_views(entries@)
                        =~= crate::source::entry_views(prev).push(
                        entries@[entries@.len() - 1]@,
                    ));
                }
                i += 1;
            }
            let kind = match &meta.source.kind {
                SourceKind::Path(p) => SourceKind::Path(p.clone()),
                SourceKind::Project(_) => {
                    return ;
                },
                SourceKind::Absent => SourceKind::Absent,
            };
            meta.source = Source { kind, relevant: entries };
        },
        Err(_) => {},
    }
}

/// Carries out the project-sourced part of an update: node properties
/// or a redirect write, then the node rename inside the project file.
fn update_project_instance(
    id: u64,
    info_project_path: String,
    info_node_path: String,
    info_redirect: Option<String>,
    new_name: Option<String>,
    new_properties: Option<Properties>,
    meta: Meta,
    tree: &mut Tree,
    vfs: &mut Vfs,
) -> (r: Result<(), WriteError>)
    requires
        meta.wf(),
        new_properties matches Some(p) ==> p.wf(),
        old(tree).wf(),
        old(vfs).wf(),
    ensures
        final(tree).wf(),
        final(vfs).wf(),
        final(vfs).watched == old(vfs).watched,
        final(vfs).watch_enabled == old(vfs).watch_enabled,
        final(tree).root_ref == old(tree).root_ref,
        forall|k: u64|
            final(tree)@.contains_key(k) <==> old(tree)@.contains_key(k),
        ({
            let props = new_properties->0;
            (info_redirect is None && new_name is None && (new_properties is Some)
                && old(vfs)@.contains_key(info_project_path@)
                && (old(vfs)@[info_project_path@] is Project) && entry_project_nodes(
                old(vfs)@[info_project_path@],
            ).contains_key(info_node_path@) && old(tree)@.contains_key(id)) ==> (r is Ok
                && final(tree)@ == old(tree)@.insert(
                id,
                (crate::tree::TreeNodeView {
                    meta: meta@,
                    properties: admitted_props(props@, meta.filter@),
                    ..old(tree)@[id]
                }),
            ) && final(vfs)@.contains_key(info_project_path@) && (final(vfs)@[
                info_project_path@
            ] is Project) && entry_project_nodes(final(vfs)@[info_project_path@])
                == entry_project_nodes(old(vfs)@[info_project_path@]).insert(
                info_node_path@,
                (crate::project::ProjectNodeView {
                    properties: admitted_props(props@, meta.filter@),
                    tags: Seq::<Seq<char>>::empty(),
                    keep_unknowns: None,
                    ..entry_project_nodes(old(vfs)@[info_project_path@])[info_node_path@]
                }),
            ) && (forall|k: Seq<char>|
                k != info_project_path@ ==> ((#[trigger] final(vfs)@.contains_key(k) <==>
                old(vfs)@.contains_key(k)) && (final(vfs)@.contains_key(k)
                    ==> final(vfs)@[k] == old(vfs)@[k]))))
        }),
{
    let ghost gmeta = meta;
    let ghost gprops = new_properties;
    let ghost gname = new_name;
    let mut meta = meta;
    let mut proj = match vfs.get_project(info_project_path.as_str()) {
        Ok(p) => p,
        Err(_) => {
            return Err(WriteError::ProjectMissing);
        },
    };
    let ghost gproj0 = proj@;
    match new_properties {
        Some(props) => {
            update_project_properties(
                id,
                info_project_path.as_str(),
                info_node_path.as_str(),
                &info_redirect,
                props,
                &mut meta,
                &mut proj,
                tree,
                vfs,
            )?;
        },
        None => {},
    }
    let ghost gtree1 = tree@;
    match new_name {
        Some(name) => {
            if !verify_name(name.as_str()) {
                tree.update_meta(id, meta);
                vfs.write(info_project_path.as_str(), VfsEntry::Project(proj));
                return Ok(());
            }
            if info_node_path.as_str().is_empty() {
                return Err(WriteError::NodeNotFound);
            }
            let parent_node_path = text::get_parent(info_node_path.as_str());
            let new_node_path = project::join_node_path(parent_node_path, name.as_str());
            let node_now = match proj.get_node(info_node_path.as_str()) {
                Some(n) => n.clone_node(),
                None => {
                    return Err(WriteError::NodeNotFound);
                },
            };
            if proj.nodes.any_key_under(new_node_path.as_str()) {
                // The target node path is taken: a benign race with an
                // out-of-band change, so the rename is skipped with a
                // warning and everything else stands.
                tree.update_meta(id, meta);
                vfs.write(info_project_path.as_str(), VfsEntry::Project(proj));
                return Ok(());
            }
            proj.rename_subtree(info_node_path.as_str(), new_node_path.as_str());
            let source = Source::project(
                name.as_str(),
                info_project_path.as_str(),
                node_now,
                new_node_path.as_str(),
            );
            meta.set_source(source);
            tree.set_name(id, name.as_str());
        },
        None => {},
    }
    tree.update_meta(id, meta);
    let ghost gproj1 = proj@;
    vfs.write(info_project_path.as_str(), VfsEntry::Project(proj));
    proof {
        if info_redirect is None && gname is None && gprops is Some && old(vfs)@.contains_key(
            info_project_path@,
        ) && (old(vfs)@[info_project_path@] is Project) && entry_project_nodes(
            old(vfs)@[info_project_path@],
        ).contains_key(info_node_path@) && old(tree)@.contains_key(id) {
            assert(entry_project_nodes(old(vfs)@[info_project_path@]) == gproj0.nodes);
            assert(vfs@ =~= old(vfs)@.insert(
                info_project_path@,
                crate::vfs::VfsEntryView::Project(gproj1),
            ));
            assert(entry_project_nodes(vfs@[info_project_path@]) == gproj1.nodes);
            assert(gtree1 == old(tree)@.insert(
                id,
                (crate::tree::TreeNodeView {
                    properties: admitted_props(gprops->0@, gmeta.filter@),
                    ..old(tree)@[id]
                }),
            ));
            assert(gtree1[id] == (crate::tree::TreeNodeView {
                properties: admitted_props(gprops->0@, gmeta.filter@),
                ..old(tree)@[id]
            }));
            assert(tree@ == gtree1.insert(
                id,
                (crate::tree::TreeNodeView { meta: gmeta@, ..gtree1[id] }),
            ));
            assert(tree@ =~= old(tree)@.insert(
                id,
                (crate::tree::TreeNodeView {
                    meta: gmeta@,
                    properties: admitted_props(gprops->0@, gmeta.filter@),
                    ..old(tree)@[id]
                }),
            ));
        }
    }
    Ok(())
}

/// Writes updated properties of a project-sourced instance: through
/// the redirect path when the node has one, into the node otherwise.
fn update_project_properties(
    id: u64,
    info_project_path: &str,
    info_node_path: &str,
    info_redirect: &Option<String>,
    props: Properties,
    meta: &mut Meta,
    proj: &mut ProjectFileData,
    tree: &mut Tree,
    vfs: &mut Vfs,
) -> (r: Result<(), WriteError>)
    requires
        props.wf(),
        old(meta).wf(),
        old(proj).wf(),
        old(tree).wf(),
        old(vfs).wf(),
    ensures
        final(meta).wf(),
        final(proj).wf(),
        final(tree).wf(),
        final(vfs).wf(),
        final(vfs).watched == old(vfs).watched,
        final(vfs).watch_enabled == old(vfs).watch_enabled,
        final(tree).root_ref == old(tree).root_ref,
        forall|k: u64|
            final(tree)@.contains_key(k) <==> old(tree)@.contains_key(k),
        info_redirect is None ==> (final(meta)@ == old(meta)@ && final(vfs)@ == old(vfs)@
            && (old(proj)@.nodes.contains_key(info_node_path@) ==> (r is Ok
            && final(proj)@.nodes == old(proj)@.nodes.insert(
            info_node_path@,
            (crate::project::ProjectNodeView {
                properties: admitted_props(props@, old(meta).filter@),
                tags: Seq::<Seq<char>>::empty(),
                keep_unknowns: None,
                ..old(proj)@.nodes[info_node_path@]
            }),
        ) && (old(tree)@.contains_key(id) ==> final(tree)@ == old(tree)@.insert(
            id,
            (crate::tree::TreeNodeView {
                properties: admitted_props(props@, old(meta).filter@),
                ..old(tree)@[id]
            }),
        )) && (!old(tree)@.contains_key(id) ==> final(tree)@ == old(tree)@)))
            && (!old(proj)@.nodes.contains_key(info_node_path@) ==> r == Err::<(), WriteError>(
            WriteError::NodeNotFound,
        ) && final(proj)@ == old(proj)@ && final(tree)@ == old(tree)@)),
{
    match info_redirect {
        Some(custom) => {
            let raw = text::with_file_name(info_project_path, custom.as_str());
            let redirect = text::clean_path(raw.as_str());
            update_non_project_properties(id, redirect.as_str(), props, meta, tree, vfs)?;
            let node = match proj.get_node(info_node_path) {
                Some(n) => n,
                None => {
                    return Err(WriteError::NodeNotFound);
                },
            };
            let mut cleared = node.clone_node();
            cleared.properties = Dict::new();
            cleared.attributes = None;
            cleared.tags = Vec::new();
            cleared.keep_unknowns = None;
            proj.set_node(info_node_path, cleared);
        },
        None => {
            let node = match proj.get_node(info_node_path) {
                Some(n) => n,
                None => {
                    return Err(WriteError::NodeNotFound);
                },
            };
            let vprops = validate_properties(props, &meta.filter);
            let mut updated = node.clone_node();
            updated.properties = clone_props(&vprops);
            updated.tags = Vec::new();
            updated.keep_unknowns = None;
            proof {
                assert(crate::project::tag_views(updated.tags@) =~= Seq::<Seq<char>>::empty());
                assert(updated@ == (crate::project::ProjectNodeView {
                    properties: admitted_props(props@, old(meta).filter@),
                    tags: Seq::<Seq<char>>::empty(),
                    keep_unknowns: None,
                    ..old(proj)@.nodes[info_node_path@]
                }));
            }
            proj.set_node(info_node_path, updated);
            tree.set_properties(id, vprops);
        },
    }
    Ok(())
}

/// Applies a remote-originated update: properties first, because a
/// rename can shift the file paths they go to, then the name with its
/// cascading renames. A class or context change is refused outright.
pub fn apply_update(snapshot: UpdatedSnapshot, tree: &mut Tree, vfs: &mut Vfs) -> (r: Result<
    (),
    WriteError,
>)
    requires
        snapshot.wf(),
        old(tree).wf(),
        old(vfs).wf(),
        old(tree)@.contains_key(snapshot.id) ==> !(old(tree)@[snapshot.id].meta.source
            .kind is Absent),
    ensures
        final(tree).wf(),
        final(vfs).wf(),
        final(vfs).watched == old(vfs).watched,
        final(vfs).watch_enabled == old(vfs).watch_enabled,
        final(tree).root_ref == old(tree).root_ref,
        forall|k: u64|
            final(tree)@.contains_key(k) <==> old(tree)@.contains_key(k),
        !old(tree)@.contains_key(snapshot.id) ==> r == Ok::<(), WriteError>(())
            && final(tree)@ == old(tree)@ && final(vfs)@ == old(vfs)@,
        snapshot.class is Some && old(tree)@.contains_key(snapshot.id) && !(old(
            tree,
        )@[snapshot.id].meta.filter.matches_name_spec(old(tree)@[snapshot.id].name))
            && !(old(tree)@[snapshot.id].meta.filter.matches_class_spec(
            old(tree)@[snapshot.id].class,
        )) && (snapshot.name matches Some(nm) ==> !(old(tree)@[snapshot.id].meta.filter
            .matches_name_spec(nm@))) ==> r == Err::<(), WriteError>(
            WriteError::UnsupportedChange,
        ) && final(tree)@ == old(tree)@ && final(vfs)@ == old(vfs)@,
        snapshot.meta is Some && snapshot.class is None && old(tree)@.contains_key(
            snapshot.id,
        ) && !(old(tree)@[snapshot.id].meta.filter.matches_name_spec(
            old(tree)@[snapshot.id].name,
        )) && !(old(tree)@[snapshot.id].meta.filter.matches_class_spec(
            old(tree)@[snapshot.id].class,
        )) && (snapshot.name matches Some(nm) ==> !(old(tree)@[snapshot.id].meta.filter
            .matches_name_spec(nm@))) ==> r == Err::<(), WriteError>(
            WriteError::UnsupportedChange,
        ) && final(tree)@ == old(tree)@ && final(vfs)@ == old(vfs)@,
        ({
            let node = old(tree)@[snapshot.id];
            let p = path_of_kind(node.meta.source.kind);
            let mw = middleware::middleware_of_class(node.class)->0;
            let key = middleware::native_key(mw)->0;
            let aprops = admitted_props(snapshot.properties->0@, node.meta.filter);
            let f = crate::source::first_file(node.meta.source.relevant)->0;
            (old(tree)@.contains_key(snapshot.id) && (node.meta.source.kind is Path)
                && !node.meta.filter.matches_name_spec(node.name)
                && !node.meta.filter.matches_class_spec(node.class) && (
            snapshot.name is None) && (snapshot.class is None) && (snapshot.meta is None)
                && (snapshot.properties is Some) && !node.meta.filter.matches_path_spec(
                p,
            ) && (middleware::middleware_of_class(node.class) is Some) && (
            crate::source::first_file(node.meta.source.relevant) is Some)
                && middleware::leftover_props(aprops, key) == Map::<
                Seq<char>,
                crate::value::ValueView,
            >::empty() && (crate::source::first_data(node.meta.source.relevant) is None)
                && (first_located(
                node.meta.sync_rules,
                FileType::InstanceData,
                p,
                node.name,
                false,
            ) is None) && !(old(vfs)@.contains_key(p) && (old(vfs)@[p] is Dir))) ==> (
            r is Ok && final(tree)@.contains_key(snapshot.id) && final(tree)@[
                snapshot.id
            ].properties == aprops && final(tree)@[snapshot.id].name == node.name
                && final(vfs)@ == old(vfs)@.insert(
                f,
                crate::vfs::VfsEntryView::Text(middleware::native_text(aprops, key)),
            ))
        }),
        ({
            let node = old(tree)@[snapshot.id];
            let nm = snapshot.name->0;
            (old(tree)@.contains_key(snapshot.id) && (node.meta.source.kind is Path)
                && !node.meta.filter.matches_name_spec(node.name)
                && !node.meta.filter.matches_class_spec(node.class) && (
            snapshot.name is Some) && !node.meta.filter.matches_name_spec(nm@)
                && (snapshot.class is None) && (snapshot.meta is None) && (
            snapshot.properties is None) && !name_valid(nm@)) ==> r is Ok
                && final(tree)@ == old(tree)@ && final(vfs)@ == old(vfs)@
        }),
        ({
            let node = old(tree)@[snapshot.id];
            let nm = snapshot.name->0;
            let p = path_of_kind(node.meta.source.kind);
            let new_path = text::with_name_of(
                p,
                text::replaced(text::file_name_of(p), node.name, nm@),
            );
            (old(tree)@.contains_key(snapshot.id) && (node.meta.source.kind is Path)
                && !node.meta.filter.matches_name_spec(node.name)
                && !node.meta.filter.matches_class_spec(node.class) && (
            snapshot.name is Some) && !node.meta.filter.matches_name_spec(nm@)
                && name_valid(nm@) && (snapshot.class is None) && (snapshot.meta is None)
                && (snapshot.properties is None) && old(vfs)@.contains_key(new_path))
                ==> r is Ok && final(tree)@ == old(tree)@ && final(vfs)@ == old(vfs)@
        }),
        ({
            let node = old(tree)@[snapshot.id];
            let nm = snapshot.name->0;
            let p = path_of_kind(node.meta.source.kind);
            let new_path = text::with_name_of(
                p,
                text::replaced(text::file_name_of(p), node.name, nm@),
            );
            (old(tree)@.contains_key(snapshot.id) && (node.meta.source.kind is Path)
                && !node.meta.filter.matches_name_spec(node.name)
                && !node.meta.filter.matches_class_spec(node.class) && (
            snapshot.name is Some) && !node.meta.filter.matches_name_spec(nm@)
                && name_valid(nm@) && (snapshot.class is None) && (snapshot.meta is None)
                && (snapshot.properties is None) && !old(vfs)@.contains_key(new_path)
                && (crate::source::first_folder(node.meta.source.relevant) is None))
                ==> (r is Ok ==> (final(tree)@.contains_key(snapshot.id) && final(tree)@[
                snapshot.id
            ].name == nm@ && final(tree)@[snapshot.id].meta.source.kind
                == crate::source::SourceKindView::Path(new_path) && final(tree)@[
                snapshot.id
            ].meta.source.relevant.len() == node.meta.source.relevant.len() && (forall|
                i: int,
            |
                0 <= i < node.meta.source.relevant.len() ==> (#[trigger] final(tree)@[
                    snapshot.id
                ].meta.source.relevant[i]) == renamed_entry(
                    node.meta.source.relevant[i],
                    node.name,
                    nm@,
                    node.meta.filter,
                ))))
        }),
        ({
            let node = old(tree)@[snapshot.id];
            let nm = snapshot.name->0;
            let p = path_of_kind(node.meta.source.kind);
            let new_path = text::with_name_of(
                p,
                text::replaced(text::file_name_of(p), node.name, nm@),
            );
            let fp = crate::source::first_folder(node.meta.source.relevant)->0;
            let to = text::with_name_of(fp, nm@);
            (old(tree)@.contains_key(snapshot.id) && (node.meta.source.kind is Path)
                && !node.meta.filter.matches_name_spec(node.name)
                && !node.meta.filter.matches_class_spec(node.class) && (
            snapshot.name is Some) && !node.meta.filter.matches_name_spec(nm@)
                && name_valid(nm@) && (snapshot.class is None) && (snapshot.meta is None)
                && (snapshot.properties is None) && !old(vfs)@.contains_key(new_path)
                && (crate::source::first_folder(node.meta.source.relevant) is Some)
                && !(node.meta.filter.matches_path_spec(fp)
                && node.meta.filter.matches_path_spec(to)) && (forall|k: Seq<char>|
                old(vfs)@.contains_key(k) ==> !text::under(to, k))) ==> (r is Ok
                && final(tree)@.contains_key(snapshot.id) && final(tree)@[snapshot.id]
                .name == nm@ && final(tree)@[snapshot.id].meta.source.kind
                == crate::source::SourceKindView::Path(new_path) && final(tree)@[
                snapshot.id
            ].meta.source.relevant.len() == node.meta.source.relevant.len() && (forall|
                i: int,
            |
                0 <= i < node.meta.source.relevant.len() ==> (#[trigger] final(tree)@[
                    snapshot.id
                ].meta.source.relevant[i]) == folder_redirected(
                    node.meta.source.relevant[i],
                    to,
                )) && (forall|k: Seq<char>|
                #[trigger] final(vfs)@.contains_key(k) <==> ((old(vfs)@.contains_key(k)
                    && !text::under(fp, k)) || (text::under(to, k) && old(
                    vfs,
                )@.contains_key(fp + k.skip(to.len() as int))))) && (forall|k: Seq<char>|
                #[trigger] final(vfs)@.contains_key(k) && !text::under(to, k)
                    ==> final(vfs)@[k] == old(vfs)@[k]) && (forall|k: Seq<char>|
                #[trigger] final(vfs)@.contains_key(k) && text::under(to, k)
                    ==> final(vfs)@[k] == old(vfs)@[fp + k.skip(to.len() as int)]))
        }),
        ({
            let node = old(tree)@[snapshot.id];
            let aprops = admitted_props(snapshot.properties->0@, node.meta.filter);
            ((old(tree)@.contains_key(snapshot.id) && !node.meta.filter.matches_name_spec(
                node.name,
            ) && !node.meta.filter.matches_class_spec(node.class) && (snapshot.name is None)
                && (snapshot.class is None) && (snapshot.meta is None) && (
            snapshot.properties is Some)) ==> (node.meta.source.kind matches
                crate::source::SourceKindView::Project(info) ==> ((
            info.node.path_redirect is None && old(vfs)@.contains_key(info.project_path)
                && (old(vfs)@[info.project_path] is Project) && entry_project_nodes(
                old(vfs)@[info.project_path],
            ).contains_key(info.node_path)) ==> (r is Ok && final(tree)@.contains_key(
                snapshot.id,
            ) && final(tree)@[snapshot.id].properties == aprops && final(tree)@[
                snapshot.id
            ].name == node.name && final(tree)@[snapshot.id].class == node.class
                && final(tree)@[snapshot.id].children == node.children && (forall|k: u64|
                k != snapshot.id && #[trigger] final(tree)@.contains_key(k)
                    ==> final(tree)@[k] == old(tree)@[k]) && final(vfs)@.contains_key(
                info.project_path,
            ) && (final(vfs)@[info.project_path] is Project) && entry_project_nodes(
                final(vfs)@[info.project_path],
            ) == entry_project_nodes(old(vfs)@[info.project_path]).insert(
                info.node_path,
                (crate::project::ProjectNodeView {
                    properties: aprops,
                    tags: Seq::<Seq<char>>::empty(),
                    keep_unknowns: None,
                    ..entry_project_nodes(old(vfs)@[info.project_path])[info.node_path]
                }),
            ) && (forall|k: Seq<char>|
                k != info.project_path ==> ((#[trigger] final(vfs)@.contains_key(k) <==>
                old(vfs)@.contains_key(k)) && (final(vfs)@.contains_key(k)
                    ==> final(vfs)@[k] == old(vfs)@[k])))))))
        }),
{
    let id = snapshot.id;
    let meta0 = match tree.get_node(id) {
        Some(node) => {
            if node.meta.filter.matches_name(node.name.as_str())
                || node.meta.filter.matches_class(node.class.as_str()) {
                return Ok(());
            }
            node.meta.clone_meta()
        },
        None => {
            return Ok(());
        },
    };
    match &snapshot.name {
        Some(name) => {
            if meta0.filter.matches_name(name.as_str()) {
                return Ok(());
            }
        },
        None => {},
    }
    if snapshot.class.is_some() {
        // A client cannot change an instance's class; refuse before
        // anything is written.
        return Err(WriteError::UnsupportedChange);
    }
    if snapshot.meta.is_some() {
        // A client cannot replace an instance's context either.
        return Err(WriteError::UnsupportedChange);
    }
    let UpdatedSnapshot { name: new_name, properties: new_properties, .. } = snapshot;
    let mut path_kind: Option<String> = None;
    let mut project_kind: Option<(String, String, Option<String>)> = None;
    match &meta0.source.kind {
        SourceKind::Path(path) => {
            path_kind = Some(path.clone());
        },
        SourceKind::Project(info) => {
            let redirect = match &info.node.path_redirect {
                Some(p) => Some(p.clone()),
                None => None,
            };
            project_kind = Some((info.project_path.clone(), info.node_path.clone(), redirect));
        },
        SourceKind::Absent => {
            proof {
                assert(false);
            }
            return Err(WriteError::UnsupportedChange);
        },
    }
    match path_kind {
        Some(path) => update_path_instance(id, path, new_name, new_properties, meta0, tree, vfs),
        None => match project_kind {
            Some(pp) => {
                let (project_path, node_path, redirect) = pp;
                update_project_instance(
                    id,
                    project_path,
                    node_path,
                    redirect,
                    new_name,
                    new_properties,
                    meta0,
                    tree,
                    vfs,
                )
            },
            None => {
                proof {
                    assert(false);
                }
                Err(WriteError::UnsupportedChange)
            },
        },
    }
}

} // verus!
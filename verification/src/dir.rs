//! Snapshot construction: walking the virtual file system and turning
//! what it finds into snapshots, the file-system-to-tree direction of
//! the synchronizer.

use vstd::prelude::*;

use crate::dict::Dict;
use crate::meta;
use crate::meta::Meta;
use crate::meta::MetaView;
use crate::middleware;
use crate::processor::find_matching_rule;
use crate::processor::first_leaf_match;
use crate::snapshot::snap_view;
use crate::snapshot::snap_wf;
use crate::snapshot::Snapshot;
use crate::snapshot::SnapshotView;
use crate::text;
use crate::value::Properties;
use crate::value::ValueView;
use crate::vfs::Vfs;
use crate::vfs::VfsEntryView;
use crate::vfs::VfsError;

verus! {

/// The paths of `m` at or below `p`.
pub open spec fn keys_under(m: Map<Seq<char>, VfsEntryView>, p: Seq<char>) -> Set<Seq<char>> {
    m.dom().intersect(Set::new(|k: Seq<char>| text::under(p, k)))
}

/// Walking from a directory into one of its direct children strictly
/// shrinks the part of the file system still in view.
proof fn lemma_walk_decreases(m: Map<Seq<char>, VfsEntryView>, p: Seq<char>, c: Seq<char>)
    requires
        m.dom().finite(),
        m.dom().contains(p),
        m.dom().contains(c),
        text::under(p, c),
        c.len() > p.len(),
    ensures
        keys_under(m, c).len() < keys_under(m, p).len(),
{
    assert forall|k: Seq<char>| keys_under(m, c).contains(k) implies keys_under(
        m,
        p,
    ).contains(k) by {
        text::lemma_under_trans(p, c, k);
    };
    if keys_under(m, c).contains(p) {
        text::lemma_under_decomp(c, p);
    }
    assert(keys_under(m, p).contains(p));
    assert(keys_under(m, p).finite());
    keys_under(m, c).lemma_subset_not_in_lt(keys_under(m, p), p);
}

/// Whether no pinpoint override of `m` aims at exactly `p`.
pub open spec fn no_override_at(m: MetaView, p: Seq<char>) -> bool {
    match m.project_data {
        Some(d) => d.applies_to != p,
        None => true,
    }
}

/// What reading the body at `body` through the middleware for `ft`
/// yields: the text under the type's native key, or nothing when the
/// type has no single-file body or the entry is no text file.
pub open spec fn native_read(
    ft: middleware::FileType,
    m: Map<Seq<char>, VfsEntryView>,
    body: Seq<char>,
) -> Map<Seq<char>, ValueView> {
    match middleware::native_key(ft) {
        Some(key) => if m.contains_key(body) && (m[body] is Text) {
            Map::<Seq<char>, ValueView>::empty().insert(
                key,
                ValueView::Text(middleware::entry_text(m[body])),
            )
        } else {
            Map::<Seq<char>, ValueView>::empty()
        },
        None => Map::<Seq<char>, ValueView>::empty(),
    }
}

/// Whether the walk turns the entry at `k` into a snapshot: it is not
/// ignored, and it is a directory or a rule-matched file whose type
/// carries an instance class.
pub open spec fn walk_admits(
    rules: Seq<crate::meta::SyncRuleView>,
    ignore: Seq<Seq<char>>,
    m: Map<Seq<char>, VfsEntryView>,
    k: Seq<char>,
) -> bool {
    &&& !meta::any_glob_matches(ignore, k)
    &&& m.contains_key(k)
    &&& (m[k] is Dir || (match first_leaf_match(rules, k) {
        Some(rule) => middleware::class_of(rule.file_type) is Some,
        None => false,
    }))
}

/// The first folder-representation match of the context's rules.
fn resolve_child_by_rules(rules_meta: &Meta, path: &str, vfs: &Vfs) -> (r: Option<
    meta::ResolvedSyncRule,
>)
    requires
        rules_meta.wf(),
        vfs.wf(),
    ensures
        r matches Some(res) ==> vfs@.contains_key(res.path@) && crate::vfs::direct_child_of(
            path@,
            res.path@,
        ) && res.name@ == text::file_name_of(path@) && (exists|ri: int|
            0 <= ri < rules_meta.sync_rules@.len() && (#[trigger] meta::rule_views(
                rules_meta.sync_rules@,
            )[ri]).matches_child_spec(res.path@)),
{
    let n = rules_meta.sync_rules.len();
    let mut i: usize = 0;
    while i < n
        invariant
            i <= n,
            n == rules_meta.sync_rules@.len(),
            rules_meta.wf(),
            vfs.wf(),
        decreases n - i,
    {
        match rules_meta.sync_rules[i].resolve_child(path, vfs) {
            Some(res) => {
                proof {
                    assert(meta::rule_views(rules_meta.sync_rules@)[i as int]
                        == rules_meta.sync_rules@[i as int]@);
                }
                return Some(res);
            },
            None => {},
        }
        i += 1;
    }
    None
}

/// The properties a typed file contributes: its native key read back,
/// or nothing at all for types without a single-file body.
fn read_native_props(ft: middleware::FileType, body: &str, vfs: &Vfs) -> (r: Properties)
    requires
        vfs.wf(),
    ensures
        r.wf(),
        r@ == native_read(ft, vfs@, body@),
{
    match middleware::native_key_of(ft) {
        Some(_) => {
            proof {
                assert(middleware::native_key(ft) is Some);
            }
            match middleware::read_props(ft, body, vfs) {
                Some(p) => p,
                None => Dict::new(),
            }
        },
        None => Dict::new(),
    }
}

/// Builds the snapshot of the entry at `path`: a typed instance when a
/// sync rule claims it, a plain container for an unmatched directory,
/// nothing for an ignored path or an unmatched loose file. Children
/// are walked depth-first with the same context, and the pinpoint
/// project override is applied at the end.
pub fn new_snapshot(path: &str, walk_meta: &Meta, vfs: &Vfs) -> (r: Option<Snapshot>)
    requires
        walk_meta.wf(),
        vfs.wf(),
        path@.len() > 0,
    ensures
        r matches Some(s) ==> snap_wf(s) && snap_view(s).path == Some(path@)
            && snap_view(s).id is None && snap_view(s).meta is None,
        meta::any_glob_matches(walk_meta@.ignore_globs, path@) ==> r is None,
        !vfs@.contains_key(path@) ==> r is None,
        vfs@.contains_key(path@) && (vfs@[path@] is Dir) && !meta::any_glob_matches(
            walk_meta@.ignore_globs,
            path@,
        ) ==> r is Some,
        walk_admits(
            meta::rule_views(walk_meta.sync_rules@),
            walk_meta@.ignore_globs,
            vfs@,
            path@,
        ) ==> r is Some,
        vfs@.contains_key(path@) && (vfs@[path@] is Dir) && !meta::any_glob_matches(
            walk_meta@.ignore_globs,
            path@,
        ) ==> (r matches Some(s) ==> (forall|k: Seq<char>|
            #[trigger] vfs@.contains_key(k) && crate::vfs::direct_child_of(path@, k)
                && walk_admits(
                meta::rule_views(walk_meta.sync_rules@),
                walk_meta@.ignore_globs,
                vfs@,
                k,
            ) ==> ((exists|j: int|
                0 <= j < snap_view(s).children.len() && (#[trigger] snap_view(
                    s,
                ).children[j]).path == Some(k)) || (exists|ri: int|
                0 <= ri < meta::rule_views(walk_meta.sync_rules@).len() && (
                #[trigger] meta::rule_views(walk_meta.sync_rules@)[ri]).matches_child_spec(
                    k,
                ))))),
        vfs@.contains_key(path@) && (vfs@[path@] is Dir) && no_override_at(
            walk_meta@,
            path@,
        ) ==> (r matches Some(s) ==> ((snap_view(s).file_type matches Some(ft)
            ==> middleware::class_of(ft) == Some(snap_view(s).class) && (exists|
            b: Seq<char>,
        |
            #[trigger] vfs@.contains_key(b) && crate::vfs::direct_child_of(path@, b)
                && snap_view(s).properties == native_read(ft, vfs@, b))) && (snap_view(
            s,
        ).file_type is None ==> snap_view(s).name == text::file_name_of(path@)
            && snap_view(s).class == "Folder"@ && snap_view(s).properties == Map::<
            Seq<char>,
            ValueView,
        >::empty()))),
        vfs@.contains_key(path@) && !(vfs@[path@] is Dir) && !meta::any_glob_matches(
            walk_meta@.ignore_globs,
            path@,
        ) && no_override_at(walk_meta@, path@) ==> (match first_leaf_match(
            meta::rule_views(walk_meta.sync_rules@),
            path@,
        ) {
            None => r is None,
            Some(rule) => (match middleware::class_of(rule.file_type) {
                None => r is None,
                Some(cls) => r matches Some(s) && snap_view(s).name == rule.name_spec(
                    path@,
                ) && snap_view(s).class == cls && snap_view(s).file_type == Some(
                    rule.file_type,
                ) && snap_view(s).properties == native_read(rule.file_type, vfs@, path@)
                    && snap_view(s).children == Seq::<SnapshotView>::empty(),
            }),
        }),
    decreases keys_under(vfs@, path@).len(),
{
    if meta::globs_match(&walk_meta.ignore_globs, path) {
        return None;
    }
    if vfs.is_dir(path) {
        let resolved = resolve_child_by_rules(walk_meta, path, vfs);
        let mut body: Option<String> = None;
        let mut snap = match resolved {
            Some(res) => {
                match middleware::class_of_file_type(res.file_type) {
                    Some(class) => {
                        let props = read_native_props(res.file_type, res.path.as_str(), vfs);
                        body = Some(res.path);
                        Snapshot::new(res.name.as_str()).with_class(class).with_path(
                            path,
                        ).with_file_type(res.file_type).with_properties(props)
                    },
                    None => Snapshot::new(text::get_file_name(path)).with_path(path),
                }
            },
            None => Snapshot::new(text::get_file_name(path)).with_path(path),
        };
        let ghost start_view = snap_view(snap);
        let listing = match vfs.read_dir(path) {
            Ok(v) => v,
            Err(_) => Vec::new(),
        };
        let n = listing.len();
        let mut i: usize = 0;
        while i < n
            invariant
                i <= n,
                n == listing@.len(),
                walk_meta.wf(),
                vfs.wf(),
                snap_wf(snap),
                snap_view(snap) == (SnapshotView {
                    children: snap_view(snap).children,
                    ..start_view
                }),
                body matches Some(b) ==> (exists|ri: int|
                    0 <= ri < meta::rule_views(walk_meta.sync_rules@).len() && (
                    #[trigger] meta::rule_views(walk_meta.sync_rules@)[ri])
                        .matches_child_spec(b@)),
                forall|l: int|
                    0 <= l < i && walk_admits(
                        meta::rule_views(walk_meta.sync_rules@),
                        walk_meta@.ignore_globs,
                        vfs@,
                        #[trigger] listing@[l]@,
                    ) ==> ((exists|j: int|
                        0 <= j < snap_view(snap).children.len() && (#[trigger] snap_view(
                            snap,
                        ).children[j]).path == Some(listing@[l]@)) || (exists|ri: int|
                        0 <= ri < meta::rule_views(walk_meta.sync_rules@).len() && (
                        #[trigger] meta::rule_views(walk_meta.sync_rules@)[ri])
                            .matches_child_spec(listing@[l]@))),
                vfs@.contains_key(path@),
                path@.len() > 0,
                forall|j: int|
                    0 <= j < listing@.len() ==> vfs@.contains_key(#[trigger] listing@[j]@)
                        && crate::vfs::direct_child_of(path@, listing@[j]@),
            decreases n - i,
        {
            let child = listing[i].as_str();
            let skip_body = match &body {
                Some(b) => text::str_eq(b.as_str(), child),
                None => false,
            };
            let ghost prev_children = snap_view(snap).children;
            if !skip_body {
                proof {
                    text::lemma_child_under(path@, child@);
                    crate::dict::lemma_assoc_dom_finite(
                        vfs.entries.kseq(),
                        vfs.entries.vseq(),
                    );
                    lemma_walk_decreases(vfs@, path@, child@);
                }
                match new_snapshot(child, walk_meta, vfs) {
                    Some(child_snap) => {
                        snap.add_child(child_snap);
                        proof {
                            assert(snap_view(snap).children == prev_children.push(
                                crate::snapshot::snap_view(child_snap),
                            ));
                            assert(snap_view(snap).children[
                                prev_children.len() as int
                            ].path == Some(listing@[i as int]@));
                            assert forall|l: int|
                                #![trigger listing@[l]]
                                0 <= l < i && (exists|j: int|
                                    0 <= j < prev_children.len() && (
                                    #[trigger] prev_children[j]).path == Some(
                                        listing@[l]@,
                                    )) implies (exists|j: int|
                                0 <= j < snap_view(snap).children.len() && (
                                #[trigger] snap_view(snap).children[j]).path == Some(
                                    listing@[l]@,
                                )) by {
                                let j0 = choose|j: int|
                                    0 <= j < prev_children.len() && (
                                    #[trigger] prev_children[j]).path == Some(
                                        listing@[l]@,
                                    );
                                assert(snap_view(snap).children[j0].path == Some(
                                    listing@[l]@,
                                ));
                            };
                        }
                    },
                    None => {
                        proof {
                            assert(!walk_admits(
                                meta::rule_views(walk_meta.sync_rules@),
                                walk_meta@.ignore_globs,
                                vfs@,
                                listing@[i as int]@,
                            ));
                        }
                    },
                }
            }
            i += 1;
        }
        proof {
            assert forall|k: Seq<char>|
                #[trigger] vfs@.contains_key(k) && crate::vfs::direct_child_of(path@, k)
                    && walk_admits(
                    meta::rule_views(walk_meta.sync_rules@),
                    walk_meta@.ignore_globs,
                    vfs@,
                    k,
                ) implies ((exists|j: int|
                0 <= j < snap_view(snap).children.len() && (#[trigger] snap_view(
                    snap,
                ).children[j]).path == Some(k)) || (exists|ri: int|
                0 <= ri < meta::rule_views(walk_meta.sync_rules@).len() && (
                #[trigger] meta::rule_views(walk_meta.sync_rules@)[ri]).matches_child_spec(
                    k,
                ))) by {
                let l = choose|l: int|
                    0 <= l < listing@.len() && #[trigger] crate::vfs::str_views(
                        listing@,
                    )[l] == k;
                assert(listing@[l]@ == k);
            };
        }
        Some(snap.apply_project_data(walk_meta, path))
    } else if vfs.is_file(path) {
        match find_matching_rule(&walk_meta.sync_rules, path) {
            Some(rule) => {
                match middleware::class_of_file_type(rule.file_type) {
                    Some(class) => {
                        let name = rule.get_name(path);
                        let props = read_native_props(rule.file_type, path, vfs);
                        let snap = Snapshot::new(name.as_str()).with_class(
                            class,
                        ).with_path(path).with_file_type(rule.file_type).with_properties(
                            props,
                        );
                        proof {
                            assert(snap_view(snap).children =~= Seq::<
                                SnapshotView,
                            >::empty());
                        }
                        Some(snap.apply_project_data(walk_meta, path))
                    },
                    None => None,
                }
            },
            None => None,
        }
    } else {
        None
    }
}

/// The snapshot of the directory at `path` taken as a plain container:
/// its name, its path, and every child the rules and ignore globs let
/// through, each built from a real entry directly inside it.
pub fn snapshot_dir(path: &str, walk_meta: &Meta, vfs: &Vfs) -> (r: Result<Snapshot, VfsError>)
    requires
        walk_meta.wf(),
        vfs.wf(),
        path@.len() > 0,
    ensures
        r is Ok <==> vfs@.contains_key(path@) && (vfs@[path@] is Dir),
        r matches Ok(s) ==> snap_wf(s) && snap_view(s).name == text::file_name_of(path@)
            && snap_view(s).path == Some(path@) && snap_view(s).class == "Folder"@
            && snap_view(s).properties == Map::<Seq<char>, ValueView>::empty()
            && snap_view(s).id is None && snap_view(s).file_type is None && snap_view(
            s,
        ).meta is None,
        r matches Ok(s) ==> (forall|j: int|
            0 <= j < snap_view(s).children.len() ==> ((#[trigger] snap_view(
                s,
            ).children[j]).path matches Some(k) && vfs@.contains_key(k)
                && crate::vfs::direct_child_of(path@, k))),
        r matches Ok(s) ==> (forall|k: Seq<char>|
            #[trigger] vfs@.contains_key(k) && crate::vfs::direct_child_of(path@, k)
                && walk_admits(
                meta::rule_views(walk_meta.sync_rules@),
                walk_meta@.ignore_globs,
                vfs@,
                k,
            ) ==> (exists|j: int|
                0 <= j < snap_view(s).children.len() && (#[trigger] snap_view(
                    s,
                ).children[j]).path == Some(k))),
        r matches Ok(s) ==> (forall|j1: int, j2: int|
            0 <= j1 < j2 < snap_view(s).children.len() ==> (#[trigger] snap_view(
                s,
            ).children[j1]).path != (#[trigger] snap_view(s).children[j2]).path),
{
    let name = text::get_file_name(path);
    let mut snap = Snapshot::new(name).with_path(path);
    let ghost start_view = snap_view(snap);
    let listing = vfs.read_dir(path)?;
    let n = listing.len();
    let mut i: usize = 0;
    proof {
        assert(snap_view(snap).children =~= Seq::<SnapshotView>::empty());
    }
    while i < n
        invariant
            i <= n,
            n == listing@.len(),
            walk_meta.wf(),
            vfs.wf(),
            snap_wf(snap),
            snap_view(snap) == (SnapshotView {
                children: snap_view(snap).children,
                ..start_view
            }),
            forall|j: int|
                0 <= j < snap_view(snap).children.len() ==> ((#[trigger] snap_view(
                    snap,
                ).children[j]).path matches Some(k) && vfs@.contains_key(k)
                    && crate::vfs::direct_child_of(path@, k)),
            forall|j: int|
                0 <= j < snap_view(snap).children.len() ==> (exists|l: int|
                    0 <= l < i && (#[trigger] snap_view(snap).children[j]).path == Some(
                        listing@[l]@,
                    )),
            forall|l: int|
                0 <= l < i && walk_admits(
                    meta::rule_views(walk_meta.sync_rules@),
                    walk_meta@.ignore_globs,
                    vfs@,
                    #[trigger] listing@[l]@,
                ) ==> (exists|j: int|
                    0 <= j < snap_view(snap).children.len() && (#[trigger] snap_view(
                        snap,
                    ).children[j]).path == Some(listing@[l]@)),
            forall|j1: int, j2: int|
                0 <= j1 < j2 < snap_view(snap).children.len() ==> (#[trigger] snap_view(
                    snap,
                ).children[j1]).path != (#[trigger] snap_view(snap).children[j2]).path,
            forall|a: int, b: int|
                0 <= a < b < listing@.len() ==> listing@[a]@ != listing@[b]@,
            vfs@.contains_key(path@),
            path@.len() > 0,
            forall|j: int|
                0 <= j < listing@.len() ==> vfs@.contains_key(#[trigger] listing@[j]@)
                    && crate::vfs::direct_child_of(path@, listing@[j]@),
        decreases n - i,
    {
        let child = listing[i].as_str();
        proof {
            text::lemma_child_under(path@, child@);
        }
        let ghost prev_children = snap_view(snap).children;
        match new_snapshot(child, walk_meta, vfs) {
            Some(child_snap) => {
                snap.add_child(child_snap);
                proof {
                    assert(snap_view(snap).children == prev_children.push(
                        crate::snapshot::snap_view(child_snap),
                    ));
                    assert(snap_view(snap).children[prev_children.len() as int].path
                        == Some(listing@[i as int]@));
                    assert forall|l: int|
                        0 <= l < i + 1 && walk_admits(
                            meta::rule_views(walk_meta.sync_rules@),
                            walk_meta@.ignore_globs,
                            vfs@,
                            #[trigger] listing@[l]@,
                        ) implies (exists|j: int|
                        0 <= j < snap_view(snap).children.len() && (#[trigger] snap_view(
                            snap,
                        ).children[j]).path == Some(listing@[l]@)) by {
                        if l < i as int {
                            let j0 = choose|j: int|
                                0 <= j < prev_children.len() && (#[trigger] prev_children[
                                    j
                                ]).path == Some(listing@[l]@);
                            assert(snap_view(snap).children[j0].path == Some(
                                listing@[l]@,
                            ));
                        } else {
                            assert(snap_view(snap).children[
                                prev_children.len() as int
                            ].path == Some(listing@[l]@));
                        }
                    };
                }
            },
            None => {
                proof {
                    assert(!walk_admits(
                        meta::rule_views(walk_meta.sync_rules@),
                        walk_meta@.ignore_globs,
                        vfs@,
                        listing@[i as int]@,
                    ));
                }
            },
        }
        i += 1;
    }
    proof {
        assert forall|k: Seq<char>|
            #[trigger] vfs@.contains_key(k) && crate::vfs::direct_child_of(path@, k)
                && walk_admits(
                meta::rule_views(walk_meta.sync_rules@),
                walk_meta@.ignore_globs,
                vfs@,
                k,
            ) implies (exists|j: int|
            0 <= j < snap_view(snap).children.len() && (#[trigger] snap_view(
                snap,
            ).children[j]).path == Some(k)) by {
            let l = choose|l: int|
                0 <= l < listing@.len() && #[trigger] crate::vfs::str_views(listing@)[l]
                    == k;
            assert(listing@[l]@ == k);
        };
    }
    Ok(snap)
}

} // verus!

//! The library's cross-cutting guarantees, stated and proved over the
//! same spec functions its contracts use.

use vstd::prelude::*;

use crate::meta::SyncbackFilterView;
use crate::meta::SyncRuleView;
use crate::processor::renamed_entry;
use crate::source::SourceEntryView;
use crate::text;
use crate::vfs::VfsEntryView;

verus! {

/// Rule naming law: on every path a rule matches, the derived instance
/// name is the file name with the rule's suffix cut off when the rule
/// has one and the name ends with it, and the file stem when the rule
/// has none. (On a path a rule does not match, `SyncRule::resolve`
/// hands back nothing, as its contract states.)
pub proof fn lemma_rule_resolution(rule: SyncRuleView, p: Seq<char>)
    ensures
        rule.matches_spec(p) && rule.suffix is None ==> rule.name_spec(p)
            == text::file_stem_of(p),
        rule.suffix matches Some(s) ==> (rule.matches_spec(p) ==> (if text::is_suffix_of(
            s,
            text::file_name_of(p),
        ) {
            rule.name_spec(p) == text::file_name_of(p).subrange(
                0,
                text::file_name_of(p).len() - s.len(),
            )
        } else {
            rule.name_spec(p) == text::file_name_of(p)
        })),
{
}

/// Promotion/demotion round trip, without a data sidecar: making the
/// folder, moving the body file in, then moving it back out and
/// dropping the folder restores the original file system exactly.
pub proof fn lemma_promote_demote_file(
    m: Map<Seq<char>, VfsEntryView>,
    file: Seq<char>,
    folder: Seq<char>,
    body: Seq<char>,
)
    requires
        m.contains_key(file),
        !m.contains_key(folder),
        !m.contains_key(body),
        file != folder,
        file != body,
        folder != body,
    ensures
        ({
            let promoted = m.remove(file).insert(folder, VfsEntryView::Dir).insert(
                body,
                m[file],
            );
            let demoted = promoted.remove(body).insert(file, promoted[body]).remove(
                folder,
            );
            demoted == m
        }),
{
    let promoted = m.remove(file).insert(folder, VfsEntryView::Dir).insert(body, m[file]);
    let demoted = promoted.remove(body).insert(file, promoted[body]).remove(folder);
    assert(demoted =~= m);
}

/// Promotion/demotion round trip with a data sidecar: the body file
/// and the data file both come back to their original places and the
/// folder goes away.
pub proof fn lemma_promote_demote_file_with_data(
    m: Map<Seq<char>, VfsEntryView>,
    file: Seq<char>,
    folder: Seq<char>,
    body: Seq<char>,
    data_old: Seq<char>,
    data_new: Seq<char>,
)
    requires
        m.contains_key(file),
        m.contains_key(data_old),
        !m.contains_key(folder),
        !m.contains_key(body),
        !m.contains_key(data_new),
        file != folder && file != body && file != data_old && file != data_new,
        folder != body && folder != data_old && folder != data_new,
        body != data_old && body != data_new,
        data_old != data_new,
    ensures
        ({
            let promoted = m.remove(file).insert(folder, VfsEntryView::Dir).insert(
                body,
                m[file],
            ).remove(data_old).insert(data_new, m[data_old]);
            let demoted = promoted.remove(body).insert(file, promoted[body]).remove(
                data_new,
            ).insert(data_old, promoted[data_new]).remove(folder);
            demoted == m
        }),
{
    let promoted = m.remove(file).insert(folder, VfsEntryView::Dir).insert(
        body,
        m[file],
    ).remove(data_old).insert(data_new, m[data_old]);
    let demoted = promoted.remove(body).insert(file, promoted[body]).remove(
        data_new,
    ).insert(data_old, promoted[data_new]).remove(folder);
    assert(demoted =~= m);
}

/// The property split, seen from the walk: writing a property map
/// through a middleware and then walking the written body file back
/// reconstructs, together with the leftover properties, exactly the
/// original map — whatever else the file system holds.
pub proof fn lemma_write_walk_round_trip(
    props: Map<Seq<char>, crate::value::ValueView>,
    ft: crate::middleware::FileType,
    m: Map<Seq<char>, VfsEntryView>,
    body: Seq<char>,
)
    requires
        crate::middleware::native_key(ft) is Some,
        props.contains_key(crate::middleware::native_key(ft)->0),
        props[crate::middleware::native_key(ft)->0] is Text,
    ensures
        ({
            let key = crate::middleware::native_key(ft)->0;
            let written = m.insert(
                body,
                VfsEntryView::Text(crate::middleware::native_text(props, key)),
            );
            crate::middleware::leftover_props(props, key).union_prefer_right(
                crate::dir::native_read(ft, written, body),
            ) == props
        }),
{
    let key = crate::middleware::native_key(ft)->0;
    let written = m.insert(
        body,
        VfsEntryView::Text(crate::middleware::native_text(props, key)),
    );
    assert(crate::dir::native_read(ft, written, body) =~= Map::<
        Seq<char>,
        crate::value::ValueView,
    >::empty().insert(
        key,
        crate::value::ValueView::Text(crate::middleware::native_text(props, key)),
    ));
    crate::middleware::lemma_property_split(props, key);
}

/// Rename cascade atomicity: what becomes of one relevant entry under
/// a rename depends on that entry and the filter alone. Changing any
/// other entry of the list leaves its outcome untouched, so one
/// filter-excluded entry never holds the others back.
pub proof fn lemma_rename_cascade_atomicity(
    rel: Seq<SourceEntryView>,
    j: int,
    other: SourceEntryView,
    old_name: Seq<char>,
    new_name: Seq<char>,
    f: SyncbackFilterView,
)
    requires
        0 <= j < rel.len(),
    ensures
        forall|i: int|
            0 <= i < rel.len() && i != j ==> renamed_entry(
                #[trigger] rel.update(j, other)[i],
                old_name,
                new_name,
                f,
            ) == renamed_entry(rel[i], old_name, new_name, f),
{
}

/// The guard every write of the processor runs behind: nothing is
/// written over an entry that is already there.
pub open spec fn add_if_absent(
    m: Map<Seq<char>, VfsEntryView>,
    path: Seq<char>,
    entry: VfsEntryView,
) -> Map<Seq<char>, VfsEntryView> {
    if m.contains_key(path) {
        m
    } else {
        m.insert(path, entry)
    }
}

/// Addition idempotence: applying the same guarded write twice leaves
/// exactly the state of applying it once, because the second run finds
/// the entry already present and short-circuits.
pub proof fn lemma_addition_idempotent(
    m: Map<Seq<char>, VfsEntryView>,
    path: Seq<char>,
    entry: VfsEntryView,
)
    ensures
        add_if_absent(add_if_absent(m, path, entry), path, entry) == add_if_absent(
            m,
            path,
            entry,
        ),
{
    assert(add_if_absent(add_if_absent(m, path, entry), path, entry) =~= add_if_absent(
        m,
        path,
        entry,
    ));
}

/// Leaf-addition idempotence, in the processor's own vocabulary: once
/// a clean leaf addition has succeeded — the reference recorded, the
/// body file written — the very same request is no longer ready, so a
/// retry takes the skip paths and duplicates nothing.
pub proof fn lemma_leaf_addition_idempotent(
    treem: Map<u64, crate::tree::TreeNodeView>,
    vfsm: Map<Seq<char>, VfsEntryView>,
    parent_id: u64,
    parent_path: Seq<char>,
    rules: Seq<SyncRuleView>,
    f: SyncbackFilterView,
    snapshot: crate::snapshot::Snapshot,
    node: crate::tree::TreeNodeView,
    entry: VfsEntryView,
)
    requires
        crate::processor::leaf_add_ready(
            treem,
            vfsm,
            parent_id,
            parent_path,
            rules,
            f,
            snapshot,
        ),
    ensures
        !crate::processor::leaf_add_ready(
            treem.insert(snapshot.id->0, node),
            vfsm.insert(
                crate::processor::leaf_add_body(rules, parent_path, snapshot),
                entry,
            ),
            parent_id,
            parent_path,
            rules,
            f,
            snapshot,
        ),
{
}

} // verus!

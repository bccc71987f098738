//! Snapshots: ephemeral descriptions of one instance subtree, the unit
//! of diffing and transfer between the file system and the tree.

use vstd::prelude::*;

use crate::dict::Dict;
use crate::meta::Meta;
use crate::meta::MetaView;
use crate::middleware::FileType;
use crate::value::Properties;
use crate::value::ValueView;

verus! {

/// A transient description of one instance subtree, with provenance.
pub struct Snapshot {
    pub id: Option<u64>,
    pub file_type: Option<FileType>,
    pub meta: Option<Meta>,
    pub path: Option<String>,
    pub name: String,
    pub class: String,
    pub properties: Properties,
    pub children: Vec<Snapshot>,
}

/// The mathematical value of a snapshot.
pub struct SnapshotView {
    pub id: Option<u64>,
    pub file_type: Option<FileType>,
    pub meta: Option<MetaView>,
    pub path: Option<Seq<char>>,
    pub name: Seq<char>,
    pub class: Seq<char>,
    pub properties: Map<Seq<char>, ValueView>,
    pub children: Seq<SnapshotView>,
}

/// The view of a snapshot, children included.
pub open spec fn snap_view(s: Snapshot) -> SnapshotView
    decreases s,
{
    SnapshotView {
        id: s.id,
        file_type: s.file_type,
        meta: match s.meta {
            Some(m) => Some(m@),
            None => None,
        },
        path: match s.path {
            Some(p) => Some(p@),
            None => None,
        },
        name: s.name@,
        class: s.class@,
        properties: s.properties@,
        children: snaps_view(s.children@),
    }
}

/// The views of a list of snapshots, in order.
pub open spec fn snaps_view(cs: Seq<Snapshot>) -> Seq<SnapshotView>
    decreases cs,
{
    if cs.len() == 0 {
        Seq::empty()
    } else {
        seq![snap_view(cs[0])] + snaps_view(cs.skip(1))
    }
}

/// A snapshot's property map, context and children are well formed.
pub open spec fn snap_wf(s: Snapshot) -> bool
    decreases s,
{
    &&& s.properties.wf()
    &&& match s.meta {
        Some(m) => m.wf(),
        None => true,
    }
    &&& snaps_wf(s.children@)
}

/// Every snapshot of the list is well formed.
pub open spec fn snaps_wf(cs: Seq<Snapshot>) -> bool
    decreases cs,
{
    cs.len() == 0 || (snap_wf(cs[0]) && snaps_wf(cs.skip(1)))
}

pub proof fn lemma_snaps_view_index(cs: Seq<Snapshot>)
    ensures
        snaps_view(cs).len() == cs.len(),
        forall|i: int| 0 <= i < cs.len() ==> snaps_view(cs)[i] == snap_view(cs[i]),
    decreases cs.len(),
{
    if cs.len() > 0 {
        lemma_snaps_view_index(cs.skip(1));
        assert(forall|i: int|
            1 <= i < cs.len() ==> snaps_view(cs)[i] == snaps_view(cs.skip(1))[i - 1]);
        assert(forall|i: int| 1 <= i < cs.len() ==> cs.skip(1)[i - 1] == cs[i]);
    }
}

pub proof fn lemma_snaps_wf_index(cs: Seq<Snapshot>)
    requires
        snaps_wf(cs),
    ensures
        forall|i: int| 0 <= i < cs.len() ==> snap_wf(#[trigger] cs[i]),
    decreases cs.len(),
{
    if cs.len() > 0 {
        lemma_snaps_wf_index(cs.skip(1));
        assert(forall|i: int| 1 <= i < cs.len() ==> cs.skip(1)[i - 1] == cs[i]);
    }
}

/// The height of a snapshot tree: one more than its tallest child.
pub open spec fn snap_height(s: Snapshot) -> nat
    decreases s,
{
    1 + snaps_height(s.children@)
}

/// The height of the tallest snapshot of the list.
pub open spec fn snaps_height(cs: Seq<Snapshot>) -> nat
    decreases cs,
{
    if cs.len() == 0 {
        0
    } else if snap_height(cs[0]) >= snaps_height(cs.skip(1)) {
        snap_height(cs[0])
    } else {
        snaps_height(cs.skip(1))
    }
}

pub proof fn lemma_child_height(cs: Seq<Snapshot>, i: int)
    requires
        0 <= i < cs.len(),
    ensures
        snap_height(cs[i]) <= snaps_height(cs),
    decreases cs.len(),
{
    if i > 0 {
        lemma_child_height(cs.skip(1), i - 1);
        assert(cs.skip(1)[i - 1] == cs[i]);
    }
}

impl Snapshot {
    /// A snapshot of a plain container named `name`.
    pub fn new(name: &str) -> (r: Snapshot)
        ensures
            snap_wf(r),
            snap_view(r) == (SnapshotView {
                id: None,
                file_type: None,
                meta: None,
                path: None,
                name: name@,
                class: "Folder"@,
                properties: Map::<Seq<char>, ValueView>::empty(),
                children: Seq::<SnapshotView>::empty(),
            }),
    {
        let r = Snapshot {
            id: None,
            file_type: None,
            meta: None,
            path: None,
            name: name.to_owned(),
            class: "Folder".to_owned(),
            properties: Dict::new(),
            children: Vec::new(),
        };
        proof {
            assert(snaps_view(r.children@) =~= Seq::<SnapshotView>::empty());
        }
        r
    }

    pub fn with_id(self, id: u64) -> (r: Snapshot)
        ensures
            snap_view(r) == (SnapshotView { id: Some(id), ..snap_view(self) }),
            snap_wf(r) == snap_wf(self),
    {
        Snapshot { id: Some(id), ..self }
    }

    pub fn with_file_type(self, file_type: FileType) -> (r: Snapshot)
        ensures
            snap_view(r) == (SnapshotView { file_type: Some(file_type), ..snap_view(self) }),
            snap_wf(r) == snap_wf(self),
    {
        Snapshot { file_type: Some(file_type), ..self }
    }

    pub fn with_meta(self, meta: Meta) -> (r: Snapshot)
        ensures
            snap_view(r) == (SnapshotView { meta: Some(meta@), ..snap_view(self) }),
            snap_wf(self) && meta.wf() ==> snap_wf(r),
    {
        Snapshot { meta: Some(meta), ..self }
    }

    pub fn with_path(self, path: &str) -> (r: Snapshot)
        ensures
            snap_view(r) == (SnapshotView { path: Some(path@), ..snap_view(self) }),
            snap_wf(r) == snap_wf(self),
    {
        Snapshot { path: Some(path.to_owned()), ..self }
    }

    pub fn with_name(self, name: &str) -> (r: Snapshot)
        ensures
            snap_view(r) == (SnapshotView { name: name@, ..snap_view(self) }),
            snap_wf(r) == snap_wf(self),
    {
        Snapshot { name: name.to_owned(), ..self }
    }

    pub fn with_class(self, class: &str) -> (r: Snapshot)
        ensures
            snap_view(r) == (SnapshotView { class: class@, ..snap_view(self) }),
            snap_wf(r) == snap_wf(self),
    {
        Snapshot { class: class.to_owned(), ..self }
    }

    pub fn with_properties(self, properties: Properties) -> (r: Snapshot)
        ensures
            snap_view(r) == (SnapshotView { properties: properties@, ..snap_view(self) }),
            snap_wf(self) && properties.wf() ==> snap_wf(r),
    {
        Snapshot { properties, ..self }
    }

    pub fn with_children(self, children: Vec<Snapshot>) -> (r: Snapshot)
        ensures
            snap_view(r) == (SnapshotView {
                children: snaps_view(children@),
                ..snap_view(self)
            }),
            snap_wf(self) && snaps_wf(children@) ==> snap_wf(r),
    {
        Snapshot { children, ..self }
    }

    pub fn set_id(&mut self, id: u64)
        ensures
            snap_view(*final(self)) == (SnapshotView { id: Some(id), ..snap_view(*old(self)) }),
            snap_wf(*final(self)) == snap_wf(*old(self)),
    {
        self.id = Some(id);
    }

    pub fn set_file_type(&mut self, file_type: FileType)
        ensures
            snap_view(*final(self)) == (SnapshotView {
                file_type: Some(file_type),
                ..snap_view(*old(self))
            }),
            snap_wf(*final(self)) == snap_wf(*old(self)),
    {
        self.file_type = Some(file_type);
    }

    pub fn set_meta(&mut self, meta: Meta)
        ensures
            snap_view(*final(self)) == (SnapshotView {
                meta: Some(meta@),
                ..snap_view(*old(self))
            }),
            snap_wf(*old(self)) && meta.wf() ==> snap_wf(*final(self)),
    {
        self.meta = Some(meta);
    }

    pub fn set_path(&mut self, path: &str)
        ensures
            snap_view(*final(self)) == (SnapshotView {
                path: Some(path@),
                ..snap_view(*old(self))
            }),
            snap_wf(*final(self)) == snap_wf(*old(self)),
    {
        self.path = Some(path.to_owned());
    }

    pub fn set_name(&mut self, name: &str)
        ensures
            snap_view(*final(self)) == (SnapshotView { name: name@, ..snap_view(*old(self)) }),
            snap_wf(*final(self)) == snap_wf(*old(self)),
    {
        self.name = name.to_owned();
    }

    pub fn set_class(&mut self, class: &str)
        ensures
            snap_view(*final(self)) == (SnapshotView {
                class: class@,
                ..snap_view(*old(self))
            }),
            snap_wf(*final(self)) == snap_wf(*old(self)),
    {
        self.class = class.to_owned();
    }

    pub fn set_properties(&mut self, properties: Properties)
        ensures
            snap_view(*final(self)) == (SnapshotView {
                properties: properties@,
                ..snap_view(*old(self))
            }),
            snap_wf(*old(self)) && properties.wf() ==> snap_wf(*final(self)),
    {
        self.properties = properties;
    }

    pub fn set_children(&mut self, children: Vec<Snapshot>)
        ensures
            snap_view(*final(self)) == (SnapshotView {
                children: snaps_view(children@),
                ..snap_view(*old(self))
            }),
            snap_wf(*old(self)) && snaps_wf(children@) ==> snap_wf(*final(self)),
    {
        self.children = children;
    }

    /// Adds one property, replacing an equally named one.
    pub fn add_property(&mut self, name: &str, value: crate::value::Value)
        requires
            old(self).properties.wf(),
        ensures
            snap_view(*final(self)) == (SnapshotView {
                properties: snap_view(*old(self)).properties.insert(name@, value@),
                ..snap_view(*old(self))
            }),
            snap_wf(*old(self)) ==> snap_wf(*final(self)),
    {
        self.properties.insert(name, value);
    }

    /// Adds one child at the end.
    pub fn add_child(&mut self, child: Snapshot)
        ensures
            snap_view(*final(self)) == (SnapshotView {
                children: snap_view(*old(self)).children.push(snap_view(child)),
                ..snap_view(*old(self))
            }),
            snap_wf(*old(self)) && snap_wf(child) ==> snap_wf(*final(self)),
    {
        let ghost prev = self.children@;
        self.children.push(child);
        proof {
            lemma_snaps_push(prev, child);
            if snap_wf(*old(self)) && snap_wf(child) {
                lemma_snaps_wf_push(prev, child);
            }
        }
    }

    /// Adds every entry of `properties`; on a shared key the new entry
    /// wins.
    pub fn extend_properties(&mut self, properties: &Properties)
        requires
            old(self).properties.wf(),
            properties.wf(),
        ensures
            snap_view(*final(self)) == (SnapshotView {
                properties: snap_view(*old(self)).properties.union_prefer_right(
                    properties@,
                ),
                ..snap_view(*old(self))
            }),
            snap_wf(*old(self)) ==> snap_wf(*final(self)),
    {
        crate::value::extend_props(&mut self.properties, properties);
    }

    /// Adds every child of `children` at the end, in order.
    pub fn extend_children(&mut self, children: Vec<Snapshot>)
        ensures
            snap_view(*final(self)) == (SnapshotView {
                children: snap_view(*old(self)).children + snaps_view(children@),
                ..snap_view(*old(self))
            }),
            snap_wf(*old(self)) && snaps_wf(children@) ==> snap_wf(*final(self)),
    {
        let ghost gcs = children@;
        let mut rest = children;
        let ghost done: int = 0;
        proof {
            lemma_snaps_view_index(gcs);
            assert(snaps_view(self.children@) + snaps_view(gcs).take(0) =~= snaps_view(
                self.children@,
            ));
        }
        let n = rest.len();
        let mut i: usize = 0;
        while i < n
            invariant
                i <= n,
                n == gcs.len(),
                rest@ == gcs.skip(i as int),
                snaps_view(self.children@) == snaps_view(old(self).children@)
                    + snaps_view(gcs).take(i as int),
                snaps_wf(old(self).children@) && snaps_wf(gcs) ==> snaps_wf(
                    self.children@,
                ),
                self.id == old(self).id,
                self.file_type == old(self).file_type,
                self.meta == old(self).meta,
                self.path == old(self).path,
                self.name == old(self).name,
                self.class == old(self).class,
                self.properties == old(self).properties,
            decreases n - i,
        {
            let ghost prevr = rest@;
            let child = rest.remove(0);
            proof {
                assert(child == gcs[i as int]);
                assert(rest@ =~= gcs.skip(i + 1));
                lemma_snaps_view_index(gcs);
                lemma_snaps_wf_index_cond(gcs, i as int);
            }
            let ghost prev = self.children@;
            self.children.push(child);
            proof {
                lemma_snaps_push(prev, child);
                assert(snaps_view(self.children@) =~= snaps_view(old(self).children@)
                    + snaps_view(gcs).take(i + 1));
                if snaps_wf(old(self).children@) && snaps_wf(gcs) {
                    lemma_snaps_wf_push(prev, child);
                }
            }
            i += 1;
        }
        proof {
            assert(snaps_view(gcs).take(n as int) =~= snaps_view(gcs));
            assert(snap_view(*final(self)) =~= (SnapshotView {
                children: snap_view(*old(self)).children + snaps_view(gcs),
                ..snap_view(*old(self))
            }));
        }
    }

    /// Merges `meta` into this snapshot's context, or installs it when
    /// none is set yet.
    pub fn extend_meta(&mut self, meta: Meta)
        requires
            meta.wf(),
        ensures
            snap_wf(*old(self)) ==> snap_wf(*final(self)),
            old(self).meta is None ==> snap_view(*final(self)) == (SnapshotView {
                meta: Some(meta@),
                ..snap_view(*old(self))
            }),
            old(self).meta matches Some(m) ==> (snap_view(*final(self)).meta matches
                Some(mv) && mv.sync_rules == m@.sync_rules + meta@.sync_rules
                && mv.ignore_globs == m@.ignore_globs + meta@.ignore_globs
                && mv.project_data == (if meta@.project_data is Some {
                meta@.project_data
            } else {
                m@.project_data
            })),
            snap_view(*final(self)).id == snap_view(*old(self)).id,
            snap_view(*final(self)).name == snap_view(*old(self)).name,
            snap_view(*final(self)).class == snap_view(*old(self)).class,
            snap_view(*final(self)).properties == snap_view(*old(self)).properties,
            snap_view(*final(self)).children == snap_view(*old(self)).children,
            snap_view(*final(self)).path == snap_view(*old(self)).path,
            snap_view(*final(self)).file_type == snap_view(*old(self)).file_type,
    {
        let mut current: Option<Meta> = None;
        core::mem::swap(&mut self.meta, &mut current);
        match current {
            Some(mut m) => {
                m.extend(meta);
                self.meta = Some(m);
            },
            None => {
                self.meta = Some(meta);
            },
        }
    }

    /// Applies a pinpoint project override: when the override aims at
    /// exactly the path this snapshot came from, its name, class and
    /// properties are taken over.
    pub fn apply_project_data(self, meta: &Meta, path: &str) -> (r: Snapshot)
        requires
            snap_wf(self),
            meta.wf(),
        ensures
            snap_wf(r),
            meta@.project_data is None ==> r == self,
            meta@.project_data matches Some(d) ==> (if d.applies_to != path@ {
                r == self
            } else {
                snap_view(r).name == d.name && snap_view(r).class == (if d.class is Some {
                    d.class->0
                } else {
                    snap_view(self).class
                }) && snap_view(r).properties == (match d.properties {
                    Some(ps) => snap_view(self).properties.union_prefer_right(ps),
                    None => snap_view(self).properties,
                }) && snap_view(r).children == snap_view(self).children && snap_view(
                    r,
                ).id == snap_view(self).id && snap_view(r).path == snap_view(self).path
                    && snap_view(r).file_type == snap_view(self).file_type && snap_view(
                    r,
                ).meta == snap_view(self).meta
            }),
    {
        let mut s = self;
        match &meta.project_data {
            Some(project_data) => {
                if !crate::text::str_eq(project_data.applies_to.as_str(), path) {
                    return s;
                }
                s.set_name(project_data.name.as_str());
                match &project_data.class {
                    Some(class) => {
                        s.set_class(class.as_str());
                    },
                    None => {},
                }
                match &project_data.properties {
                    Some(properties) => {
                        s.extend_properties(properties);
                    },
                    None => {},
                }
                s
            },
            None => s,
        }
    }
}

pub proof fn lemma_snaps_push(cs: Seq<Snapshot>, c: Snapshot)
    ensures
        snaps_view(cs.push(c)) == snaps_view(cs).push(snap_view(c)),
    decreases cs.len(),
{
    if cs.len() == 0 {
        assert(cs.push(c).skip(1) =~= Seq::<Snapshot>::empty());
        assert(cs.push(c)[0] == c);
        assert(snaps_view(Seq::<Snapshot>::empty()) =~= Seq::<SnapshotView>::empty());
        assert(snaps_view(cs) =~= Seq::<SnapshotView>::empty());
        assert(snaps_view(cs.push(c)) =~= snaps_view(cs).push(snap_view(c)));
    } else {
        assert(cs.push(c).skip(1) =~= cs.skip(1).push(c));
        assert(cs.push(c)[0] == cs[0]);
        lemma_snaps_push(cs.skip(1), c);
        assert(snaps_view(cs.push(c)) =~= snaps_view(cs).push(snap_view(c)));
    }
}

pub proof fn lemma_snaps_wf_push(cs: Seq<Snapshot>, c: Snapshot)
    requires
        snaps_wf(cs),
        snap_wf(c),
    ensures
        snaps_wf(cs.push(c)),
    decreases cs.len(),
{
    if cs.len() == 0 {
        assert(cs.push(c)[0] == c);
        assert(cs.push(c).skip(1) =~= Seq::<Snapshot>::empty());
        assert(snaps_wf(Seq::<Snapshot>::empty()));
        assert(snaps_wf(cs.push(c)));
    } else {
        assert(cs.push(c)[0] == cs[0]);
        assert(cs.push(c).skip(1) =~= cs.skip(1).push(c));
        lemma_snaps_wf_push(cs.skip(1), c);
    }
}

/// Well-formedness of one list element, from the list's own.
pub proof fn lemma_snaps_wf_index_cond(cs: Seq<Snapshot>, i: int)
    requires
        0 <= i < cs.len(),
    ensures
        snaps_wf(cs) ==> snap_wf(cs[i]),
{
    if snaps_wf(cs) {
        lemma_snaps_wf_index(cs);
    }
}

/// A remote-originated addition: the subtree to add and the reference
/// of the parent to put it under.
pub struct AddedSnapshot {
    pub id: u64,
    pub parent: u64,
    pub name: String,
    pub class: String,
    pub properties: Properties,
    pub meta: Option<Meta>,
    pub children: Vec<Snapshot>,
}

impl AddedSnapshot {
    pub open spec fn wf(&self) -> bool {
        &&& self.properties.wf()
        &&& match &self.meta {
            Some(m) => m.wf(),
            None => true,
        }
        &&& snaps_wf(self.children@)
    }

    /// The plain snapshot this addition describes.
    pub fn to_snapshot(self) -> (r: Snapshot)
        ensures
            r.id == Some(self.id),
            r.file_type is None,
            r.meta == self.meta,
            r.path is None,
            r.name == self.name,
            r.class == self.class,
            r.properties == self.properties,
            r.children == self.children,
            self.wf() ==> snap_wf(r),
    {
        Snapshot {
            id: Some(self.id),
            file_type: None,
            meta: self.meta,
            path: None,
            name: self.name,
            class: self.class,
            properties: self.properties,
            children: self.children,
        }
    }
}

/// A remote-originated update: the reference of the instance and the
/// fields that change; an absent field means unchanged.
pub struct UpdatedSnapshot {
    pub id: u64,
    pub name: Option<String>,
    pub class: Option<String>,
    pub properties: Option<Properties>,
    pub meta: Option<Meta>,
}

impl UpdatedSnapshot {
    pub open spec fn wf(&self) -> bool {
        match &self.properties {
            Some(p) => p.wf(),
            None => true,
        }
    }
}

} // verus!

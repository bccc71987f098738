//! Per-tree-node provenance: which on-disk entries realize an instance.

use vstd::prelude::*;

use crate::project::ProjectNodeData;
use crate::project::ProjectNodeView;

verus! {

/// One on-disk entry belonging to an instance.
pub enum SourceEntry {
    FileEntry(String),
    FolderEntry(String),
    DataEntry(String),
    ProjectEntry(String),
}

/// The mathematical value of a source entry.
pub enum SourceEntryView {
    FileEntry(Seq<char>),
    FolderEntry(Seq<char>),
    DataEntry(Seq<char>),
    ProjectEntry(Seq<char>),
}

impl View for SourceEntry {
    type V = SourceEntryView;

    open spec fn view(&self) -> SourceEntryView {
        match self {
            SourceEntry::FileEntry(p) => SourceEntryView::FileEntry(p@),
            SourceEntry::FolderEntry(p) => SourceEntryView::FolderEntry(p@),
            SourceEntry::DataEntry(p) => SourceEntryView::DataEntry(p@),
            SourceEntry::ProjectEntry(p) => SourceEntryView::ProjectEntry(p@),
        }
    }
}

impl SourceEntry {
    /// The path of this entry.
    pub fn path(&self) -> (r: &str)
        ensures
            r@ == self@.path_view(),
    {
        match self {
            SourceEntry::FileEntry(p) => p.as_str(),
            SourceEntry::FolderEntry(p) => p.as_str(),
            SourceEntry::DataEntry(p) => p.as_str(),
            SourceEntry::ProjectEntry(p) => p.as_str(),
        }
    }

    pub fn clone_entry(&self) -> (r: SourceEntry)
        ensures
            r@ == self@,
    {
        match self {
            SourceEntry::FileEntry(p) => SourceEntry::FileEntry(p.clone()),
            SourceEntry::FolderEntry(p) => SourceEntry::FolderEntry(p.clone()),
            SourceEntry::DataEntry(p) => SourceEntry::DataEntry(p.clone()),
            SourceEntry::ProjectEntry(p) => SourceEntry::ProjectEntry(p.clone()),
        }
    }
}

impl SourceEntryView {
    /// The path this entry carries.
    pub open spec fn path_view(self) -> Seq<char> {
        match self {
            SourceEntryView::FileEntry(p) => p,
            SourceEntryView::FolderEntry(p) => p,
            SourceEntryView::DataEntry(p) => p,
            SourceEntryView::ProjectEntry(p) => p,
        }
    }
}

/// Where an instance's on-disk representation lives.
pub enum SourceKind {
    Path(String),
    Project(ProjectSourceInfo),
    Absent,
}

/// A source rooted in a project file's node.
pub struct ProjectSourceInfo {
    pub name: String,
    pub project_path: String,
    pub node: ProjectNodeData,
    pub node_path: String,
}

pub enum SourceKindView {
    Path(Seq<char>),
    Project(ProjectSourceInfoView),
    Absent,
}

pub struct ProjectSourceInfoView {
    pub name: Seq<char>,
    pub project_path: Seq<char>,
    pub node: ProjectNodeView,
    pub node_path: Seq<char>,
}

impl View for ProjectSourceInfo {
    type V = ProjectSourceInfoView;

    open spec fn view(&self) -> ProjectSourceInfoView {
        ProjectSourceInfoView {
            name: self.name@,
            project_path: self.project_path@,
            node: self.node@,
            node_path: self.node_path@,
        }
    }
}

impl View for SourceKind {
    type V = SourceKindView;

    open spec fn view(&self) -> SourceKindView {
        match self {
            SourceKind::Path(p) => SourceKindView::Path(p@),
            SourceKind::Project(i) => SourceKindView::Project(i@),
            SourceKind::Absent => SourceKindView::Absent,
        }
    }
}

/// The views of a list of source entries, in order.
pub open spec fn entry_views(es: Seq<SourceEntry>) -> Seq<SourceEntryView> {
    es.map_values(|e: SourceEntry| e@)
}

/// The provenance record of one tree node: its kind plus the list of
/// relevant on-disk entries.
pub struct Source {
    pub kind: SourceKind,
    pub relevant: Vec<SourceEntry>,
}

pub struct SourceView {
    pub kind: SourceKindView,
    pub relevant: Seq<SourceEntryView>,
}

impl View for Source {
    type V = SourceView;

    open spec fn view(&self) -> SourceView {
        SourceView {
            kind: self.kind@,
            relevant: entry_views(self.relevant@),
        }
    }
}

/// The first file entry among `rel`, scanning from the front.
pub open spec fn first_file(rel: Seq<SourceEntryView>) -> Option<Seq<char>>
    decreases rel.len(),
{
    if rel.len() == 0 {
        None
    } else if rel[0] is FileEntry {
        Some(rel[0].path_view())
    } else {
        first_file(rel.skip(1))
    }
}

/// The first folder entry among `rel`.
pub open spec fn first_folder(rel: Seq<SourceEntryView>) -> Option<Seq<char>>
    decreases rel.len(),
{
    if rel.len() == 0 {
        None
    } else if rel[0] is FolderEntry {
        Some(rel[0].path_view())
    } else {
        first_folder(rel.skip(1))
    }
}

/// The first data entry among `rel`.
pub open spec fn first_data(rel: Seq<SourceEntryView>) -> Option<Seq<char>>
    decreases rel.len(),
{
    if rel.len() == 0 {
        None
    } else if rel[0] is DataEntry {
        Some(rel[0].path_view())
    } else {
        first_data(rel.skip(1))
    }
}

/// Every entry of `rel` except data entries, in order.
pub open spec fn without_data(rel: Seq<SourceEntryView>) -> Seq<SourceEntryView> {
    rel.filter(|e: SourceEntryView| !(e is DataEntry))
}

impl Source {
    /// A source with no on-disk representation.
    pub fn absent() -> (r: Source)
        ensures
            r.wf(),
            r@.kind is Absent,
            r@.relevant == Seq::<SourceEntryView>::empty(),
    {
        let r = Source { kind: SourceKind::Absent, relevant: Vec::new() };
        proof {
            assert(r@.relevant =~= Seq::<SourceEntryView>::empty());
        }
        r
    }

    /// A source backed by the single file `path`.
    pub fn file(path: &str) -> (r: Source)
        ensures
            r.wf(),
            r@.kind == SourceKindView::Path(path@),
            r@.relevant == seq![SourceEntryView::FileEntry(path@)],
    {
        let mut relevant: Vec<SourceEntry> = Vec::new();
        relevant.push(SourceEntry::FileEntry(path.to_owned()));
        let r = Source { kind: SourceKind::Path(path.to_owned()), relevant };
        proof {
            assert(r@.relevant =~= seq![SourceEntryView::FileEntry(path@)]);
        }
        r
    }

    /// A source backed by the plain directory `path`.
    pub fn directory(path: &str) -> (r: Source)
        ensures
            r.wf(),
            r@.kind == SourceKindView::Path(path@),
            r@.relevant == seq![SourceEntryView::FolderEntry(path@)],
    {
        let mut relevant: Vec<SourceEntry> = Vec::new();
        relevant.push(SourceEntry::FolderEntry(path.to_owned()));
        let r = Source { kind: SourceKind::Path(path.to_owned()), relevant };
        proof {
            assert(r@.relevant =~= seq![SourceEntryView::FolderEntry(path@)]);
        }
        r
    }

    /// A source backed by the folder `folder` whose body is the file
    /// `file` inside it.
    pub fn child_file(folder: &str, file: &str) -> (r: Source)
        ensures
            r.wf(),
            r@.kind == SourceKindView::Path(folder@),
            r@.relevant == seq![
                SourceEntryView::FolderEntry(folder@),
                SourceEntryView::FileEntry(file@),
            ],
    {
        let mut relevant: Vec<SourceEntry> = Vec::new();
        relevant.push(SourceEntry::FolderEntry(folder.to_owned()));
        relevant.push(SourceEntry::FileEntry(file.to_owned()));
        let r = Source { kind: SourceKind::Path(folder.to_owned()), relevant };
        proof {
            assert(r@.relevant =~= seq![
                SourceEntryView::FolderEntry(folder@),
                SourceEntryView::FileEntry(file@),
            ]);
        }
        r
    }

    /// A source backed by a node of a project file.
    pub fn project(name: &str, project_path: &str, node: ProjectNodeData, node_path: &str) -> (r:
        Source)
        requires
            node.wf(),
        ensures
            r.wf(),
            r@.kind == SourceKindView::Project(
                ProjectSourceInfoView {
                    name: name@,
                    project_path: project_path@,
                    node: node@,
                    node_path: node_path@,
                },
            ),
            r@.relevant == seq![SourceEntryView::ProjectEntry(project_path@)],
    {
        let mut relevant: Vec<SourceEntry> = Vec::new();
        relevant.push(SourceEntry::ProjectEntry(project_path.to_owned()));
        let r = Source {
            kind: SourceKind::Project(
                ProjectSourceInfo {
                    name: name.to_owned(),
                    project_path: project_path.to_owned(),
                    node,
                    node_path: node_path.to_owned(),
                },
            ),
            relevant,
        };
        proof {
            assert(r@.relevant =~= seq![SourceEntryView::ProjectEntry(project_path@)]);
        }
        r
    }

    /// This source with its relevant entries replaced.
    pub fn with_relevants(self, relevant: Vec<SourceEntry>) -> (r: Source)
        ensures
            r.wf() == self.wf(),
            r@.kind == self@.kind,
            r@.relevant == entry_views(relevant@),
    {
        Source { kind: self.kind, relevant }
    }

    /// The path of the first file entry, when one exists.
    pub fn get_file(&self) -> (r: Option<String>)
        ensures
            match r {
                Some(p) => first_file(self@.relevant) == Some(p@),
                None => first_file(self@.relevant) is None,
            },
    {
        let n = self.relevant.len();
        let mut i: usize = 0;
        proof {
            assert(self@.relevant.skip(0) =~= self@.relevant);
        }
        while i < n
            invariant
                i <= n,
                n == self.relevant@.len(),
                first_file(self@.relevant) == first_file(self@.relevant.skip(i as int)),
                forall|j: int|
                    0 <= j < i ==> !(#[trigger] self@.relevant[j] is FileEntry),
            decreases n - i,
        {
            proof {
                assert(self@.relevant.skip(i as int)[0] == self@.relevant[i as int]);
                assert(self@.relevant.skip(i as int).skip(1) =~= self@.relevant.skip(
                    i + 1,
                ));
            }
            match &self.relevant[i] {
                SourceEntry::FileEntry(p) => {
                    return Some(p.clone());
                },
                _ => {},
            }
            i += 1;
        }
        proof {
            assert(self@.relevant.skip(n as int) =~= Seq::<SourceEntryView>::empty());
        }
        None
    }

    /// The path of the first folder entry, when one exists.
    pub fn get_folder(&self) -> (r: Option<String>)
        ensures
            match r {
                Some(p) => first_folder(self@.relevant) == Some(p@),
                None => first_folder(self@.relevant) is None,
            },
    {
        let n = self.relevant.len();
        let mut i: usize = 0;
        proof {
            assert(self@.relevant.skip(0) =~= self@.relevant);
        }
        while i < n
            invariant
                i <= n,
                n == self.relevant@.len(),
                first_folder(self@.relevant) == first_folder(
                    self@.relevant.skip(i as int),
                ),
            decreases n - i,
        {
            proof {
                assert(self@.relevant.skip(i as int)[0] == self@.relevant[i as int]);
                assert(self@.relevant.skip(i as int).skip(1) =~= self@.relevant.skip(
                    i + 1,
                ));
            }
            match &self.relevant[i] {
                SourceEntry::FolderEntry(p) => {
                    return Some(p.clone());
                },
                _ => {},
            }
            i += 1;
        }
        proof {
            assert(self@.relevant.skip(n as int) =~= Seq::<SourceEntryView>::empty());
        }
        None
    }

    /// The path of the first data entry, when one exists.
    pub fn get_data(&self) -> (r: Option<String>)
        ensures
            match r {
                Some(p) => first_data(self@.relevant) == Some(p@),
                None => first_data(self@.relevant) is None,
            },
    {
        let n = self.relevant.len();
        let mut i: usize = 0;
        proof {
            assert(self@.relevant.skip(0) =~= self@.relevant);
        }
        while i < n
            invariant
                i <= n,
                n == self.relevant@.len(),
                first_data(self@.relevant) == first_data(self@.relevant.skip(i as int)),
            decreases n - i,
        {
            proof {
                assert(self@.relevant.skip(i as int)[0] == self@.relevant[i as int]);
                assert(self@.relevant.skip(i as int).skip(1) =~= self@.relevant.skip(
                    i + 1,
                ));
            }
            match &self.relevant[i] {
                SourceEntry::DataEntry(p) => {
                    return Some(p.clone());
                },
                _ => {},
            }
            i += 1;
        }
        proof {
            assert(self@.relevant.skip(n as int) =~= Seq::<SourceEntryView>::empty());
        }
        None
    }

    /// Drops every data entry and, when `data` names a path, records it
    /// as the single data entry.
    pub fn set_data(&mut self, data: Option<String>)
        ensures
            final(self).wf() == old(self).wf(),
            final(self)@.kind == old(self)@.kind,
            final(self)@.relevant == match data {
                Some(p) => without_data(old(self)@.relevant).push(
                    SourceEntryView::DataEntry(p@),
                ),
                None => without_data(old(self)@.relevant),
            },
    {
        let n = self.relevant.len();
        let mut out: Vec<SourceEntry> = Vec::new();
        let mut i: usize = 0;
        proof {
            assert(entry_views(out@) =~= old(
                self,
            )@.relevant.take(0).filter(|e: SourceEntryView| !(e is DataEntry)));
        }
        while i < n
            invariant
                i <= n,
                n == self.relevant@.len(),
                self == old(self),
                entry_views(out@) == old(self)@.relevant.take(
                    i as int,
                ).filter(|e: SourceEntryView| !(e is DataEntry)),
            decreases n - i,
        {
            proof {
                assert(old(self)@.relevant.take(i + 1).drop_last() =~= old(
                    self,
                )@.relevant.take(i as int));
                assert(old(self)@.relevant.take(i + 1).last() == old(self)@.relevant[
                    i as int
                ]);
                reveal(Seq::filter);
            }
            let keep = match &self.relevant[i] {
                SourceEntry::DataEntry(_) => false,
                _ => true,
            };
            if keep {
                let e = self.relevant[i].clone_entry();
                out.push(e);
                proof {
                    assert(entry_views(out@) =~= old(
                        self,
                    )@.relevant.take(i + 1).filter(
                        |e: SourceEntryView| !(e is DataEntry),
                    ));
                }
            } else {
                proof {
                    assert(entry_views(out@) =~= old(
                        self,
                    )@.relevant.take(i + 1).filter(
                        |e: SourceEntryView| !(e is DataEntry),
                    ));
                }
            }
            i += 1;
        }
        proof {
            assert(old(self)@.relevant.take(n as int) =~= old(self)@.relevant);
        }
        match data {
            Some(p) => {
                out.push(SourceEntry::DataEntry(p));
                self.relevant = out;
                proof {
                    assert(self@.relevant =~= without_data(
                        old(self)@.relevant,
                    ).push(SourceEntryView::DataEntry(p@)));
                }
            },
            None => {
                self.relevant = out;
                proof {
                    assert(self@.relevant =~= without_data(old(self)@.relevant));
                }
            },
        }
    }

    /// Adds a file entry for `path` at the end of the relevant list.
    pub fn add_file(&mut self, path: &str)
        ensures
            final(self).wf() == old(self).wf(),
            final(self)@.kind == old(self)@.kind,
            final(self)@.relevant == old(self)@.relevant.push(
                SourceEntryView::FileEntry(path@),
            ),
    {
        self.relevant.push(SourceEntry::FileEntry(path.to_owned()));
        proof {
            assert(self@.relevant =~= old(self)@.relevant.push(
                SourceEntryView::FileEntry(path@),
            ));
        }
    }

    /// Adds a data entry for `path` at the end of the relevant list.
    pub fn add_data(&mut self, path: &str)
        ensures
            final(self).wf() == old(self).wf(),
            final(self)@.kind == old(self)@.kind,
            final(self)@.relevant == old(self)@.relevant.push(
                SourceEntryView::DataEntry(path@),
            ),
    {
        self.relevant.push(SourceEntry::DataEntry(path.to_owned()));
        proof {
            assert(self@.relevant =~= old(self)@.relevant.push(
                SourceEntryView::DataEntry(path@),
            ));
        }
    }

    /// The node of a project-rooted source is well formed.
    pub open spec fn wf(&self) -> bool {
        match &self.kind {
            SourceKind::Project(info) => info.node.wf(),
            _ => true,
        }
    }

    pub fn clone_source(&self) -> (r: Source)
        requires
            self.wf(),
        ensures
            r@ == self@,
            r.wf(),
    {
        let kind = match &self.kind {
            SourceKind::Path(p) => SourceKind::Path(p.clone()),
            SourceKind::Project(info) => SourceKind::Project(
                ProjectSourceInfo {
                    name: info.name.clone(),
                    project_path: info.project_path.clone(),
                    node: info.node.clone_node(),
                    node_path: info.node_path.clone(),
                },
            ),
            SourceKind::Absent => SourceKind::Absent,
        };
        let n = self.relevant.len();
        let mut relevant: Vec<SourceEntry> = Vec::new();
        let mut i: usize = 0;
        while i < n
            invariant
                i <= n,
                n == self.relevant@.len(),
                entry_views(relevant@) == self@.relevant.take(i as int),
            decreases n - i,
        {
            let ghost prev = relevant@;
            let e = self.relevant[i].clone_entry();
            relevant.push(e);
            proof {
                assert(entry_views(relevant@) =~= entry_views(prev).push(e@));
                assert(entry_views(prev).push(e@) =~= self@.relevant.take(i + 1));
            }
            i += 1;
        }
        proof {
            assert(self@.relevant.take(n as int) =~= self@.relevant);
        }
        let r = Source { kind, relevant };
        proof {
            assert(r@.relevant =~= self@.relevant);
        }
        r
    }
}

} // verus!

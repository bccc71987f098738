//! Project files: a declarative tree of named nodes that owns part of
//! the instance tree in place of loose files.
//!
//! The node tree is kept flat: each node is stored under its node path,
//! the `/`-joined list of names from the root, the root itself under the
//! empty path.

use vstd::prelude::*;

use crate::dict;
use crate::dict::Dict;
use crate::glob::Glob;
use crate::meta::SyncRule;
use crate::meta::SyncRuleView;
use crate::text;
use crate::value::clone_props;
use crate::value::Properties;
use crate::value::ValueView;

verus! {

/// The views of a list of tags, in order.
pub open spec fn tag_views(ts: Seq<String>) -> Seq<Seq<char>> {
    ts.map_values(|t: String| t@)
}

/// One node of a project file's tree.
pub struct ProjectNodeData {
    pub class_name: Option<String>,
    pub properties: Properties,
    pub tags: Vec<String>,
    pub attributes: Option<Properties>,
    pub keep_unknowns: Option<bool>,
    pub path_redirect: Option<String>,
}

/// The mathematical value of a project node.
pub struct ProjectNodeView {
    pub class_name: Option<Seq<char>>,
    pub properties: Map<Seq<char>, ValueView>,
    pub tags: Seq<Seq<char>>,
    pub attributes: Option<Map<Seq<char>, ValueView>>,
    pub keep_unknowns: Option<bool>,
    pub path_redirect: Option<Seq<char>>,
}

impl View for ProjectNodeData {
    type V = ProjectNodeView;

    open spec fn view(&self) -> ProjectNodeView {
        ProjectNodeView {
            class_name: match &self.class_name {
                Some(c) => Some(c@),
                None => None,
            },
            properties: self.properties@,
            tags: tag_views(self.tags@),
            attributes: match &self.attributes {
                Some(a) => Some(a@),
                None => None,
            },
            keep_unknowns: self.keep_unknowns,
            path_redirect: match &self.path_redirect {
                Some(p) => Some(p@),
                None => None,
            },
        }
    }
}

impl ProjectNodeData {
    /// The node's property and attribute maps have no repeated keys.
    pub open spec fn wf(&self) -> bool {
        &&& self.properties.wf()
        &&& match &self.attributes {
            Some(a) => a.wf(),
            None => true,
        }
    }

    /// A node with a class and nothing else.
    pub fn empty() -> (r: ProjectNodeData)
        ensures
            r.wf(),
            r@.class_name is None,
            r@.properties == Map::<Seq<char>, ValueView>::empty(),
            r@.tags == Seq::<Seq<char>>::empty(),
            r@.attributes is None,
            r@.keep_unknowns is None,
            r@.path_redirect is None,
    {
        let r = ProjectNodeData {
            class_name: None,
            properties: Dict::new(),
            tags: Vec::new(),
            attributes: None,
            keep_unknowns: None,
            path_redirect: None,
        };
        proof {
            assert(r@.tags =~= Seq::<Seq<char>>::empty());
        }
        r
    }

    pub fn clone_node(&self) -> (r: ProjectNodeData)
        requires
            self.wf(),
        ensures
            r.wf(),
            r@ == self@,
    {
        let class_name = match &self.class_name {
            Some(c) => Some(c.clone()),
            None => None,
        };
        let attributes = match &self.attributes {
            Some(a) => Some(clone_props(a)),
            None => None,
        };
        let path_redirect = match &self.path_redirect {
            Some(p) => Some(p.clone()),
            None => None,
        };
        let n = self.tags.len();
        let mut tags: Vec<String> = Vec::new();
        let mut i: usize = 0;
        while i < n
            invariant
                i <= n,
                n == self.tags@.len(),
                tag_views(tags@) == tag_views(self.tags@).take(i as int),
            decreases n - i,
        {
            let ghost prev = tags@;
            let c = self.tags[i].clone();
            tags.push(c);
            proof {
                assert(tag_views(tags@) =~= tag_views(prev).push(c@));
                assert(tag_views(prev).push(c@) =~= tag_views(self.tags@).take(i + 1));
            }
            i += 1;
        }
        proof {
            assert(tag_views(self.tags@).take(n as int)
                =~= tag_views(self.tags@));
        }
        ProjectNodeData {
            class_name,
            properties: clone_props(&self.properties),
            tags,
            attributes,
            keep_unknowns: self.keep_unknowns,
            path_redirect,
        }
    }
}

/// A project file: its name, optional rule configuration, and the flat
/// table of its nodes keyed by node path.
pub struct ProjectFileData {
    pub name: String,
    pub sync_rules: Option<Vec<SyncRule>>,
    pub ignore_globs: Option<Vec<Glob>>,
    pub nodes: Dict<ProjectNodeData>,
}

/// The mathematical value of a project file.
pub struct ProjectFileView {
    pub name: Seq<char>,
    pub sync_rules: Option<Seq<SyncRuleView>>,
    pub ignore_globs: Option<Seq<Seq<char>>>,
    pub nodes: Map<Seq<char>, ProjectNodeView>,
}

impl View for ProjectFileData {
    type V = ProjectFileView;

    open spec fn view(&self) -> ProjectFileView {
        ProjectFileView {
            name: self.name@,
            sync_rules: match &self.sync_rules {
                Some(rs) => Some(crate::meta::rule_views(rs@)),
                None => None,
            },
            ignore_globs: match &self.ignore_globs {
                Some(gs) => Some(crate::meta::glob_pats(gs@)),
                None => None,
            },
            nodes: self.nodes@,
        }
    }
}

/// The node path of the child named `name` under `parent`.
pub open spec fn node_path_joined(parent: Seq<char>, name: Seq<char>) -> Seq<char> {
    if parent.len() == 0 {
        name
    } else {
        text::joined(parent, name)
    }
}

/// The node path of the child named `name` under `parent`.
pub fn join_node_path(parent: &str, name: &str) -> (r: String)
    ensures
        r@ == node_path_joined(parent@, name@),
{
    if parent.is_empty() {
        name.to_owned()
    } else {
        text::path_join(parent, name)
    }
}

impl ProjectFileData {
    /// The node table and every stored node are well formed.
    pub open spec fn wf(&self) -> bool {
        &&& self.nodes.wf()
        &&& forall|i: int|
            0 <= i < self.nodes.vals@.len() ==> (#[trigger] self.nodes.vals@[i]).wf()
    }

    /// A project with the given name and no nodes.
    pub fn empty(name: &str) -> (r: ProjectFileData)
        ensures
            r.wf(),
            r@.name == name@,
            r@.sync_rules is None,
            r@.ignore_globs is None,
            r@.nodes == Map::<Seq<char>, ProjectNodeView>::empty(),
    {
        ProjectFileData {
            name: name.to_owned(),
            sync_rules: None,
            ignore_globs: None,
            nodes: Dict::new(),
        }
    }

    /// The node stored at `node_path`, when one exists.
    pub fn get_node(&self, node_path: &str) -> (r: Option<&ProjectNodeData>)
        requires
            self.wf(),
        ensures
            match r {
                Some(n) => self@.nodes.contains_key(node_path@) && n@ == self@.nodes[
                    node_path@
                ] && n.wf(),
                None => !self@.nodes.contains_key(node_path@),
            },
    {
        match self.nodes.get(node_path) {
            Some(n) => {
                proof {
                    let i = choose|i: int|
                        0 <= i < self.nodes.vals@.len() && *n == self.nodes.vals@[i];
                    assert(self.nodes.vals@[i].wf());
                }
                Some(n)
            },
            None => None,
        }
    }

    /// Stores `node` at `node_path`, replacing what was there.
    pub fn set_node(&mut self, node_path: &str, node: ProjectNodeData)
        requires
            old(self).wf(),
            node.wf(),
        ensures
            final(self).wf(),
            final(self)@.nodes == old(self)@.nodes.insert(node_path@, node@),
            final(self)@.name == old(self)@.name,
            final(self)@.sync_rules == old(self)@.sync_rules,
            final(self)@.ignore_globs == old(self)@.ignore_globs,
    {
        self.nodes.insert(node_path, node);
        proof {
            assert(forall|i: int|
                0 <= i < self.nodes.vals@.len() ==> (#[trigger] self.nodes.vals@[i]).wf())
                by {
                assert(forall|i: int|
                    0 <= i < self.nodes.vals@.len() ==> old(
                        self,
                    ).nodes.vals@.contains(#[trigger] self.nodes.vals@[i])
                        || self.nodes.vals@[i] == node);
            }
        }
    }

    /// Removes the node at `node_path` and every node below it. Hands
    /// back whether that node existed.
    pub fn remove_subtree(&mut self, node_path: &str) -> (r: bool)
        requires
            old(self).wf(),
            node_path@.len() > 0,
        ensures
            final(self).wf(),
            r == old(self)@.nodes.contains_key(node_path@),
            forall|k: Seq<char>|
                #[trigger] final(self)@.nodes.contains_key(k) <==> old(
                    self,
                )@.nodes.contains_key(k) && !text::under(node_path@, k),
            forall|k: Seq<char>|
                #[trigger] final(self)@.nodes.contains_key(k) ==> final(self)@.nodes[k]
                    == old(self)@.nodes[k],
            final(self)@.name == old(self)@.name,
            final(self)@.sync_rules == old(self)@.sync_rules,
            final(self)@.ignore_globs == old(self)@.ignore_globs,
    {
        let existed = self.nodes.contains_key(node_path);
        let mut taken: Dict<ProjectNodeData> = Dict::new();
        core::mem::swap(&mut self.nodes, &mut taken);
        let (kept, _dropped) = dict::partition_under(taken, node_path);
        proof {
            assert(forall|i: int|
                0 <= i < kept.vals@.len() ==> (#[trigger] kept.vals@[i]).wf()) by {
                assert(forall|i: int|
                    0 <= i < kept.vals@.len() ==> old(self).nodes.vals@.contains(
                        #[trigger] kept.vals@[i],
                    ));
            }
        }
        self.nodes = kept;
        existed
    }

    /// Moves the node at `from_path`, and every node below it, to sit
    /// at `to_path` instead.
    pub fn rename_subtree(&mut self, from_path: &str, to_path: &str)
        requires
            old(self).wf(),
            from_path@.len() > 0,
            to_path@.len() > 0,
            forall|k: Seq<char>|
                old(self)@.nodes.contains_key(k) ==> !text::under(to_path@, k),
        ensures
            final(self).wf(),
            forall|k: Seq<char>|
                #[trigger] final(self)@.nodes.contains_key(k) <==> (old(
                    self,
                )@.nodes.contains_key(k) && !text::under(from_path@, k)) || (text::under(
                    to_path@,
                    k,
                ) && old(self)@.nodes.contains_key(
                    from_path@ + k.skip(to_path@.len() as int),
                )),
            forall|k: Seq<char>|
                #[trigger] final(self)@.nodes.contains_key(k) && !text::under(to_path@, k)
                    ==> final(self)@.nodes[k] == old(self)@.nodes[k],
            forall|k: Seq<char>|
                #[trigger] final(self)@.nodes.contains_key(k) && text::under(to_path@, k)
                    ==> final(self)@.nodes[k] == old(self)@.nodes[
                    from_path@ + k.skip(to_path@.len() as int)
                ],
            final(self)@.name == old(self)@.name,
            final(self)@.sync_rules == old(self)@.sync_rules,
            final(self)@.ignore_globs == old(self)@.ignore_globs,
    {
        let mut taken: Dict<ProjectNodeData> = Dict::new();
        core::mem::swap(&mut self.nodes, &mut taken);
        let renamed = dict::rename_prefix(taken, from_path, to_path);
        proof {
            assert(forall|i: int|
                0 <= i < renamed.vals@.len() ==> (#[trigger] renamed.vals@[i]).wf()) by {
                assert(forall|i: int|
                    0 <= i < renamed.vals@.len() ==> old(self).nodes.vals@.contains(
                        #[trigger] renamed.vals@[i],
                    ));
            }
        }
        self.nodes = renamed;
    }

    pub fn clone_project(&self) -> (r: ProjectFileData)
        requires
            self.wf(),
        ensures
            r.wf(),
            r@ == self@,
    {
        let sync_rules = match &self.sync_rules {
            Some(rs) => Some(crate::meta::clone_rules(rs)),
            None => None,
        };
        let ignore_globs = match &self.ignore_globs {
            Some(gs) => Some(crate::meta::clone_globs(gs)),
            None => None,
        };
        let n = self.nodes.len();
        let mut nodes: Dict<ProjectNodeData> = Dict::new();
        let mut i: usize = 0;
        proof {
            assert(dict::assoc_map(
                self.nodes.kseq().take(0),
                self.nodes.vseq().take(0),
            ) =~= Map::<Seq<char>, ProjectNodeView>::empty());
        }
        while i < n
            invariant
                i <= n,
                n == self.nodes.keys@.len(),
                self.wf(),
                nodes.wf(),
                nodes@ == dict::assoc_map(
                    self.nodes.kseq().take(i as int),
                    self.nodes.vseq().take(i as int),
                ),
                forall|j: int|
                    0 <= j < nodes.vals@.len() ==> (#[trigger] nodes.vals@[j]).wf(),
            decreases n - i,
        {
            let k = self.nodes.key_at(i);
            let v = self.nodes.val_at(i);
            proof {
                assert(self.nodes.vals@[i as int].wf());
            }
            let cv = v.clone_node();
            nodes.insert(k, cv);
            proof {
                assert(self.nodes.kseq().take(i + 1).drop_last() =~= self.nodes.kseq()
                    .take(i as int));
                assert(self.nodes.vseq().take(i + 1).drop_last() =~= self.nodes.vseq()
                    .take(i as int));
                assert(forall|j: int|
                    0 <= j < nodes.vals@.len() ==> (#[trigger] nodes.vals@[j]).wf());
            }
            i += 1;
        }
        proof {
            assert(self.nodes.kseq().take(n as int) =~= self.nodes.kseq());
            assert(self.nodes.vseq().take(n as int) =~= self.nodes.vseq());
        }
        ProjectFileData { name: self.name.clone(), sync_rules, ignore_globs, nodes }
    }
}

} // verus!

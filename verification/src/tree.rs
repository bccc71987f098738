//! The authoritative instance tree: an arena keyed by stable references,
//! each node carrying its data and its context.

use vstd::prelude::*;

use crate::dict;
use crate::meta::Meta;
use crate::meta::MetaView;
use crate::value::Properties;
use crate::value::ValueView;

verus! {

/// One instance of the tree.
pub struct TreeNode {
    pub name: String,
    pub class: String,
    pub properties: Properties,
    pub parent: u64,
    pub children: Vec<u64>,
    pub meta: Meta,
}

/// The mathematical value of a tree node.
pub struct TreeNodeView {
    pub name: Seq<char>,
    pub class: Seq<char>,
    pub properties: Map<Seq<char>, ValueView>,
    pub parent: u64,
    pub children: Seq<u64>,
    pub meta: MetaView,
}

impl View for TreeNode {
    type V = TreeNodeView;

    open spec fn view(&self) -> TreeNodeView {
        TreeNodeView {
            name: self.name@,
            class: self.class@,
            properties: self.properties@,
            parent: self.parent,
            children: self.children@,
            meta: self.meta@,
        }
    }
}

impl TreeNode {
    pub open spec fn wf(&self) -> bool {
        &&& self.properties.wf()
        &&& self.meta.wf()
    }
}

/// `s` with the first occurrence of `x` dropped.
pub open spec fn remove_first(s: Seq<u64>, x: u64) -> Seq<u64>
    decreases s.len(),
{
    if s.len() == 0 {
        s
    } else if s[0] == x {
        s.skip(1)
    } else {
        seq![s[0]] + remove_first(s.skip(1), x)
    }
}

/// The instance tree, keyed by stable references.
pub struct Tree {
    pub ids: Vec<u64>,
    pub nodes: Vec<TreeNode>,
    pub root_ref: u64,
}

impl View for Tree {
    type V = Map<u64, TreeNodeView>;

    open spec fn view(&self) -> Map<u64, TreeNodeView> {
        dict::assoc_map(self.ids@, self.node_views())
    }
}

impl Tree {
    /// The node views, in storage order.
    pub open spec fn node_views(&self) -> Seq<TreeNodeView> {
        self.nodes@.map_values(|n: TreeNode| n@)
    }

    /// References are unique, ids and nodes line up, the nodes are well
    /// formed and the root is present.
    pub open spec fn wf(&self) -> bool {
        &&& self.ids@.len() == self.nodes@.len()
        &&& dict::distinct_keys(self.ids@)
        &&& forall|i: int| 0 <= i < self.nodes@.len() ==> (#[trigger] self.nodes@[i]).wf()
        &&& self@.contains_key(self.root_ref)
    }

    /// A tree holding one root instance under `root_ref`.
    pub fn init(root_ref: u64, name: &str, class: &str, meta: Meta) -> (r: Tree)
        requires
            meta.wf(),
        ensures
            r.wf(),
            r.root_ref == root_ref,
            r@ == Map::<u64, TreeNodeView>::empty().insert(
                root_ref,
                TreeNodeView {
                    name: name@,
                    class: class@,
                    properties: Map::<Seq<char>, ValueView>::empty(),
                    parent: root_ref,
                    children: Seq::<u64>::empty(),
                    meta: meta@,
                },
            ),
    {
        let mut ids: Vec<u64> = Vec::new();
        let mut nodes: Vec<TreeNode> = Vec::new();
        ids.push(root_ref);
        let node = TreeNode {
            name: name.to_owned(),
            class: class.to_owned(),
            properties: crate::dict::Dict::new(),
            parent: root_ref,
            children: Vec::new(),
            meta,
        };
        nodes.push(node);
        let r = Tree { ids, nodes, root_ref };
        proof {
            assert(r.ids@.drop_last() =~= Seq::<u64>::empty());
            assert(r.node_views().drop_last() =~= Seq::<TreeNodeView>::empty());
            assert(dict::assoc_map(Seq::<u64>::empty(), Seq::<TreeNodeView>::empty())
                == Map::<u64, TreeNodeView>::empty());
            assert(r.ids@.last() == root_ref);
            assert(r.node_views().last() == r.node_views()[0]);
            assert(r.node_views()[0].children =~= Seq::<u64>::empty());
            assert(r.node_views()[0].properties =~= Map::<Seq<char>, ValueView>::empty());
            assert(r@ =~= Map::<u64, TreeNodeView>::empty().insert(
                root_ref,
                r.node_views()[0],
            ));
        }
        r
    }

    /// The storage index of `id`, when present.
    fn position_of(&self, id: u64) -> (r: Option<usize>)
        requires
            self.wf(),
        ensures
            match r {
                Some(i) => i < self.ids@.len() && self.ids@[i as int] == id,
                None => !self.ids@.contains(id),
            },
    {
        let n = self.ids.len();
        let mut i: usize = 0;
        while i < n
            invariant
                i <= n,
                n == self.ids@.len(),
                forall|j: int| 0 <= j < i ==> self.ids@[j] != id,
            decreases n - i,
        {
            if self.ids[i] == id {
                return Some(i);
            }
            i += 1;
        }
        proof {
            if self.ids@.contains(id) {
                let j = choose|j: int| 0 <= j < self.ids@.len() && self.ids@[j] == id;
            }
        }
        None
    }

    /// Whether `id` refers to an instance of this tree.
    pub fn contains_ref(&self, id: u64) -> (r: bool)
        requires
            self.wf(),
        ensures
            r == self@.contains_key(id),
    {
        proof {
            dict::lemma_assoc_contains(self.ids@, self.node_views(), id);
        }
        match self.position_of(id) {
            Some(_) => true,
            None => false,
        }
    }

    /// The instance under `id`, when it is there.
    pub fn get_node(&self, id: u64) -> (r: Option<&TreeNode>)
        requires
            self.wf(),
        ensures
            match r {
                Some(n) => self@.contains_key(id) && n@ == self@[id] && n.wf(),
                None => !self@.contains_key(id),
            },
    {
        proof {
            dict::lemma_assoc_contains(self.ids@, self.node_views(), id);
        }
        match self.position_of(id) {
            Some(i) => {
                proof {
                    dict::lemma_assoc_index(self.ids@, self.node_views(), i as int);
                }
                Some(&self.nodes[i])
            },
            None => None,
        }
    }

    /// Replaces the context of the instance under `id`. Hands back
    /// whether the instance was there.
    pub fn update_meta(&mut self, id: u64, meta: Meta) -> (r: bool)
        requires
            old(self).wf(),
            meta.wf(),
        ensures
            final(self).wf(),
            r == old(self)@.contains_key(id),
            r ==> final(self)@ == old(self)@.insert(
                id,
                (TreeNodeView { meta: meta@, ..old(self)@[id] }),
            ),
            !r ==> final(self)@ == old(self)@,
            final(self).root_ref == old(self).root_ref,
    {
        proof {
            dict::lemma_assoc_contains(self.ids@, self.node_views(), id);
        }
        match self.position_of(id) {
            Some(i) => {
                proof {
                    dict::lemma_assoc_index(self.ids@, self.node_views(), i as int);
                }
                let mut node = self.nodes.remove(i);
                node.meta = meta;
                self.nodes.insert(i, node);
                proof {
                    assert(self.nodes@ =~= old(self).nodes@.update(
                        i as int,
                        self.nodes@[i as int],
                    ));
                    assert(self.node_views() =~= old(self).node_views().update(
                        i as int,
                        self.nodes@[i as int]@,
                    ));
                    dict::lemma_assoc_update(
                        old(self).ids@,
                        old(self).node_views(),
                        i as int,
                        self.nodes@[i as int]@,
                    );
                    dict::lemma_assoc_contains(
                        self.ids@,
                        self.node_views(),
                        old(self).root_ref,
                    );
                    dict::lemma_assoc_contains(
                        old(self).ids@,
                        old(self).node_views(),
                        old(self).root_ref,
                    );
                }
                true
            },
            None => false,
        }
    }

    /// Renames the instance under `id`. Hands back whether it was
    /// there.
    pub fn set_name(&mut self, id: u64, name: &str) -> (r: bool)
        requires
            old(self).wf(),
        ensures
            final(self).wf(),
            r == old(self)@.contains_key(id),
            r ==> final(self)@ == old(self)@.insert(
                id,
                (TreeNodeView { name: name@, ..old(self)@[id] }),
            ),
            !r ==> final(self)@ == old(self)@,
            final(self).root_ref == old(self).root_ref,
    {
        proof {
            dict::lemma_assoc_contains(self.ids@, self.node_views(), id);
        }
        match self.position_of(id) {
            Some(i) => {
                proof {
                    dict::lemma_assoc_index(self.ids@, self.node_views(), i as int);
                }
                let mut node = self.nodes.remove(i);
                node.name = name.to_owned();
                self.nodes.insert(i, node);
                proof {
                    assert(self.nodes@ =~= old(self).nodes@.update(
                        i as int,
                        self.nodes@[i as int],
                    ));
                    assert(self.node_views() =~= old(self).node_views().update(
                        i as int,
                        self.nodes@[i as int]@,
                    ));
                    dict::lemma_assoc_update(
                        old(self).ids@,
                        old(self).node_views(),
                        i as int,
                        self.nodes@[i as int]@,
                    );
                    dict::lemma_assoc_contains(
                        self.ids@,
                        self.node_views(),
                        old(self).root_ref,
                    );
                    dict::lemma_assoc_contains(
                        old(self).ids@,
                        old(self).node_views(),
                        old(self).root_ref,
                    );
                }
                true
            },
            None => false,
        }
    }

    /// Replaces the stored properties of the instance under `id`.
    pub fn set_properties(&mut self, id: u64, properties: Properties) -> (r: bool)
        requires
            old(self).wf(),
            properties.wf(),
        ensures
            final(self).wf(),
            r == old(self)@.contains_key(id),
            r ==> final(self)@ == old(self)@.insert(
                id,
                (TreeNodeView { properties: properties@, ..old(self)@[id] }),
            ),
            !r ==> final(self)@ == old(self)@,
            final(self).root_ref == old(self).root_ref,
    {
        proof {
            dict::lemma_assoc_contains(self.ids@, self.node_views(), id);
        }
        match self.position_of(id) {
            Some(i) => {
                proof {
                    dict::lemma_assoc_index(self.ids@, self.node_views(), i as int);
                }
                let mut node = self.nodes.remove(i);
                node.properties = properties;
                self.nodes.insert(i, node);
                proof {
                    assert(self.nodes@ =~= old(self).nodes@.update(
                        i as int,
                        self.nodes@[i as int],
                    ));
                    assert(self.node_views() =~= old(self).node_views().update(
                        i as int,
                        self.nodes@[i as int]@,
                    ));
                    dict::lemma_assoc_update(
                        old(self).ids@,
                        old(self).node_views(),
                        i as int,
                        self.nodes@[i as int]@,
                    );
                    dict::lemma_assoc_contains(
                        self.ids@,
                        self.node_views(),
                        old(self).root_ref,
                    );
                    dict::lemma_assoc_contains(
                        old(self).ids@,
                        old(self).node_views(),
                        old(self).root_ref,
                    );
                }
                true
            },
            None => false,
        }
    }

    /// Inserts a fresh instance under `parent`, with the given
    /// reference. Refuses, changing nothing, when the parent is absent
    /// or the reference is taken.
    pub fn insert_instance_with_ref(
        &mut self,
        id: u64,
        name: &str,
        class: &str,
        properties: Properties,
        meta: Meta,
        parent: u64,
    ) -> (r: bool)
        requires
            old(self).wf(),
            properties.wf(),
            meta.wf(),
        ensures
            final(self).wf(),
            r == (old(self)@.contains_key(parent) && !old(self)@.contains_key(id)),
            r ==> final(self)@ == old(self)@.insert(
                parent,
                (TreeNodeView {
                    children: old(self)@[parent].children.push(id),
                    ..old(self)@[parent]
                }),
            ).insert(
                id,
                (TreeNodeView {
                    name: name@,
                    class: class@,
                    properties: properties@,
                    parent,
                    children: Seq::<u64>::empty(),
                    meta: meta@,
                }),
            ),
            !r ==> final(self)@ == old(self)@,
            final(self).root_ref == old(self).root_ref,
            r ==> id != parent,
    {
        proof {
            dict::lemma_assoc_contains(self.ids@, self.node_views(), id);
            dict::lemma_assoc_contains(self.ids@, self.node_views(), parent);
        }
        let pos_parent = match self.position_of(parent) {
            Some(i) => i,
            None => {
                return false;
            },
        };
        match self.position_of(id) {
            Some(_) => {
                return false;
            },
            None => {},
        }
        proof {
            dict::lemma_assoc_index(self.ids@, self.node_views(), pos_parent as int);
        }
        let mut pnode = self.nodes.remove(pos_parent);
        pnode.children.push(id);
        self.nodes.insert(pos_parent, pnode);
        proof {
            assert(self.nodes@ =~= old(self).nodes@.update(
                pos_parent as int,
                self.nodes@[pos_parent as int],
            ));
            assert(self.node_views() =~= old(self).node_views().update(
                pos_parent as int,
                self.nodes@[pos_parent as int]@,
            ));
            dict::lemma_assoc_update(
                old(self).ids@,
                old(self).node_views(),
                pos_parent as int,
                self.nodes@[pos_parent as int]@,
            );
        }
        let ghost mid = self@;
        let node = TreeNode {
            name: name.to_owned(),
            class: class.to_owned(),
            properties,
            parent,
            children: Vec::new(),
            meta,
        };
        self.ids.push(id);
        self.nodes.push(node);
        proof {
            assert(self.ids@.drop_last() =~= old(self).ids@);
            assert(self.node_views() =~= old(self).node_views().update(
                pos_parent as int,
                self.nodes@[pos_parent as int]@,
            ).push(self.nodes@[self.nodes@.len() - 1]@));
            assert(self.node_views().drop_last() =~= old(self).node_views().update(
                pos_parent as int,
                self.nodes@[pos_parent as int]@,
            ));
            assert(self@ == mid.insert(id, self.nodes@[self.nodes@.len() - 1]@));
            assert(self.nodes@[self.nodes@.len() - 1]@.children =~= Seq::<u64>::empty());
            assert(self.nodes@[self.nodes@.len() - 1]@ == (TreeNodeView {
                name: name@,
                class: class@,
                properties: properties@,
                parent,
                children: Seq::<u64>::empty(),
                meta: meta@,
            }));
            assert(dict::distinct_keys(self.ids@)) by {
                assert(forall|j: int|
                    0 <= j < old(self).ids@.len() ==> self.ids@[j] == old(self).ids@[j]);
                if !dict::distinct_keys(self.ids@) {
                    let (a, b) = choose|a: int, b: int|
                        0 <= a < b < self.ids@.len() && #[trigger] self.ids@[a]
                            == #[trigger] self.ids@[b];
                    assert(b == self.ids@.len() - 1);
                    assert(old(self).ids@.contains(old(self).ids@[a]));
                }
            }
            dict::lemma_assoc_contains(self.ids@, self.node_views(), old(self).root_ref);
            dict::lemma_assoc_contains(
                old(self).ids@,
                old(self).node_views(),
                old(self).root_ref,
            );
            assert(old(self)@.contains_key(old(self).root_ref));
        }
        true
    }

    /// Detaches the instance under `id` and every instance below it.
    /// The parent's child list loses `id`; every instance that remains
    /// keeps its data.
    #[verifier::loop_isolation(false)]
    pub fn remove_instance(&mut self, id: u64)
        requires
            old(self).wf(),
            id != old(self).root_ref,
        ensures
            final(self).wf(),
            !final(self)@.contains_key(id),
            forall|k: u64|
                #[trigger] final(self)@.contains_key(k) ==> old(self)@.contains_key(k),
            final(self)@.contains_key(old(self).root_ref),
            old(self)@.contains_key(id) ==> (forall|k: u64|
                #[trigger] final(self)@.contains_key(k) && k != old(self)@[id].parent
                    ==> final(self)@[k] == old(self)@[k]),
            !old(self)@.contains_key(id) ==> final(self)@ == old(self)@,
            old(self)@.contains_key(id) && old(self)@.contains_key(old(self)@[id].parent)
                && old(self)@[id].parent != id && final(self)@.contains_key(
                old(self)@[id].parent,
            ) ==> final(self)@[old(self)@[id].parent] == (TreeNodeView {
                children: remove_first(
                    old(self)@[old(self)@[id].parent].children,
                    id,
                ),
                ..old(self)@[old(self)@[id].parent]
            }),
            final(self).root_ref == old(self).root_ref,
    {
        proof {
            dict::lemma_assoc_contains(self.ids@, self.node_views(), id);
        }
        let pos = match self.position_of(id) {
            Some(i) => i,
            None => {
                proof {
                    assert(final(self)@ =~= old(self)@);
                }
                return ;
            },
        };
        proof {
            dict::lemma_assoc_index(self.ids@, self.node_views(), pos as int);
        }
        let parent = self.nodes[pos].parent;
        proof {
            dict::lemma_assoc_contains(self.ids@, self.node_views(), parent);
        }
        match self.position_of(parent) {
            Some(pi) => {
                if parent != id {
                    proof {
                        dict::lemma_assoc_index(self.ids@, self.node_views(), pi as int);
                    }
                    let mut pnode = self.nodes.remove(pi);
                    let _removed_child = remove_first_child(&mut pnode.children, id);
                    self.nodes.insert(pi, pnode);
                    proof {
                        assert(self.nodes@ =~= old(self).nodes@.update(
                            pi as int,
                            self.nodes@[pi as int],
                        ));
                        assert(self.node_views() =~= old(self).node_views().update(
                            pi as int,
                            self.nodes@[pi as int]@,
                        ));
                        dict::lemma_assoc_update(
                            old(self).ids@,
                            old(self).node_views(),
                            pi as int,
                            self.nodes@[pi as int]@,
                        );
                        dict::lemma_assoc_contains(
                            self.ids@,
                            self.node_views(),
                            old(self).root_ref,
                        );
                        dict::lemma_assoc_contains(
                            old(self).ids@,
                            old(self).node_views(),
                            old(self).root_ref,
                        );
                    }
                }
            },
            None => {},
        }
        let ghost after_detach = self@;
        let mut stack: Vec<u64> = Vec::new();
        stack.push(id);
        proof {
            assert(stack@[0] == id);
            assert(stack@.contains(id));
        }
        loop
            invariant
                self.ids@.len() == self.nodes@.len(),
                dict::distinct_keys(self.ids@),
                self.root_ref == old(self).root_ref,
                forall|i: int|
                    0 <= i < self.nodes@.len() ==> (#[trigger] self.nodes@[i]).wf(),
                forall|k: u64|
                    #[trigger] self@.contains_key(k) ==> after_detach.contains_key(k)
                        && self@[k] == after_detach[k],
                self@.contains_key(old(self).root_ref),
                !self@.contains_key(id) || stack@.contains(id),
            decreases self.ids@.len(), stack@.len(),
        {
            let ghost prestack = stack@;
            let next = match stack.pop() {
                Some(x) => x,
                None => {
                    break ;
                },
            };
            proof {
                assert(stack@ =~= prestack.drop_last());
                dict::lemma_assoc_contains(self.ids@, self.node_views(), next);
                if next != id && self@.contains_key(id) {
                    let j = choose|j: int|
                        0 <= j < prestack.len() && prestack[j] == id;
                    assert(j < prestack.len() - 1);
                    assert(stack@[j] == id);
                    assert(stack@.contains(id));
                }
            }
            if next != self.root_ref {
                proof {
                    dict::lemma_assoc_contains(self.ids@, self.node_views(), next);
                }
                match self.position_of(next) {
                    Some(i) => {
                        let ghost pids = self.ids@;
                        let ghost pnodes = self.nodes@;
                        let ghost pviews = self.node_views();
                        let ghost pmap = self@;
                        proof {
                            dict::lemma_assoc_index(pids, pviews, i as int);
                            dict::lemma_assoc_remove(pids, pviews, i as int);
                        }
                        self.ids.remove(i);
                        let node = self.nodes.remove(i);
                        proof {
                            assert(self.ids@ =~= pids.remove(i as int));
                            assert(self.nodes@ =~= pnodes.subrange(0, i as int)
                                + pnodes.subrange(i + 1, pnodes.len() as int));
                            assert(pviews.remove(i as int) =~= pviews.subrange(
                                0,
                                i as int,
                            ) + pviews.subrange(i + 1, pviews.len() as int));
                            assert(forall|j: int|
                                0 <= j < self.nodes@.len()
                                    ==> #[trigger] self.node_views()[j]
                                    == self.nodes@[j]@);
                            assert(forall|j: int|
                                0 <= j < pnodes.len() ==> #[trigger] pviews[j]
                                    == pnodes[j]@);
                            assert(self.node_views() =~= pviews.remove(i as int));
                            assert(self@ == pmap.remove(pids[i as int]));
                            assert(forall|j: int|
                                0 <= j < i ==> self.ids@[j] == pids[j]);
                            assert(forall|j: int|
                                i <= j < self.ids@.len() ==> self.ids@[j] == pids[j
                                    + 1]);
                            assert(dict::distinct_keys(self.ids@));
                            assert(forall|j: int|
                                0 <= j < self.nodes@.len()
                                    ==> (#[trigger] self.nodes@[j]).wf());
                            assert(self@.contains_key(old(self).root_ref)) by {
                                assert(pids[i as int] == next);
                                assert(next != old(self).root_ref);
                            }
                        }
                        let ghost snap_len = self.ids@.len();
                        let mut kids = node.children;
                        loop
                            invariant
                                self.ids@.len() == snap_len,
                                !self@.contains_key(id) || stack@.contains(id),
                            decreases kids@.len(),
                        {
                            let ghost prek = kids@;
                            match kids.pop() {
                                Some(c) => {
                                    let ghost press = stack@;
                                    stack.push(c);
                                    proof {
                                        if !self@.contains_key(id) {
                                        } else {
                                            assert(press.contains(id));
                                            let j = choose|j: int|
                                                0 <= j < press.len() && press[j] == id;
                                            assert(stack@[j] == id);
                                            assert(stack@.contains(id));
                                        }
                                    }
                                },
                                None => {
                                    break ;
                                },
                            }
                        }
                    },
                    None => {},
                }
            }
        }
        proof {
            dict::lemma_assoc_contains(self.ids@, self.node_views(), id);
            assert(forall|k: u64|
                #[trigger] after_detach.contains_key(k) ==> old(self)@.contains_key(k));
            assert(forall|k: u64|
                #[trigger] after_detach.contains_key(k) && k != old(self)@[id].parent
                    ==> after_detach[k] == old(self)@[k]);
        }
    }
}

/// Drops the first occurrence of `x` from `children`. Hands back
/// whether one was there.
pub fn remove_first_child(children: &mut Vec<u64>, x: u64) -> (r: bool)
    ensures
        final(children)@ == remove_first(old(children)@, x),
        r == old(children)@.contains(x),
{
    let n = children.len();
    let mut i: usize = 0;
    while i < n
        invariant
            i <= n,
            n == children@.len(),
            children@ == old(children)@,
            forall|j: int| 0 <= j < i ==> children@[j] != x,
        decreases n - i,
    {
        if children[i] == x {
            children.remove(i);
            proof {
                lemma_remove_first_at(old(children)@, x, i as int);
            }
            return true;
        }
        i += 1;
    }
    proof {
        lemma_remove_first_absent(children@, x);
        if children@.contains(x) {
            let j = choose|j: int| 0 <= j < children@.len() && children@[j] == x;
        }
    }
    false
}

pub proof fn lemma_remove_first_at(s: Seq<u64>, x: u64, i: int)
    requires
        0 <= i < s.len(),
        s[i] == x,
        forall|j: int| 0 <= j < i ==> s[j] != x,
    ensures
        remove_first(s, x) == s.remove(i),
    decreases i,
{
    if i == 0 {
        assert(remove_first(s, x) == s.skip(1));
        assert(s.remove(0) =~= s.skip(1));
    } else {
        assert(s[0] != x);
        assert(s.skip(1)[i - 1] == s[i]);
        assert(forall|j: int| 0 <= j < i - 1 ==> s.skip(1)[j] == s[j + 1]);
        lemma_remove_first_at(s.skip(1), x, i - 1);
        assert(remove_first(s, x) == seq![s[0]] + remove_first(s.skip(1), x));
        assert(seq![s[0]] + s.skip(1).remove(i - 1) =~= s.remove(i));
    }
}

pub proof fn lemma_remove_first_absent(s: Seq<u64>, x: u64)
    requires
        !s.contains(x),
    ensures
        remove_first(s, x) == s,
    decreases s.len(),
{
    if s.len() > 0 {
        assert(s[0] != x);
        if s.skip(1).contains(x) {
            let j = choose|j: int| 0 <= j < s.skip(1).len() && s.skip(1)[j] == x;
            assert(s[j + 1] == x);
        }
        lemma_remove_first_absent(s.skip(1), x);
        assert(seq![s[0]] + s.skip(1) =~= s);
    }
}

} // verus!

//! The node graph of a virtual repository tree: every materialized node by
//! its index, with the children each expanded node loaded.
//!
//! Indices are handed out in increasing order and never reused, so the
//! identity of a removed node never resolves again, and every parent has a
//! smaller index than its children.
use std::collections::HashMap;
use vstd::prelude::*;

use crate::repository::RepositoryObjectEntry;
use crate::vfs::error::VfsError;
use crate::vfs::expand::ExpansionStrategy;
use crate::vfs::load::Loaded;
use crate::vfs::node::{Node, NodeId, NodeKind};
use crate::vfs::prepared::PreparedNode;

verus! {

broadcast use vstd::std_specs::hash::group_hash_axioms;

/// A fresh scope for a tree: a random version-4 UUID as an integer.
#[verifier::external_body]
fn random_scope() -> (r: u128) {
    uuid::Uuid::new_v4().as_u128()
}

/// What the graph keeps of one node: its snapshot, how it is expanded, the
/// repository entry of an object, and the indices of its loaded children
/// (`None` while it was not expanded).
#[derive(Debug)]
pub struct NodeRecord {
    /// The node's snapshot.
    pub node: Node,
    /// How the node obtains its children.
    pub expansion: ExpansionStrategy,
    /// The repository entry of an object node.
    pub object: Option<RepositoryObjectEntry>,
    /// The indices of the loaded children, in listing order.
    pub children: Option<Vec<u64>>,
}

/// The record a prepared node becomes under an identity and a parent.
pub open spec fn record_of(p: PreparedNode, id: NodeId, parent: Option<NodeId>) -> NodeRecord {
    NodeRecord {
        node: Node { id, parent, label: p.label, kind: p.kind },
        expansion: p.expansion,
        object: p.object,
        children: None,
    }
}

/// Whether a node's parent link is sound: the parent belongs to the same
/// tree, has a smaller index, is present and lists the node as a child.
pub open spec fn parent_linked(scope: u128, m: Map<u64, NodeRecord>, k: u64) -> bool {
    let p = m[k].node.parent.unwrap();
    &&& p.scope == scope
    &&& p.index < k
    &&& m.contains_key(p.index)
    &&& m[p.index].children is Some
    &&& m[p.index].children.unwrap()@.contains(k)
}

/// The graph's invariant: every index below the next one to be handed out
/// and carried by its node's identity; no orphans, as every parent is
/// present and lists its children; every listed child is present and has
/// the listing node as its parent.
pub open spec fn graph_wf(scope: u128, next: u64, m: Map<u64, NodeRecord>) -> bool {
    &&& forall|k: u64| #[trigger]
        m.contains_key(k) ==> k < next && m[k].node.id == (NodeId { scope, index: k })
    &&& forall|k: u64| #[trigger]
        m.contains_key(k) && m[k].node.parent is Some ==> parent_linked(scope, m, k)
    &&& forall|k: u64, c: u64|
        m.contains_key(k) && m[k].children is Some && #[trigger] m[k].children.unwrap()@.contains(c)
            ==> m.contains_key(c) && m[c].node.parent == Some(m[k].node.id)
}

/// The node graph of one tree.
#[derive(Debug)]
pub struct Graph {
    scope: u128,
    next_index: u64,
    root: NodeId,
    nodes: HashMap<u64, NodeRecord>,
}

/// Whether an identity resolves in a graph: it belongs to the graph's tree
/// and its node is present.
pub open spec fn resolves(scope: u128, m: Map<u64, NodeRecord>, id: NodeId) -> bool {
    id.scope == scope && m.contains_key(id.index)
}

impl Graph {
    /// The tree this graph belongs to.
    pub closed spec fn scope(&self) -> u128 {
        self.scope
    }

    /// The index the next inserted node will get.
    pub closed spec fn next(&self) -> u64 {
        self.next_index
    }

    /// The records of the present nodes, by index.
    pub closed spec fn records(&self) -> Map<u64, NodeRecord> {
        self.nodes@
    }

    /// The root's identity.
    pub closed spec fn root_id(&self) -> NodeId {
        self.root
    }

    /// The graph's invariant, with a present root that has no parent.
    pub closed spec fn wf(&self) -> bool {
        &&& graph_wf(self.scope, self.next_index, self.nodes@)
        &&& resolves(self.scope, self.nodes@, self.root)
        &&& self.nodes@[self.root.index].node.parent is None
    }

    /// Whether an identity resolves in this graph.
    pub open spec fn has(&self, id: NodeId) -> bool {
        resolves(self.scope(), self.records(), id)
    }

    /// Adds one record under the next index.
    fn insert(&mut self, parent: Option<NodeId>, node: PreparedNode) -> (id: NodeId)
        requires
            old(self).next_index < u64::MAX,
        ensures
            id == (NodeId { scope: old(self).scope, index: old(self).next_index }),
            final(self).scope == old(self).scope,
            final(self).root == old(self).root,
            final(self).next_index == old(self).next_index + 1,
            final(self).nodes@ == old(self).nodes@.insert(
                old(self).next_index,
                record_of(node, id, parent),
            ),
    {
        let index = self.next_index;
        self.next_index = self.next_index + 1;
        let id = NodeId::new(self.scope, index);
        let PreparedNode { label, kind, expansion, object } = node;
        self.nodes.insert(
            index,
            NodeRecord { node: Node { id, parent, label, kind }, expansion, object, children: None },
        );
        id
    }

    /// Replaces the children list of a present record.
    fn set_children(&mut self, k: u64, children: Vec<u64>)
        requires
            old(self).nodes@.contains_key(k),
        ensures
            final(self).scope == old(self).scope,
            final(self).root == old(self).root,
            final(self).next_index == old(self).next_index,
            final(self).nodes@ == old(self).nodes@.insert(
                k,
                NodeRecord { children: Some(children), ..old(self).nodes@[k] },
            ),
    {
        let record = self.nodes.remove(&k).unwrap();
        let NodeRecord { node, expansion, object, children: _ } = record;
        self.nodes.insert(k, NodeRecord { node, expansion, object, children: Some(children) });
    }

    /// A graph with a root, labelled `/`, whose children are the given
    /// mounts in order.
    pub fn build(mounts: Vec<PreparedNode>) -> (r: Self)
        requires
            mounts@.len() + 1 < u64::MAX,
        ensures
            r.wf(),
            r.root_id() == (NodeId { scope: r.scope(), index: 0 }),
            r.next() == mounts@.len() + 1,
            r.records()[0].node.label@ == "/"@,
            r.records()[0].node.kind is Root,
            r.records()[0].expansion is Static,
            r.records()[0].children matches Some(cs) && cs@ == Seq::new(
                mounts@.len(),
                |i: int| (i + 1) as u64,
            ),
            forall|i: int|
                0 <= i < mounts@.len() ==> r.records()[(i + 1) as u64] == record_of(
                    #[trigger] mounts@[i],
                    NodeId { scope: r.scope(), index: (i + 1) as u64 },
                    Some(r.root_id()),
                ),
            r.records().dom() =~= Set::new(|k: u64| k <= mounts@.len()),
    {
        let scope = random_scope();
        let root = NodeId::new(scope, 0);
        let mut graph = Graph { scope, next_index: 0, root, nodes: HashMap::new() };
        let root_node = PreparedNode {
            label: "/".to_owned(),
            kind: NodeKind::Root,
            expansion: ExpansionStrategy::Static,
            object: None,
        };
        let root_id = graph.insert(None, root_node);
        let ghost all = mounts@;
        let n = mounts.len();
        let mut rest = mounts;
        let mut children: Vec<u64> = Vec::new();
        let mut i: usize = 0;
        while rest.len() > 0
            invariant
                i + rest.len() == n,
                n == all.len(),
                n + 1 < u64::MAX,
                rest@ == all.skip(i as int),
                root_id == root,
                graph.scope == scope,
                graph.root == root,
                root == (NodeId { scope, index: 0 }),
                graph.next_index == i + 1,
                children@ == Seq::new(i as nat, |j: int| (j + 1) as u64),
                graph.nodes@.dom() =~= Set::new(|k: u64| k <= i),
                graph.nodes@[0].node.label@ == "/"@,
                graph.nodes@[0].node.id == root,
                graph.nodes@[0].node.parent is None,
                graph.nodes@[0].node.kind is Root,
                graph.nodes@[0].expansion is Static,
                graph.nodes@[0].children is None,
                forall|j: int|
                    0 <= j < i ==> graph.nodes@[(j + 1) as u64] == record_of(
                        #[trigger] all[j],
                        NodeId { scope, index: (j + 1) as u64 },
                        Some(root),
                    ),
            decreases rest.len(),
        {
            let ghost old_rest = rest@;
            let mount = rest.remove(0);
            proof {
                assert(mount == all[i as int]);
                assert(rest@ =~= all.skip(i as int + 1));
            }
            let id = graph.insert(Some(root), mount);
            children.push(id.index);
            proof {
                assert(children@ =~= Seq::new((i + 1) as nat, |j: int| (j + 1) as u64));
            }
            i += 1;
        }
        graph.set_children(0, children);
        proof {
            let m = graph.nodes@;
            assert forall|k: u64| #[trigger] m.contains_key(k) implies k < graph.next_index && m[k].node.id
                == (NodeId { scope, index: k }) by {
                if k > 0 {
                    assert(m[k] == record_of(all[k - 1], NodeId { scope, index: k }, Some(root)));
                }
            }
            assert forall|k: u64| #[trigger] m.contains_key(k) && m[k].node.parent is Some implies parent_linked(
                scope,
                m,
                k,
            ) by {
                assert(k > 0);
                assert(m[k] == record_of(all[k - 1], NodeId { scope, index: k }, Some(root)));
                assert(m[0].children.unwrap()@[k - 1] == k);
            }
            assert forall|k: u64, c: u64|
                m.contains_key(k) && m[k].children is Some && #[trigger] m[k].children.unwrap()@.contains(
                    c,
                ) implies m.contains_key(c) && m[c].node.parent == Some(m[k].node.id) by {
                if k > 0 {
                    assert(m[k] == record_of(all[k - 1], NodeId { scope, index: k }, Some(root)));
                }
                assert(k == 0);
                let j = choose|j: int| 0 <= j < m[0].children.unwrap()@.len() && m[0].children.unwrap()@[j] == c;
                assert(c == (j + 1) as u64);
                assert(m[c] == record_of(all[j], NodeId { scope, index: c }, Some(root)));
            }
        }
        graph
    }

    /// The root's identity.
    pub fn root(&self) -> (r: NodeId)
        ensures
            r == self.root_id(),
    {
        self.root
    }

    /// The index the next inserted node receives; indices below it are
    /// spent, whether or not their nodes are still present.
    pub fn next_index(&self) -> (r: u64)
        ensures
            r == self.next(),
    {
        self.next_index
    }

    /// Snapshots of the given present nodes, in the given order.
    fn snapshots(&self, ids: &[u64]) -> (r: Vec<Node>)
        requires
            forall|i: int| 0 <= i < ids@.len() ==> self.nodes@.contains_key(#[trigger] ids@[i]),
        ensures
            r@.len() == ids@.len(),
            forall|i: int| 0 <= i < ids@.len() ==> r@[i] == self.nodes@[#[trigger] ids@[i]].node,
    {
        let mut out: Vec<Node> = Vec::new();
        let mut i: usize = 0;
        while i < ids.len()
            invariant
                i <= ids@.len(),
                out@.len() == i,
                forall|j: int| 0 <= j < ids@.len() ==> self.nodes@.contains_key(#[trigger] ids@[j]),
                forall|j: int| 0 <= j < i ==> out@[j] == self.nodes@[#[trigger] ids@[j]].node,
            decreases ids.len() - i,
        {
            let record = self.nodes.get(&ids[i]).unwrap();
            out.push(record.node.clone());
            i += 1;
        }
        out
    }

    /// A snapshot of a node already known to the graph; nothing is loaded.
    pub fn node(&self, id: NodeId) -> (r: Option<Node>)
        ensures
            match r {
                Some(n) => self.has(id) && n == self.records()[id.index].node,
                None => !self.has(id),
            },
    {
        match id.index_for(self.scope) {
            None => None,
            Some(index) => match self.nodes.get(&index) {
                Some(record) => Some(record.node.clone()),
                None => None,
            },
        }
    }

    /// The repository entry of an object node.
    pub fn object_entry(&self, id: NodeId) -> (r: Result<RepositoryObjectEntry, VfsError>)
        ensures
            match r {
                Ok(e) => {
                    &&& self.has(id)
                    &&& self.records()[id.index].object matches Some(o)
                    &&& e@ == o@
                },
                Err(VfsError::UnknownNode(x)) => x == id && !self.has(id),
                Err(VfsError::NotObject(x)) => x == id && self.has(id) && self.records()[id.index].object is None,
                Err(_) => false,
            },
    {
        let index = match id.index_for(self.scope) {
            None => return Err(VfsError::UnknownNode(id)),
            Some(index) => index,
        };
        match self.nodes.get(&index) {
            None => Err(VfsError::UnknownNode(id)),
            Some(record) => match &record.object {
                Some(o) => Ok(o.clone()),
                None => Err(VfsError::NotObject(id)),
            },
        }
    }

    /// The loaded children of a node, without loading anything: `None`
    /// while the node was not expanded.
    pub fn cached_children(&self, id: NodeId) -> (r: Result<Option<Vec<Node>>, VfsError>)
        requires
            self.wf(),
        ensures
            match r {
                Ok(None) => self.has(id) && self.records()[id.index].children is None,
                Ok(Some(ns)) => {
                    &&& self.has(id)
                    &&& self.records()[id.index].children matches Some(cs)
                    &&& ns@.len() == cs@.len()
                    &&& forall|i: int|
                        0 <= i < cs@.len() ==> ns@[i] == self.records()[#[trigger] cs@[i]].node
                },
                Err(VfsError::UnknownNode(x)) => x == id && !self.has(id),
                Err(_) => false,
            },
    {
        let index = match id.index_for(self.scope) {
            None => return Err(VfsError::UnknownNode(id)),
            Some(index) => index,
        };
        match self.nodes.get(&index) {
            None => Err(VfsError::UnknownNode(id)),
            Some(record) => match &record.children {
                None => Ok(None),
                Some(children) => {
                    proof {
                        assert forall|i: int| 0 <= i < children@.len() implies self.nodes@.contains_key(
                            #[trigger] children@[i],
                        ) by {
                            assert(children@.contains(children@[i]));
                        }
                    }
                    Ok(Some(self.snapshots(children.as_slice())))
                },
            },
        }
    }
}


/// Whether `d` lies below `a`: following parents from `d` reaches `a`.
pub open spec fn descends(m: Map<u64, NodeRecord>, d: u64, a: u64) -> bool
    decreases d,
{
    if !m.contains_key(d) {
        false
    } else {
        match m[d].node.parent {
            None => false,
            Some(p) => p.index == a || (p.index < d && descends(m, p.index, a)),
        }
    }
}

/// A node's kind with newly learned facet metadata applied; `None` keeps
/// the current value, and kinds other than facets are unchanged.
pub open spec fn kind_with_facet_state(k: NodeKind, count: Option<u32>, has: Option<bool>) -> NodeKind {
    match k {
        NodeKind::Facet { facet, value, object_count, has_children_of_same_facet } => NodeKind::Facet {
            facet,
            value,
            object_count: match count {
                Some(c) => c,
                None => object_count,
            },
            has_children_of_same_facet: match has {
                Some(h) => h,
                None => has_children_of_same_facet,
            },
        },
        other => other,
    }
}

/// An expansion with newly learned facet metadata applied.
pub open spec fn expansion_with_facet_state(e: ExpansionStrategy, count: Option<u32>, has: Option<bool>) -> ExpansionStrategy {
    match e {
        ExpansionStrategy::Facet { context, facet_index, object_count, has_children_of_same_facet } =>
            ExpansionStrategy::Facet {
            context,
            facet_index,
            object_count: match count {
                Some(c) => c,
                None => object_count,
            },
            has_children_of_same_facet: match has {
                Some(h) => h,
                None => has_children_of_same_facet,
            },
        },
        other => other,
    }
}

/// A record with newly learned facet metadata applied to both its snapshot
/// and its expansion.
pub open spec fn with_facet_state(r: NodeRecord, count: Option<u32>, has: Option<bool>) -> NodeRecord {
    NodeRecord {
        node: Node { kind: kind_with_facet_state(r.node.kind, count, has), ..r.node },
        expansion: expansion_with_facet_state(r.expansion, count, has),
        ..r
    }
}

fn apply_facet_state(r: NodeRecord, count: Option<u32>, has: Option<bool>) -> (out: NodeRecord)
    ensures
        out == with_facet_state(r, count, has),
{
    let NodeRecord { node, expansion, object, children } = r;
    let Node { id, parent, label, kind } = node;
    let kind = match kind {
        NodeKind::Facet { facet, value, object_count, has_children_of_same_facet } => NodeKind::Facet {
            facet,
            value,
            object_count: match count {
                Some(c) => c,
                None => object_count,
            },
            has_children_of_same_facet: match has {
                Some(h) => h,
                None => has_children_of_same_facet,
            },
        },
        other => other,
    };
    let expansion = match expansion {
        ExpansionStrategy::Facet { context, facet_index, object_count, has_children_of_same_facet } =>
            ExpansionStrategy::Facet {
            context,
            facet_index,
            object_count: match count {
                Some(c) => c,
                None => object_count,
            },
            has_children_of_same_facet: match has {
                Some(h) => h,
                None => has_children_of_same_facet,
            },
        },
        other => other,
    };
    NodeRecord { node: Node { id, parent, label, kind }, expansion, object, children }
}

proof fn lemma_descends_above(scope: u128, next: u64, m: Map<u64, NodeRecord>, d: u64, a: u64)
    requires
        graph_wf(scope, next, m),
        descends(m, d, a),
    ensures
        a < d,
    decreases d,
{
    let p = m[d].node.parent.unwrap();
    assert(parent_linked(scope, m, d));
    if p.index != a {
        lemma_descends_above(scope, next, m, p.index, a);
    }
}

proof fn lemma_no_present_descendant(orig: Map<u64, NodeRecord>, cur: Map<u64, NodeRecord>, k: u64, d: u64)
    requires
        forall|x: u64|
            cur.contains_key(x) && #[trigger] descends(orig, x, k) ==> orig[x].node.parent.unwrap().index
                != k && cur.contains_key(orig[x].node.parent.unwrap().index),
    ensures
        !(cur.contains_key(d) && descends(orig, d, k)),
    decreases d,
{
    if cur.contains_key(d) && descends(orig, d, k) {
        let p = orig[d].node.parent.unwrap().index;
        assert(p < d && descends(orig, p, k));
        lemma_no_present_descendant(orig, cur, k, p);
    }
}

/// What a node lookup before loading found.
#[derive(Debug)]
pub enum ChildrenLookup {
    /// The node's children were loaded already.
    Cached(Vec<Node>),
    /// The node must be expanded with this expansion.
    Expand(ExpansionStrategy),
}

impl Graph {
    /// Before loading the children of a node: its cached children where it
    /// was expanded (`Some`), or `None` where it must be loaded.
    pub fn children_before_load(&self, id: NodeId) -> (r: Result<Option<Vec<Node>>, VfsError>)
        requires
            self.wf(),
        ensures
            match r {
                Err(VfsError::UnknownNode(x)) => x == id && !self.has(id),
                Err(VfsError::NotDirectory(x)) => {
                    &&& x == id
                    &&& self.has(id)
                    &&& self.records()[id.index].children is None
                    &&& self.records()[id.index].expansion is Leaf
                },
                Err(_) => false,
                Ok(Some(ns)) => {
                    &&& self.has(id)
                    &&& self.records()[id.index].children matches Some(cs)
                    &&& ns@.len() == cs@.len()
                    &&& forall|i: int|
                        0 <= i < cs@.len() ==> ns@[i] == self.records()[#[trigger] cs@[i]].node
                },
                Ok(None) => {
                    &&& self.has(id)
                    &&& self.records()[id.index].children is None
                    &&& !(self.records()[id.index].expansion is Leaf)
                },
            },
    {
        match self.cached_children(id) {
            Err(e) => Err(e),
            Ok(Some(ns)) => Ok(Some(ns)),
            Ok(None) => {
                let record = self.nodes.get(&id.index).unwrap();
                if matches!(record.expansion, ExpansionStrategy::Leaf) {
                    Err(VfsError::NotDirectory(id))
                } else {
                    Ok(None)
                }
            },
        }
    }

    /// Before loading or refreshing, with the node's load serialized: the
    /// cached children where a load that is not a refresh finds them, or
    /// the expansion to load.
    pub fn expansion_to_load(&self, id: NodeId, refresh: bool) -> (r: Result<ChildrenLookup, VfsError>)
        requires
            self.wf(),
        ensures
            match r {
                Err(VfsError::StaleNode(x)) => x == id && !self.has(id),
                Err(VfsError::NotRefreshable(x)) => x == id && self.has(id)
                    && self.records()[id.index].expansion is Static && (refresh
                    || self.records()[id.index].children is None),
                Err(VfsError::NotDirectory(x)) => x == id && self.has(id)
                    && self.records()[id.index].expansion is Leaf && (refresh
                    || self.records()[id.index].children is None),
                Err(_) => false,
                Ok(ChildrenLookup::Cached(ns)) => {
                    &&& !refresh
                    &&& self.has(id)
                    &&& self.records()[id.index].children matches Some(cs)
                    &&& ns@.len() == cs@.len()
                    &&& forall|i: int|
                        0 <= i < cs@.len() ==> ns@[i] == self.records()[#[trigger] cs@[i]].node
                },
                Ok(ChildrenLookup::Expand(e)) => {
                    &&& self.has(id)
                    &&& (refresh || self.records()[id.index].children is None)
                    &&& e@ == self.records()[id.index].expansion@
                    &&& !(e is Static)
                    &&& !(e is Leaf)
                },
            },
    {
        if !refresh {
            match self.cached_children(id) {
                Err(_) => return Err(VfsError::StaleNode(id)),
                Ok(Some(ns)) => return Ok(ChildrenLookup::Cached(ns)),
                Ok(None) => {},
            }
        }
        let index = match id.index_for(self.scope) {
            None => return Err(VfsError::StaleNode(id)),
            Some(index) => index,
        };
        match self.nodes.get(&index) {
            None => Err(VfsError::StaleNode(id)),
            Some(record) => match &record.expansion {
                ExpansionStrategy::Static => Err(VfsError::NotRefreshable(id)),
                ExpansionStrategy::Leaf => Err(VfsError::NotDirectory(id)),
                e => Ok(ChildrenLookup::Expand(e.clone())),
            },
        }
    }

    /// Before refreshing a node: whether it can be reloaded at all.
    pub fn refresh_before_load(&self, id: NodeId) -> (r: Result<(), VfsError>)
        ensures
            match r {
                Ok(()) => self.has(id) && !(self.records()[id.index].expansion is Static)
                    && !(self.records()[id.index].expansion is Leaf),
                Err(VfsError::UnknownNode(x)) => x == id && !self.has(id),
                Err(VfsError::NotRefreshable(x)) => x == id && self.has(id)
                    && self.records()[id.index].expansion is Static,
                Err(VfsError::NotDirectory(x)) => x == id && self.has(id)
                    && self.records()[id.index].expansion is Leaf,
                Err(_) => false,
            },
    {
        let index = match id.index_for(self.scope) {
            None => return Err(VfsError::UnknownNode(id)),
            Some(index) => index,
        };
        match self.nodes.get(&index) {
            None => Err(VfsError::UnknownNode(id)),
            Some(record) => match &record.expansion {
                ExpansionStrategy::Static => Err(VfsError::NotRefreshable(id)),
                ExpansionStrategy::Leaf => Err(VfsError::NotDirectory(id)),
                _ => Ok(()),
            },
        }
    }

    /// Removes the subtrees below the former children of `k`, whose list
    /// was already taken from its record.
    fn remove_subtrees(&mut self, k: u64, roots: Vec<u64>, Ghost(orig): Ghost<Map<u64, NodeRecord>>)
        requires
            graph_wf(old(self).scope, old(self).next_index, orig),
            orig.contains_key(k),
            orig[k].children matches Some(cs) && cs@ == roots@,
            old(self).nodes@ == orig.insert(k, NodeRecord { children: None, ..orig[k] }),
        ensures
            final(self).scope == old(self).scope,
            final(self).root == old(self).root,
            final(self).next_index == old(self).next_index,
            forall|j: u64|
                #[trigger] final(self).nodes@.contains_key(j) <==> old(self).nodes@.contains_key(j)
                    && !descends(orig, j, k),
            forall|j: u64|
                #[trigger] final(self).nodes@.contains_key(j) ==> final(self).nodes@[j] == old(
                    self,
                ).nodes@[j],
    {
        let ghost scope = self.scope;
        let ghost next = self.next_index;
        let ghost m0 = self.nodes@;
        let mut pending = roots;
        proof {
            assert forall|i: int| 0 <= i < pending@.len() implies descends(orig, #[trigger] pending@[i], k) by {
                let c = pending@[i];
                assert(orig[k].children.unwrap()@.contains(c));
                assert(orig.contains_key(c) && orig[c].node.parent == Some(orig[k].node.id));
            }
            assert forall|x: u64| self.nodes@.contains_key(x) && #[trigger] descends(orig, x, k) implies pending@.contains(x)
                || (orig[x].node.parent.unwrap().index != k && self.nodes@.contains_key(
                orig[x].node.parent.unwrap().index,
            )) by {
                assert(parent_linked(scope, orig, x));
                if orig[x].node.parent.unwrap().index == k {
                    assert(orig[k].children.unwrap()@.contains(x));
                }
            }
        }
        while pending.len() > 0
            invariant
                self.scope == scope,
                self.next_index == next,
                self.root == old(self).root,
                graph_wf(scope, next, orig),
                orig.contains_key(k),
                m0 == old(self).nodes@,
                m0 == orig.insert(k, NodeRecord { children: None, ..orig[k] }),
                forall|j: u64|
                    #[trigger] self.nodes@.contains_key(j) ==> m0.contains_key(j) && self.nodes@[j]
                        == m0[j],
                forall|j: u64|
                    m0.contains_key(j) && !#[trigger] self.nodes@.contains_key(j) ==> descends(orig, j, k),
                forall|i: int| 0 <= i < pending@.len() ==> descends(orig, #[trigger] pending@[i], k),
                forall|x: u64|
                    self.nodes@.contains_key(x) && #[trigger] descends(orig, x, k) ==> pending@.contains(x)
                        || (orig[x].node.parent.unwrap().index != k && self.nodes@.contains_key(
                        orig[x].node.parent.unwrap().index,
                    )),
            decreases self.nodes@.len(), pending@.len(),
        {
            let ghost before = self.nodes@;
            let ghost pend = pending@;
            let c = pending.pop().unwrap();
            proof {
                assert(pend.last() == c);
                assert(pending@ =~= pend.drop_last());
                assert(descends(orig, c, k));
                lemma_descends_above(scope, next, orig, c, k);
                assert forall|x: u64| pend.contains(x) && x != c implies pending@.contains(x) by {
                    let i = choose|i: int| 0 <= i < pend.len() && pend[i] == x;
                    assert(i < pend.len() - 1);
                    assert(pending@[i] == x);
                }
            }
            match self.nodes.remove(&c) {
                None => {
                    proof {
                        assert(self.nodes@ == before);
                    }
                },
                Some(record) => {
                    proof {
                        assert(record == m0[c]);
                        assert(c != k);
                        assert(record == orig[c]);
                        assert(self.nodes@ == before.remove(c));
                        assert(before.dom().finite());
                        assert(self.nodes@.len() < before.len()) by {
                            assert(self.nodes@.dom() =~= before.dom().remove(c));
                        }
                    }
                    match record.children {
                        None => {
                            proof {
                                assert forall|x: u64| self.nodes@.contains_key(x) && #[trigger] descends(orig, x, k)
                                    implies pending@.contains(x) || (orig[x].node.parent.unwrap().index
                                    != k && self.nodes@.contains_key(orig[x].node.parent.unwrap().index)) by {
                                    assert(before.contains_key(x));
                                    if orig[x].node.parent.unwrap().index == c {
                                        assert(parent_linked(scope, orig, x));
                                        assert(orig[c].children is Some);
                                    }
                                }
                            }
                        },
                        Some(mut children) => {
                            let ghost kids = children@;
                            let ghost p2 = pending@;
                            pending.append(&mut children);
                            proof {
                                assert(pending@ == p2 + kids);
                                assert forall|i: int| 0 <= i < pending@.len() implies descends(
                                    orig,
                                    #[trigger] pending@[i],
                                    k,
                                ) by {
                                    if i >= p2.len() {
                                        let x = kids[i - p2.len()];
                                        assert(pending@[i] == x);
                                        assert(orig[c].children.unwrap()@.contains(x));
                                        assert(orig.contains_key(x) && orig[x].node.parent == Some(orig[c].node.id));
                                        assert(orig[c].node.id.index == c);
                                        assert(parent_linked(scope, orig, x));
                                    } else {
                                        assert(pending@[i] == p2[i]);
                                    }
                                }
                                assert forall|x: u64| self.nodes@.contains_key(x) && #[trigger] descends(orig, x, k)
                                    implies pending@.contains(x) || (orig[x].node.parent.unwrap().index
                                    != k && self.nodes@.contains_key(orig[x].node.parent.unwrap().index)) by {
                                    assert(before.contains_key(x));
                                    if pend.contains(x) {
                                        assert(x != c);
                                        assert(p2.contains(x));
                                        let i = choose|i: int| 0 <= i < p2.len() && p2[i] == x;
                                        assert(pending@[i] == x);
                                    } else if orig[x].node.parent.unwrap().index == c {
                                        assert(parent_linked(scope, orig, x));
                                        assert(kids.contains(x));
                                        let i = choose|i: int| 0 <= i < kids.len() && kids[i] == x;
                                        assert(pending@[p2.len() + i] == x);
                                    }
                                }
                            }
                        },
                    }
                },
            }
        }
        proof {
            assert forall|x: u64| self.nodes@.contains_key(x) && #[trigger] descends(orig, x, k) implies orig[x].node.parent.unwrap().index
                != k && self.nodes@.contains_key(orig[x].node.parent.unwrap().index) by {
                assert(!pending@.contains(x));
            }
            assert forall|j: u64| #[trigger] self.nodes@.contains_key(j) <==> m0.contains_key(j)
                && !descends(orig, j, k) by {
                lemma_no_present_descendant(orig, self.nodes@, k, j);
            }
        }
    }
}


/// The indices `base`, `base + 1`, ... of `n` nodes inserted in a row.
pub open spec fn index_run(base: u64, n: nat) -> Seq<u64> {
    Seq::new(n, |i: int| (base + i) as u64)
}

/// Whether `f`, with `fnext` the next index, is the graph `o` after the
/// children `prepared` were committed under the node `id`: the former
/// descendants of the node are gone, the new children sit under the next
/// indices in their order with the node as parent, the node lists exactly
/// them and carries the learned facet metadata, and every other node is
/// unchanged.
pub open spec fn committed(
    scope: u128,
    o: Map<u64, NodeRecord>,
    onext: u64,
    f: Map<u64, NodeRecord>,
    fnext: u64,
    id: NodeId,
    prepared: Seq<PreparedNode>,
    count: Option<u32>,
    has: Option<bool>,
) -> bool {
    let k = id.index;
    let n = prepared.len();
    &&& fnext == onext + n
    &&& forall|j: u64| #[trigger]
        f.contains_key(j) <==> (o.contains_key(j) && !descends(o, j, k)) || (onext <= j < onext + n)
    &&& forall|j: u64| #[trigger] f.contains_key(j) && o.contains_key(j) && j != k ==> f[j] == o[j]
    &&& f[k].children matches Some(cs) && cs@ == index_run(onext, n)
    &&& f[k] == (NodeRecord { children: f[k].children, ..with_facet_state(o[k], count, has) })
    &&& forall|i: int|
        0 <= i < n ==> f[(onext + i) as u64] == record_of(
            #[trigger] prepared[i],
            NodeId { scope, index: (onext + i) as u64 },
            Some(id),
        )
}

proof fn lemma_unexpanded_has_no_descendants(scope: u128, next: u64, m: Map<u64, NodeRecord>, k: u64, d: u64)
    requires
        graph_wf(scope, next, m),
        m.contains_key(k),
        m[k].children is None,
    ensures
        !descends(m, d, k),
    decreases d,
{
    if descends(m, d, k) {
        let p = m[d].node.parent.unwrap();
        assert(parent_linked(scope, m, d));
        if p.index != k {
            lemma_unexpanded_has_no_descendants(scope, next, m, k, p.index);
        }
    }
}

proof fn lemma_parent_of_kept_is_kept(scope: u128, next: u64, o: Map<u64, NodeRecord>, k: u64, j: u64)
    requires
        graph_wf(scope, next, o),
        o.contains_key(j),
        !descends(o, j, k),
        o[j].node.parent is Some,
    ensures
        o[j].node.parent.unwrap().index != k,
        !descends(o, o[j].node.parent.unwrap().index, k),
{
    assert(parent_linked(scope, o, j));
}

/// Reloading a directory replaces its children: after the commit the node
/// lists exactly the newly inserted nodes, each with the node as parent, and
/// none of the children it listed before, nor anything below them, resolves
/// any more.
pub proof fn reloads_replace_the_children(
    scope: u128,
    o: Map<u64, NodeRecord>,
    onext: u64,
    f: Map<u64, NodeRecord>,
    fnext: u64,
    id: NodeId,
    prepared: Seq<PreparedNode>,
    count: Option<u32>,
    has: Option<bool>,
)
    requires
        graph_wf(scope, onext, o),
        resolves(scope, o, id),
        committed(scope, o, onext, f, fnext, id, prepared, count, has),
    ensures
        f[id.index].children matches Some(cs) && cs@ == index_run(onext, prepared.len()),
        forall|i: int|
            0 <= i < prepared.len() ==> #[trigger] f[(onext + i) as u64].node.parent == Some(id),
        o[id.index].children matches Some(old) ==> forall|c: u64| #[trigger]
            old@.contains(c) ==> !resolves(scope, f, NodeId { scope, index: c }),
        forall|d: u64| #[trigger]
            descends(o, d, id.index) ==> !resolves(scope, f, NodeId { scope, index: d }),
{
    let k = id.index;
    assert forall|i: int| 0 <= i < prepared.len() implies #[trigger] f[(onext + i) as u64].node.parent
        == Some(id) by {
        assert(f[(onext + i) as u64] == record_of(
            prepared[i],
            NodeId { scope, index: (onext + i) as u64 },
            Some(id),
        ));
    }
    if let Some(old) = o[k].children {
        assert forall|c: u64| #[trigger] old@.contains(c) implies !resolves(
            scope,
            f,
            NodeId { scope, index: c },
        ) by {
            assert(o.contains_key(c) && o[c].node.parent == Some(o[k].node.id));
            assert(o[k].node.id == (NodeId { scope, index: k }));
            assert(descends(o, c, k));
            assert(c < onext);
            assert(!f.contains_key(c));
        }
    }
    assert forall|d: u64| #[trigger] descends(o, d, k) implies !resolves(
        scope,
        f,
        NodeId { scope, index: d },
    ) by {
        assert(o.contains_key(d));
        assert(d < onext);
        assert(!f.contains_key(d));
    }
}

/// A load is cached as it was returned: once children were committed under
/// a node, the node's cached children list exactly the snapshots the commit
/// returned, in their order and each with the node as parent, so a later
/// load that is not a refresh finds them rather than loading again.
pub proof fn loads_are_cached_as_returned(
    scope: u128,
    o: Map<u64, NodeRecord>,
    onext: u64,
    f: Map<u64, NodeRecord>,
    fnext: u64,
    id: NodeId,
    prepared: Seq<PreparedNode>,
    count: Option<u32>,
    has: Option<bool>,
    returned: Seq<Node>,
    listed: Seq<Node>,
)
    requires
        graph_wf(scope, onext, o),
        resolves(scope, o, id),
        committed(scope, o, onext, f, fnext, id, prepared, count, has),
        returned.len() == prepared.len(),
        forall|i: int| 0 <= i < returned.len() ==> #[trigger] returned[i] == f[(onext + i) as u64].node,
        listed.len() == f[id.index].children.unwrap()@.len(),
        forall|i: int|
            0 <= i < listed.len() ==> #[trigger] listed[i] == f[f[id.index].children.unwrap()@[i]].node,
    ensures
        f[id.index].children is Some,
        listed == returned,
        forall|i: int| 0 <= i < returned.len() ==> (#[trigger] returned[i]).parent == Some(id),
{
    let cs = f[id.index].children.unwrap()@;
    assert(cs == index_run(onext, prepared.len()));
    assert forall|i: int| 0 <= i < returned.len() implies listed[i] == returned[i] && (
    #[trigger] returned[i]).parent == Some(id) by {
        assert(cs[i] == (onext + i) as u64);
        assert(f[(onext + i) as u64] == record_of(
            prepared[i],
            NodeId { scope, index: (onext + i) as u64 },
            Some(id),
        ));
    }
    assert(listed =~= returned);
}

/// A refresh that reloaded a directory replaces its cached descendants: the
/// node's cached children are exactly the new snapshots the commit returned,
/// each live and listed under the node, while none of the children it listed
/// before, nor anything below them, resolves any more.
pub proof fn refreshes_replace_the_cached_descendants(
    scope: u128,
    o: Map<u64, NodeRecord>,
    onext: u64,
    f: Map<u64, NodeRecord>,
    fnext: u64,
    id: NodeId,
    prepared: Seq<PreparedNode>,
    count: Option<u32>,
    has: Option<bool>,
    returned: Seq<Node>,
    listed: Seq<Node>,
)
    requires
        graph_wf(scope, onext, o),
        resolves(scope, o, id),
        committed(scope, o, onext, f, fnext, id, prepared, count, has),
        returned.len() == prepared.len(),
        forall|i: int| 0 <= i < returned.len() ==> #[trigger] returned[i] == f[(onext + i) as u64].node,
        listed.len() == f[id.index].children.unwrap()@.len(),
        forall|i: int|
            0 <= i < listed.len() ==> #[trigger] listed[i] == f[f[id.index].children.unwrap()@[i]].node,
    ensures
        listed == returned,
        forall|i: int|
            0 <= i < returned.len() ==> (#[trigger] returned[i]).parent == Some(id) && resolves(
                scope,
                f,
                returned[i].id,
            ),
        o[id.index].children matches Some(old) ==> forall|c: u64| #[trigger]
            old@.contains(c) ==> !resolves(scope, f, NodeId { scope, index: c }),
        forall|d: u64| #[trigger]
            descends(o, d, id.index) ==> !resolves(scope, f, NodeId { scope, index: d }),
{
    loads_are_cached_as_returned(scope, o, onext, f, fnext, id, prepared, count, has, returned, listed);
    reloads_replace_the_children(scope, o, onext, f, fnext, id, prepared, count, has);
    commits_leave_no_orphans(scope, o, onext, f, fnext, id, prepared, count, has);
    assert forall|i: int| 0 <= i < returned.len() implies resolves(scope, f, (#[trigger] returned[i]).id) by {
        let j = (onext + i) as u64;
        assert(f.contains_key(j));
        assert(f[j] == record_of(prepared[i], NodeId { scope, index: j }, Some(id)));
    }
}

/// Committing children under a present node leaves no orphans: the graph
/// stays well formed, every parent present and listing its children, every
/// listed child present under its parent, every index below the next one.
pub proof fn commits_leave_no_orphans(
    scope: u128,
    o: Map<u64, NodeRecord>,
    onext: u64,
    f: Map<u64, NodeRecord>,
    fnext: u64,
    id: NodeId,
    prepared: Seq<PreparedNode>,
    count: Option<u32>,
    has: Option<bool>,
)
    requires
        graph_wf(scope, onext, o),
        resolves(scope, o, id),
        committed(scope, o, onext, f, fnext, id, prepared, count, has),
    ensures
        graph_wf(scope, fnext, f),
{
    let k = id.index;
    let n = prepared.len();
    assert(!descends(o, k, k)) by {
        if descends(o, k, k) {
            lemma_descends_above(scope, onext, o, k, k);
        }
    }
    assert(f.contains_key(k));
    assert(o[k].node.id == id);
    assert forall|j: u64| #[trigger] f.contains_key(j) implies j < fnext && f[j].node.id == (NodeId {
        scope,
        index: j,
    }) by {
        if onext <= j < onext + n {
            let i = j - onext;
            assert(f[(onext + i) as u64] == record_of(prepared[i], NodeId { scope, index: (onext + i) as u64 }, Some(id)));
        } else {
            assert(o.contains_key(j));
        }
    }
    assert forall|j: u64| #[trigger] f.contains_key(j) && f[j].node.parent is Some implies parent_linked(
        scope,
        f,
        j,
    ) by {
        if onext <= j < onext + n {
            let i = j - onext;
            assert(f[(onext + i) as u64] == record_of(prepared[i], NodeId { scope, index: (onext + i) as u64 }, Some(id)));
            assert(o.contains_key(k));
            assert(k < onext);
            assert(f[k].children.unwrap()@[i] == j);
        } else {
            assert(o.contains_key(j) && !descends(o, j, k));
            assert(f[j].node.parent == o[j].node.parent);
            assert(parent_linked(scope, o, j));
            lemma_parent_of_kept_is_kept(scope, onext, o, k, j);
            let p = o[j].node.parent.unwrap().index;
            assert(f.contains_key(p));
            if j == k {
                assert(p != k);
            }
            assert(f[p] == o[p]);
        }
    }
    assert forall|a: u64, c: u64|
        f.contains_key(a) && f[a].children is Some && #[trigger] f[a].children.unwrap()@.contains(c)
            implies f.contains_key(c) && f[c].node.parent == Some(f[a].node.id) by {
        if a == k {
            let i = choose|i: int| 0 <= i < n && f[k].children.unwrap()@[i] == c;
            assert(c == (onext + i) as u64);
            assert(f[(onext + i) as u64] == record_of(prepared[i], NodeId { scope, index: (onext + i) as u64 }, Some(id)));
        } else if onext <= a < onext + n {
            let i = a - onext;
            assert(f[(onext + i) as u64] == record_of(prepared[i], NodeId { scope, index: (onext + i) as u64 }, Some(id)));
        } else {
            assert(o.contains_key(a) && !descends(o, a, k));
            assert(f[a] == o[a]);
            assert(o.contains_key(c) && o[c].node.parent == Some(o[a].node.id));
            assert(o[a].node.id.index == a);
            assert(!descends(o, c, k));
            assert(f.contains_key(c));
            if c != k {
                assert(f[c] == o[c]);
            }
        }
    }
}

impl Graph {
    /// Commits loaded children under a node, replacing the subtree it had:
    /// the former descendants are removed, so their identities never resolve
    /// again; the children join under fresh indices in their order; the
    /// node takes the learned facet metadata. A node that was removed while
    /// its children loaded is reported stale and nothing changes.
    pub fn commit_children(&mut self, id: NodeId, loaded: Loaded) -> (r: Result<Vec<Node>, VfsError>)
        requires
            old(self).wf(),
            old(self).next() + loaded.prepared@.len() < u64::MAX,
        ensures
            final(self).wf(),
            final(self).scope() == old(self).scope(),
            final(self).root_id() == old(self).root_id(),
            match r {
                Err(VfsError::StaleNode(x)) => {
                    &&& x == id
                    &&& !old(self).has(id)
                    &&& final(self).records() == old(self).records()
                    &&& final(self).next() == old(self).next()
                },
                Err(_) => false,
                Ok(nodes) => {
                    &&& old(self).has(id)
                    &&& committed(
                        old(self).scope(),
                        old(self).records(),
                        old(self).next(),
                        final(self).records(),
                        final(self).next(),
                        id,
                        loaded.prepared@,
                        loaded.object_count,
                        loaded.has_children_of_same_facet,
                    )
                    &&& nodes@.len() == loaded.prepared@.len()
                    &&& forall|i: int|
                        0 <= i < nodes@.len() ==> #[trigger] nodes@[i] == final(self).records()[(
                        old(self).next() + i) as u64].node
                },
            },
    {
        let k = match id.index_for(self.scope) {
            None => return Err(VfsError::StaleNode(id)),
            Some(k) => k,
        };
        if !self.nodes.contains_key(&k) {
            return Err(VfsError::StaleNode(id));
        }
        let ghost scope = self.scope;
        let ghost orig = self.nodes@;
        let ghost base = self.next_index;
        let record = self.nodes.remove(&k).unwrap();
        let NodeRecord { node, expansion, object, children } = record;
        self.nodes.insert(k, NodeRecord { node, expansion, object, children: None });
        proof {
            assert(self.nodes@ == orig.insert(k, NodeRecord { children: None, ..orig[k] }));
        }
        let ghost m0 = self.nodes@;
        match children {
            Some(cs) => self.remove_subtrees(k, cs, Ghost(orig)),
            None => {
                proof {
                    assert forall|j: u64| !descends(orig, j, k) by {
                        lemma_unexpanded_has_no_descendants(scope, base, orig, k, j);
                    }
                }
            },
        }
        let ghost m1 = self.nodes@;
        proof {
            assert(!descends(orig, k, k)) by {
                if descends(orig, k, k) {
                    lemma_descends_above(scope, base, orig, k, k);
                }
            }
            assert(m1.contains_key(k));
            assert forall|j: u64| #[trigger] m1.contains_key(j) implies j < base by {
                assert(orig.contains_key(j));
            }
        }
        let Loaded { prepared, object_count, has_children_of_same_facet } = loaded;
        let ghost all = prepared@;
        let n = prepared.len();
        let mut rest = prepared;
        let mut list: Vec<u64> = Vec::new();
        let mut i: usize = 0;
        while rest.len() > 0
            invariant
                i + rest.len() == n,
                n == all.len(),
                base + n < u64::MAX,
                rest@ == all.skip(i as int),
                self.scope == scope,
                id.scope == scope,
                id.index == k,
                self.root == old(self).root,
                self.next_index == base + i,
                forall|j: u64| #[trigger] m1.contains_key(j) ==> j < base,
                forall|j: u64|
                    #[trigger] self.nodes@.contains_key(j) <==> m1.contains_key(j) || (base <= j
                        < base + i),
                forall|j: u64| #[trigger] m1.contains_key(j) ==> self.nodes@[j] == m1[j],
                forall|t: int|
                    0 <= t < i ==> self.nodes@[(base + t) as u64] == record_of(
                        #[trigger] all[t],
                        NodeId { scope, index: (base + t) as u64 },
                        Some(id),
                    ),
                list@ == index_run(base, i as nat),
            decreases rest.len(),
        {
            let p = rest.remove(0);
            proof {
                assert(p == all[i as int]);
                assert(rest@ =~= all.skip(i as int + 1));
            }
            let child = self.insert(Some(id), p);
            list.push(child.index);
            proof {
                assert(list@ =~= index_run(base, (i + 1) as nat));
            }
            i += 1;
        }
        let ids = list.clone();
        proof {
            assert(ids@ =~= list@);
        }
        let record = self.nodes.remove(&k).unwrap();
        let record = apply_facet_state(record, object_count, has_children_of_same_facet);
        let NodeRecord { node, expansion, object, children: _ } = record;
        self.nodes.insert(k, NodeRecord { node, expansion, object, children: Some(list) });
        proof {
            let f = self.nodes@;
            assert(m1[k] == m0[k]);
            assert forall|j: u64| #[trigger] f.contains_key(j) <==> (orig.contains_key(j) && !descends(orig, j, k))
                || (base <= j < base + n) by {}
            assert forall|j: u64| #[trigger] f.contains_key(j) && orig.contains_key(j) && j != k implies f[j]
                == orig[j] by {
                assert(j < base);
                assert(m1.contains_key(j));
            }
            assert forall|t: int| 0 <= t < n implies f[(base + t) as u64] == record_of(
                #[trigger] all[t],
                NodeId { scope, index: (base + t) as u64 },
                Some(id),
            ) by {
                assert((base + t) as u64 != k);
            }
            assert(committed(scope, orig, base, f, self.next_index, id, all, object_count, has_children_of_same_facet));
            commits_leave_no_orphans(scope, orig, base, f, self.next_index, id, all, object_count, has_children_of_same_facet);
            let root = self.root;
            assert(orig.contains_key(root.index) && orig[root.index].node.parent is None);
            assert(!descends(orig, root.index, k));
            assert(f.contains_key(root.index));
            if root.index != k {
                assert(f[root.index] == orig[root.index]);
            }
            assert forall|t: int| 0 <= t < ids@.len() implies self.nodes@.contains_key(#[trigger] ids@[t]) by {
                assert(ids@[t] == (base + t) as u64);
            }
        }
        let nodes = self.snapshots(ids.as_slice());
        assert(all == loaded.prepared@);
        assert(orig == old(self).nodes@);
        assert(base == old(self).next_index);
        assert(nodes@.len() == all.len());
        assert forall|t: int| 0 <= t < nodes@.len() implies #[trigger] nodes@[t] == self.nodes@[(base
            + t) as u64].node by {
            assert(ids@[t] == (base + t) as u64);
        }
        Ok(nodes)
    }
}


/// The indices from the root down to `k`, following parents.
pub open spec fn ancestry(m: Map<u64, NodeRecord>, k: u64) -> Seq<u64>
    decreases k,
{
    if m.contains_key(k) && m[k].node.parent is Some && m[k].node.parent.unwrap().index < k {
        ancestry(m, m[k].node.parent.unwrap().index).push(k)
    } else {
        seq![k]
    }
}

/// The children listed by the record of `k`, or none.
pub open spec fn listed_children(m: Map<u64, NodeRecord>, k: u64) -> Seq<u64> {
    match m[k].children {
        Some(cs) => cs@,
        None => Seq::empty(),
    }
}

/// The branch drawn before a node: the last sibling closes its branch.
pub open spec fn branch(is_last: bool) -> Seq<char> {
    if is_last {
        "└── "@
    } else {
        "├── "@
    }
}

/// What the children of a node are indented by, under their parent.
pub open spec fn indentation(is_last: bool) -> Seq<char> {
    if is_last {
        "    "@
    } else {
        "│   "@
    }
}

/// The lines of a node and its materialized descendants, each on a new
/// line under the given prefix.
pub open spec fn render_node(m: Map<u64, NodeRecord>, next: u64, k: u64, prefix: Seq<char>, is_last: bool) -> Seq<char>
    decreases next - k, 1int, 0int,
{
    if m.contains_key(k) && k < next {
        "\n"@ + prefix + branch(is_last) + m[k].node.label@ + render_children(
            m,
            next,
            k,
            0,
            prefix + indentation(is_last),
        )
    } else {
        Seq::empty()
    }
}

/// The lines of the children of `k` from the `i`-th on.
pub open spec fn render_children(m: Map<u64, NodeRecord>, next: u64, k: u64, i: int, prefix: Seq<char>) -> Seq<char>
    decreases next - k, 0int, listed_children(m, k).len() - i,
{
    let cs = listed_children(m, k);
    if m.contains_key(k) && k < next && 0 <= i < cs.len() {
        (if k < cs[i] < next {
            render_node(m, next, cs[i], prefix, i == cs.len() - 1)
        } else {
            Seq::empty()
        }) + render_children(m, next, k, i + 1, prefix)
    } else {
        Seq::empty()
    }
}

impl Graph {
    /// The snapshots from the root down to a node, without loading anything.
    pub fn path(&self, id: NodeId) -> (r: Result<Vec<Node>, VfsError>)
        requires
            self.wf(),
        ensures
            match r {
                Ok(ns) => {
                    let a = ancestry(self.records(), id.index);
                    &&& self.has(id)
                    &&& ns@.len() == a.len()
                    &&& forall|i: int| 0 <= i < a.len() ==> ns@[i] == self.records()[#[trigger] a[i]].node
                },
                Err(VfsError::UnknownNode(x)) => x == id && !self.has(id),
                Err(_) => false,
            },
    {
        let k = match id.index_for(self.scope) {
            None => return Err(VfsError::UnknownNode(id)),
            Some(k) => k,
        };
        if !self.nodes.contains_key(&k) {
            return Err(VfsError::UnknownNode(id));
        }
        let ghost m = self.nodes@;
        let mut ids: Vec<u64> = Vec::new();
        let mut current = k;
        loop
            invariant_except_break
                m == self.nodes@,
                graph_wf(self.scope, self.next_index, m),
                m.contains_key(current),
                ancestry(m, k) == ancestry(m, current) + ids@,
                forall|t: int| 0 <= t < ids@.len() ==> m.contains_key(#[trigger] ids@[t]),
            ensures
                m == self.nodes@,
                ids@ == ancestry(m, k),
                forall|t: int| 0 <= t < ids@.len() ==> m.contains_key(#[trigger] ids@[t]),
            decreases current,
        {
            let ghost before = ids@;
            ids.insert(0, current);
            proof {
                assert(ids@ =~= seq![current] + before);
            }
            let record = self.nodes.get(&current).unwrap();
            match record.node.parent {
                None => {
                    proof {
                        assert(ancestry(m, current) == seq![current]);
                        assert(ancestry(m, k) =~= ids@);
                    }
                    break;
                },
                Some(p) => {
                    proof {
                        assert(parent_linked(self.scope, m, current));
                        assert(ancestry(m, current) == ancestry(m, p.index).push(current));
                        assert(ancestry(m, k) =~= ancestry(m, p.index) + ids@);
                    }
                    current = p.index;
                },
            }
        }
        Ok(self.snapshots(ids.as_slice()))
    }

    fn render_node_into(&self, k: u64, prefix: &String, is_last: bool, out: &mut String)
        requires
            self.wf(),
            self.nodes@.contains_key(k),
        ensures
            final(out)@ == old(out)@ + render_node(self.nodes@, self.next_index, k, prefix@, is_last),
        decreases self.next_index - k, 1int, 0int,
    {
        let record = self.nodes.get(&k).unwrap();
        out.append("\n");
        out.append(prefix.as_str());
        if is_last {
            out.append("└── ");
        } else {
            out.append("├── ");
        }
        out.append(record.node.label.as_str());
        let mut child_prefix = prefix.clone();
        if is_last {
            child_prefix.append("    ");
        } else {
            child_prefix.append("│   ");
        }
        proof {
            assert(k < self.next_index);
        }
        self.render_children_into(k, 0, &child_prefix, out);
        proof {
            assert(final(out)@ =~= old(out)@ + render_node(self.nodes@, self.next_index, k, prefix@, is_last));
        }
    }

    fn render_children_into(&self, k: u64, i: usize, prefix: &String, out: &mut String)
        requires
            self.wf(),
            self.nodes@.contains_key(k),
            i <= listed_children(self.nodes@, k).len(),
        ensures
            final(out)@ == old(out)@ + render_children(self.nodes@, self.next_index, k, i as int, prefix@),
        decreases self.next_index - k, 0int, listed_children(self.nodes@, k).len() - i,
    {
        let record = self.nodes.get(&k).unwrap();
        match &record.children {
            None => {
                assert(render_children(self.nodes@, self.next_index, k, i as int, prefix@) =~= Seq::empty());
            },
            Some(cs) => {
                if i < cs.len() {
                    let c = cs[i];
                    proof {
                        assert(cs@.contains(c));
                        assert(self.nodes@.contains_key(c));
                        assert(parent_linked(self.scope, self.nodes@, c));
                        assert(k < c);
                        assert(c < self.next_index);
                    }
                    let ghost start = out@;
                    self.render_node_into(c, prefix, i + 1 == cs.len(), out);
                    self.render_children_into(k, i + 1, prefix, out);
                    proof {
                        assert(out@ =~= start + render_children(self.nodes@, self.next_index, k, i as int, prefix@));
                    }
                } else {
                    assert(render_children(self.nodes@, self.next_index, k, i as int, prefix@) =~= Seq::empty());
                }
            },
        }
    }

    /// Draws the materialized nodes as a directory tree under the root's
    /// label, without loading anything; nodes that were not expanded are
    /// drawn without descendants.
    pub fn render_tree(&self) -> (r: String)
        requires
            self.wf(),
        ensures
            r@ == self.records()[self.root_id().index].node.label@ + render_children(
                self.records(),
                self.next(),
                self.root_id().index,
                0,
                Seq::empty(),
            ),
    {
        let record = self.nodes.get(&self.root.index).unwrap();
        let mut rendered = record.node.label.clone();
        let prefix = String::new();
        self.render_children_into(self.root.index, 0, &prefix, &mut rendered);
        rendered
    }
}


/// Identities are never reused: after a commit, an index that was handed
/// out before and was no longer present, or that lay below the committed
/// node, does not resolve.
pub proof fn replaced_nodes_never_resolve_again(
    scope: u128,
    o: Map<u64, NodeRecord>,
    onext: u64,
    f: Map<u64, NodeRecord>,
    fnext: u64,
    id: NodeId,
    prepared: Seq<PreparedNode>,
    count: Option<u32>,
    has: Option<bool>,
    j: u64,
)
    requires
        committed(scope, o, onext, f, fnext, id, prepared, count, has),
        j < onext,
        !o.contains_key(j) || descends(o, j, id.index),
    ensures
        !f.contains_key(j),
{
}

/// A commit touches nothing outside the committed node's subtree: every
/// node that was present and did not lie below it keeps its record, apart
/// from the node itself.
pub proof fn commits_touch_only_the_subtree(
    scope: u128,
    o: Map<u64, NodeRecord>,
    onext: u64,
    f: Map<u64, NodeRecord>,
    fnext: u64,
    id: NodeId,
    prepared: Seq<PreparedNode>,
    count: Option<u32>,
    has: Option<bool>,
    j: u64,
)
    requires
        committed(scope, o, onext, f, fnext, id, prepared, count, has),
        o.contains_key(j),
        !descends(o, j, id.index),
        j != id.index,
    ensures
        f.contains_key(j),
        f[j] == o[j],
{
    assert(f.contains_key(j));
}

} // verus!

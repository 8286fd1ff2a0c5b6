//! Snapshots of the nodes of a virtual repository tree.
use vstd::prelude::*;

use crate::text::{clone_opt, opt_view};
use crate::uri::AdtUri;

verus! {

/// The identity of one node, scoped to the tree that issued it.
///
/// The scope tells the trees apart; the index is never reused within a tree,
/// so an identity whose node was removed never resolves again.
#[derive(Clone, Copy, Debug, PartialEq, Eq, Structural, Hash)]
pub struct NodeId {
    /// The tree that issued the identity.
    pub scope: u128,
    /// The node's index within its tree.
    pub index: u64,
}

impl NodeId {
    /// Creates the identity of the node with `index` in the tree `scope`.
    pub fn new(scope: u128, index: u64) -> (r: Self)
        ensures
            r.scope == scope,
            r.index == index,
    {
        NodeId { scope, index }
    }

    /// Returns the node's index when the identity belongs to the tree `scope`.
    pub fn index_for(self, scope: u128) -> (r: Option<u64>)
        ensures
            r == (if self.scope == scope { Some(self.index) } else { None::<u64> }),
    {
        if self.scope == scope {
            Some(self.index)
        } else {
            None
        }
    }
}

/// The kind of a configured mount that is not a package.
#[derive(Clone, Copy, Debug, PartialEq, Eq, Structural, Hash)]
pub enum MountKind {
    /// The complete package hierarchy of the system.
    SystemLibrary,
    /// An arbitrary repository selection.
    Selection,
}

/// The repository object behind an object node.
#[derive(Debug, PartialEq, Eq)]
pub struct ObjectNode {
    /// The object name.
    pub name: String,
    /// The package the object is assigned to.
    pub package: String,
    /// The global Workbench type, such as `CLAS/OC`.
    pub object_type: String,
    /// The object's resource URI.
    pub uri: AdtUri,
    /// The object's URI in the virtual Workbench tree, where one is known.
    pub virtual_workbench_uri: Option<AdtUri>,
    /// The object version, where one is reported.
    pub version: Option<String>,
    /// Whether the backend can expand the object further.
    pub expandable: bool,
    /// The short description, where one is reported.
    pub description: Option<String>,
}

/// The plain-value picture of an [`ObjectNode`].
pub struct ObjectNodeView {
    pub name: Seq<char>,
    pub package: Seq<char>,
    pub object_type: Seq<char>,
    pub uri: Seq<char>,
    pub virtual_workbench_uri: Option<Seq<char>>,
    pub version: Option<Seq<char>>,
    pub expandable: bool,
    pub description: Option<Seq<char>>,
}

/// The view of an optional URI.
pub open spec fn uri_opt_view(o: Option<AdtUri>) -> Option<Seq<char>> {
    match o {
        Some(u) => Some(u@),
        None => None,
    }
}

/// Copies an optional URI.
pub fn clone_uri_opt(o: &Option<AdtUri>) -> (r: Option<AdtUri>)
    ensures
        r == *o,
{
    match o {
        Some(u) => Some(u.clone()),
        None => None,
    }
}

impl View for ObjectNode {
    type V = ObjectNodeView;

    open spec fn view(&self) -> ObjectNodeView {
        ObjectNodeView {
            name: self.name@,
            package: self.package@,
            object_type: self.object_type@,
            uri: self.uri@,
            virtual_workbench_uri: uri_opt_view(self.virtual_workbench_uri),
            version: opt_view(self.version),
            expandable: self.expandable,
            description: opt_view(self.description),
        }
    }
}

impl Clone for ObjectNode {
    fn clone(&self) -> (r: Self)
        ensures
            r == *self,
    {
        ObjectNode {
            name: self.name.clone(),
            package: self.package.clone(),
            object_type: self.object_type.clone(),
            uri: self.uri.clone(),
            virtual_workbench_uri: clone_uri_opt(&self.virtual_workbench_uri),
            version: clone_opt(&self.version),
            expandable: self.expandable,
            description: clone_opt(&self.description),
        }
    }
}

/// What a node of the tree stands for.
#[allow(inconsistent_fields)]
#[derive(Debug, PartialEq, Eq)]
pub enum NodeKind {
    /// The root of the tree.
    Root,
    /// A configured mount that is not a package.
    Mount { mount: MountKind },
    /// A package; its object count is known once its parent was expanded.
    Package { package: String, uri: AdtUri, object_count: Option<u32> },
    /// A virtual folder selecting one value of a facet.
    Facet { facet: String, value: String, object_count: u32, has_children_of_same_facet: bool },
    /// A repository object.
    Object { object: ObjectNode },
}

/// The plain-value picture of a [`NodeKind`].
pub enum KindView {
    Root,
    Mount(MountKind),
    Package { package: Seq<char>, uri: Seq<char>, object_count: Option<u32> },
    Facet { facet: Seq<char>, value: Seq<char>, object_count: u32, has_children_of_same_facet: bool },
    Object(ObjectNodeView),
}

impl View for NodeKind {
    type V = KindView;

    open spec fn view(&self) -> KindView {
        match self {
            NodeKind::Root => KindView::Root,
            NodeKind::Mount { mount } => KindView::Mount(*mount),
            NodeKind::Package { package, uri, object_count } => KindView::Package {
                package: package@,
                uri: uri@,
                object_count: *object_count,
            },
            NodeKind::Facet { facet, value, object_count, has_children_of_same_facet } =>
                KindView::Facet {
                facet: facet@,
                value: value@,
                object_count: *object_count,
                has_children_of_same_facet: *has_children_of_same_facet,
            },
            NodeKind::Object { object } => KindView::Object(object@),
        }
    }
}

/// Where a kind of node is listed among its siblings: packages before
/// facet folders, folders before objects.
pub open spec fn kind_rank(k: KindView) -> u8 {
    match k {
        KindView::Root => 0,
        KindView::Mount(_) => 1,
        KindView::Package { .. } => 2,
        KindView::Facet { .. } => 3,
        KindView::Object(_) => 4,
    }
}

impl NodeKind {
    /// The position of this kind among sibling kinds.
    pub fn rank(&self) -> (r: u8)
        ensures
            r == kind_rank(self@),
    {
        match self {
            NodeKind::Root => 0,
            NodeKind::Mount { .. } => 1,
            NodeKind::Package { .. } => 2,
            NodeKind::Facet { .. } => 3,
            NodeKind::Object { .. } => 4,
        }
    }
}

impl Clone for NodeKind {
    fn clone(&self) -> (r: Self)
        ensures
            r == *self,
    {
        match self {
            NodeKind::Root => NodeKind::Root,
            NodeKind::Mount { mount } => NodeKind::Mount { mount: *mount },
            NodeKind::Package { package, uri, object_count } => NodeKind::Package {
                package: package.clone(),
                uri: uri.clone(),
                object_count: *object_count,
            },
            NodeKind::Facet { facet, value, object_count, has_children_of_same_facet } =>
                NodeKind::Facet {
                facet: facet.clone(),
                value: value.clone(),
                object_count: *object_count,
                has_children_of_same_facet: *has_children_of_same_facet,
            },
            NodeKind::Object { object } => NodeKind::Object { object: object.clone() },
        }
    }
}

/// A snapshot of one node of the tree.
#[derive(Debug, PartialEq, Eq)]
pub struct Node {
    /// The node's identity.
    pub id: NodeId,
    /// The identity of the node's parent; `None` for the root.
    pub parent: Option<NodeId>,
    /// The name under which the node is listed.
    pub label: String,
    /// What the node stands for.
    pub kind: NodeKind,
}

impl Node {
    /// Whether the node can have children: every node but an object.
    pub fn is_directory(&self) -> (r: bool)
        ensures
            r == !(self.kind is Object),
    {
        !matches!(self.kind, NodeKind::Object { .. })
    }
}

impl Clone for Node {
    fn clone(&self) -> (r: Self)
        ensures
            r == *self,
    {
        Node { id: self.id, parent: self.parent, label: self.label.clone(), kind: self.kind.clone() }
    }
}

} // verus!

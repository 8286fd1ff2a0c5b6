//! Errors of the virtual repository tree.
use vstd::prelude::*;

use crate::error::OperationError;
use crate::repository::RepositoryFacet;
use crate::vfs::node::NodeId;

verus! {

/// An error produced while navigating or loading the virtual repository tree.
#[derive(Debug)]
pub enum VfsError {
    /// A repository request failed.
    Operation(OperationError),
    /// A facet policy names a facet the backend does not advertise.
    UnsupportedFacet(RepositoryFacet),
    /// A facet policy names a facet that cannot structure results.
    UnstructuredFacet(RepositoryFacet),
    /// The node is not, or no longer, part of this tree.
    UnknownNode(NodeId),
    /// The node was removed while its children were loading.
    StaleNode(NodeId),
    /// The node is an object and has no children.
    NotDirectory(NodeId),
    /// The node is not a repository object.
    NotObject(NodeId),
    /// The node's children were installed with the tree and cannot be reloaded.
    NotRefreshable(NodeId),
    /// A package folder of a result carried no package URI.
    MissingPackageUri(String),
}

} // verus!

//! A lazily expanded virtual repository tree: mounts, facet policies, the
//! expansion rules that decide how each directory obtains its children, and
//! the node graph that caches what was loaded.
pub mod catalog;
pub mod config;
pub mod error;
pub mod expand;
pub mod graph;
pub mod load;
pub mod node;
pub mod prepared;

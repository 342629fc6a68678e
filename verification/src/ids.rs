//! Stable identifiers of domain objects.

use vstd::prelude::*;

verus! {

/// Identifier of a node of the domain graph.
///
/// The identifier is independent of any visual entity that shows the node.
#[derive(Debug, Clone, Copy, PartialEq, Eq, Hash, Structural)]
pub struct NodeId(pub u128);

/// Identifier of an edge of the domain graph.
#[derive(Debug, Clone, Copy, PartialEq, Eq, Hash, Structural)]
pub struct EdgeId(pub u128);

/// Identifier of a domain graph.
#[derive(Debug, Clone, Copy, PartialEq, Eq, Hash, Structural)]
pub struct GraphId(pub u128);

} // verus!

//! What a visual entity records about the domain object it shows.

use bevy::prelude::Entity;
use vstd::prelude::*;

use crate::ids::{EdgeId, GraphId, NodeId};

verus! {

/// Marks an entity as the visual of one domain node.
#[derive(Debug, Clone, Copy, PartialEq, Eq, Structural)]
pub struct NodeVisual {
    pub node_id: NodeId,
    pub graph_id: GraphId,
}

/// Marks an entity as the visual of one domain edge, drawn between the
/// entities of its two end nodes.
#[derive(Debug, Clone, Copy, PartialEq, Eq)]
pub struct EdgeVisual {
    pub edge_id: EdgeId,
    pub graph_id: GraphId,
    pub source: Entity,
    pub target: Entity,
}

} // verus!

//! Domain events that the visual scene reacts to, and the events that
//! interactions with the scene give rise to.

use bevy::prelude::{Entity, Vec3};
use vstd::prelude::*;

use crate::ids::{EdgeId, GraphId, NodeId};

verus! {

/// A node was created in the domain graph and wants a visual.
#[derive(Debug, Clone, Copy, PartialEq)]
pub struct CreateNodeVisual {
    pub node_id: NodeId,
    pub graph_id: GraphId,
    pub position: Vec3,
}

/// A node was removed from the domain graph.
#[derive(Debug, Clone, Copy, PartialEq, Eq, Structural)]
pub struct RemoveNodeVisual {
    pub node_id: NodeId,
}

/// An edge was created between two nodes of the domain graph.
#[derive(Debug, Clone, Copy, PartialEq, Eq, Structural)]
pub struct CreateEdgeVisual {
    pub edge_id: EdgeId,
    pub graph_id: GraphId,
    pub source_id: NodeId,
    pub target_id: NodeId,
}

/// An edge was removed from the domain graph.
#[derive(Debug, Clone, Copy, PartialEq, Eq, Structural)]
pub struct RemoveEdgeVisual {
    pub edge_id: EdgeId,
}

/// A node of the domain graph has a new position.
#[derive(Debug, Clone, Copy, PartialEq)]
pub struct NodePositionChanged {
    pub node_id: NodeId,
    pub new_position: Vec3,
}

/// The metadata of a node changed.
#[derive(Debug, Clone, Copy, PartialEq, Eq, Structural)]
pub struct NodeMetadataChanged {
    pub node_id: NodeId,
}

/// The metadata of an edge changed.
#[derive(Debug, Clone, Copy, PartialEq, Eq, Structural)]
pub struct EdgeMetadataChanged {
    pub edge_id: EdgeId,
}

/// An interaction selected or deselected a visual entity.
#[derive(Debug, Clone, Copy, PartialEq, Eq)]
pub struct SelectionChanged {
    pub entity: Entity,
    pub selected: bool,
}

} // verus!

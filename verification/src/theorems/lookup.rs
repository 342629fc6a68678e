//! Which entity shows which domain object.

use bevy::prelude::Entity;
use vstd::prelude::*;

use crate::components::{EdgeVisual, NodeVisual};
use crate::ids::{EdgeId, NodeId};
use crate::morphisms::node_entity;

verus! {

/// Whether a row of the snapshot has `entity` show node `id`.
pub open spec fn shows_node(nodes: Seq<(Entity, NodeVisual)>, entity: Entity, id: NodeId) -> bool {
    exists|j: int|
        0 <= j < nodes.len() && (#[trigger] nodes[j]).0 == entity && nodes[j].1.node_id == id
}

/// Whether a row of the snapshot has `entity` show edge `id`.
pub open spec fn shows_edge(edges: Seq<(Entity, EdgeVisual)>, entity: Entity, id: EdgeId) -> bool {
    exists|j: int|
        0 <= j < edges.len() && (#[trigger] edges[j]).0 == entity && edges[j].1.edge_id == id
}

/// Whether a row of the snapshot shows node `id`.
pub open spec fn node_is_shown(nodes: Seq<(Entity, NodeVisual)>, id: NodeId) -> bool {
    exists|j: int| 0 <= j < nodes.len() && (#[trigger] nodes[j]).1.node_id == id
}

/// The entity picked for a node is that of the last row that shows the
/// node. No entity is picked exactly when no row shows the node.
pub proof fn lemma_node_entity_is_last_match(nodes: Seq<(Entity, NodeVisual)>, id: NodeId)
    ensures
        match node_entity(nodes, id) {
            Some(entity) => exists|i: int|
                {
                    &&& 0 <= i < nodes.len()
                    &&& (#[trigger] nodes[i]).1.node_id == id
                    &&& nodes[i].0 == entity
                    &&& forall|j: int| i < j < nodes.len() ==> (#[trigger] nodes[j]).1.node_id != id
                },
            None => forall|i: int| 0 <= i < nodes.len() ==> (#[trigger] nodes[i]).1.node_id != id,
        },
    decreases nodes.len(),
{
    reveal(Seq::filter);
    if nodes.len() > 0 {
        let rest = nodes.drop_last();
        lemma_node_entity_is_last_match(rest, id);
        if nodes.last().1.node_id == id {
            let i = nodes.len() - 1;
            assert(nodes[i].1.node_id == id && nodes[i].0 == node_entity(nodes, id)->0);
        } else {
            match node_entity(rest, id) {
                Some(entity) => {
                    let i = choose|i: int|
                        {
                            &&& 0 <= i < rest.len()
                            &&& (#[trigger] rest[i]).1.node_id == id
                            &&& rest[i].0 == entity
                            &&& forall|j: int|
                                i < j < rest.len() ==> (#[trigger] rest[j]).1.node_id != id
                        };
                    assert(nodes[i] == rest[i]);
                    assert forall|j: int| i < j < nodes.len() implies (#[trigger] nodes[j]).1.node_id
                        != id by {
                        if j < rest.len() {
                            assert(nodes[j] == rest[j]);
                        }
                    }
                },
                None => {
                    assert forall|i: int| 0 <= i < nodes.len() implies (#[trigger] nodes[i]).1.node_id
                        != id by {
                        if i < rest.len() {
                            assert(nodes[i] == rest[i]);
                        }
                    }
                },
            }
        }
    }
}

} // verus!

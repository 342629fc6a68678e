//! A batch may be delivered in parts.

use bevy::prelude::Entity;
use vstd::prelude::*;

use crate::components::{EdgeVisual, NodeVisual};
use crate::events::{
    CreateEdgeVisual, CreateNodeVisual, NodePositionChanged, RemoveEdgeVisual, RemoveNodeVisual,
};
use crate::morphisms::{
    create_edge_plan, create_node_plan, edge_despawns, edge_spawn, node_despawns, node_moves,
    remove_edge_plan, remove_node_plan, update_position_plan,
};
use crate::seq_facts::{lemma_filter_map_add, lemma_flat_map_add};

verus! {

/// Node creations delivered in two batches lead to the same spawns as in
/// one.
pub proof fn lemma_create_node_plan_splits(first: Seq<CreateNodeVisual>, second: Seq<CreateNodeVisual>)
    ensures
        create_node_plan(first + second) == create_node_plan(first) + create_node_plan(second),
{
}

/// Node removals delivered in two batches against one snapshot lead to the
/// same despawns as in one.
pub proof fn lemma_remove_node_plan_splits(
    first: Seq<RemoveNodeVisual>,
    second: Seq<RemoveNodeVisual>,
    nodes: Seq<(Entity, NodeVisual)>,
)
    ensures
        remove_node_plan(first + second, nodes) == remove_node_plan(first, nodes)
            + remove_node_plan(second, nodes),
{
    lemma_flat_map_add(
        first,
        second,
        |event: RemoveNodeVisual| node_despawns(nodes, event.node_id),
    );
}

/// Edge creations delivered in two batches against one snapshot lead to the
/// same spawns as in one.
pub proof fn lemma_create_edge_plan_splits(
    first: Seq<CreateEdgeVisual>,
    second: Seq<CreateEdgeVisual>,
    nodes: Seq<(Entity, NodeVisual)>,
)
    ensures
        create_edge_plan(first + second, nodes) == create_edge_plan(first, nodes)
            + create_edge_plan(second, nodes),
{
    lemma_filter_map_add(first, second, |event: CreateEdgeVisual| edge_spawn(event, nodes));
}

/// Edge removals delivered in two batches against one snapshot lead to the
/// same despawns as in one.
pub proof fn lemma_remove_edge_plan_splits(
    first: Seq<RemoveEdgeVisual>,
    second: Seq<RemoveEdgeVisual>,
    edges: Seq<(Entity, EdgeVisual)>,
)
    ensures
        remove_edge_plan(first + second, edges) == remove_edge_plan(first, edges)
            + remove_edge_plan(second, edges),
{
    lemma_flat_map_add(
        first,
        second,
        |event: RemoveEdgeVisual| edge_despawns(edges, event.edge_id),
    );
}

/// Position changes delivered in two batches against one snapshot lead to
/// the same moves as in one.
pub proof fn lemma_update_position_plan_splits(
    first: Seq<NodePositionChanged>,
    second: Seq<NodePositionChanged>,
    nodes: Seq<(Entity, NodeVisual)>,
)
    ensures
        update_position_plan(first + second, nodes) == update_position_plan(first, nodes)
            + update_position_plan(second, nodes),
{
    lemma_flat_map_add(first, second, |event: NodePositionChanged| node_moves(nodes, event));
}

} // verus!

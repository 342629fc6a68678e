//! Removals despawn what shows the removed object, and nothing else.

use bevy::prelude::Entity;
use vstd::prelude::*;

use crate::commands::{despawned_by, VisualCommand};
use crate::components::{EdgeVisual, NodeVisual};
use crate::events::{RemoveEdgeVisual, RemoveNodeVisual};
use crate::morphisms::{edge_despawns, node_despawns, remove_edge_plan, remove_node_plan};
use crate::seq_facts::{lemma_filter_map_values_contains, lemma_flat_map_contains};
use crate::theorems::lookup::{shows_edge, shows_node};

verus! {

/// Whether one of the events removes a node that `entity` shows.
pub open spec fn node_removal_hits(
    events: Seq<RemoveNodeVisual>,
    nodes: Seq<(Entity, NodeVisual)>,
    entity: Entity,
) -> bool {
    exists|i: int| 0 <= i < events.len() && shows_node(nodes, entity, (#[trigger] events[i]).node_id)
}

/// Whether one of the events removes an edge that `entity` shows.
pub open spec fn edge_removal_hits(
    events: Seq<RemoveEdgeVisual>,
    edges: Seq<(Entity, EdgeVisual)>,
    entity: Entity,
) -> bool {
    exists|i: int| 0 <= i < events.len() && shows_edge(edges, entity, (#[trigger] events[i]).edge_id)
}

/// A removal plan despawns the entities that show a removed node, and holds
/// no other command.
pub proof fn lemma_node_removal_despawns_what_is_shown(
    events: Seq<RemoveNodeVisual>,
    nodes: Seq<(Entity, NodeVisual)>,
    command: VisualCommand,
)
    ensures
        remove_node_plan(events, nodes).contains(command) <==> command is Despawn
            && node_removal_hits(events, nodes, command->Despawn_entity),
{
    let per_event = |event: RemoveNodeVisual| node_despawns(nodes, event.node_id);
    lemma_flat_map_contains(events, per_event, command);
    assert forall|i: int| 0 <= i < events.len() implies ((#[trigger] per_event(events[i])).contains(
        command,
    ) <==> command is Despawn && shows_node(nodes, command->Despawn_entity, events[i].node_id)) by {
        lemma_filter_map_values_contains(
            nodes,
            |row: (Entity, NodeVisual)| row.1.node_id == events[i].node_id,
            |row: (Entity, NodeVisual)| VisualCommand::Despawn { entity: row.0 },
            command,
        );
    }
    if remove_node_plan(events, nodes).contains(command) {
        let i = choose|i: int| 0 <= i < events.len() && (#[trigger] per_event(events[i])).contains(command);
        assert(shows_node(nodes, command->Despawn_entity, events[i].node_id));
    }
    if command is Despawn && node_removal_hits(events, nodes, command->Despawn_entity) {
        let i = choose|i: int|
            0 <= i < events.len() && shows_node(
                nodes,
                command->Despawn_entity,
                (#[trigger] events[i]).node_id,
            );
        assert(per_event(events[i]).contains(command));
    }
}

/// A removal plan takes an entity out of the scene exactly when the entity
/// shows a removed node.
pub proof fn lemma_node_removal_despawns_exactly(
    events: Seq<RemoveNodeVisual>,
    nodes: Seq<(Entity, NodeVisual)>,
    entity: Entity,
)
    ensures
        despawned_by(remove_node_plan(events, nodes), entity) <==> node_removal_hits(
            events,
            nodes,
            entity,
        ),
{
    let plan = remove_node_plan(events, nodes);
    let despawn = VisualCommand::Despawn { entity };
    lemma_node_removal_despawns_what_is_shown(events, nodes, despawn);
    if despawned_by(plan, entity) {
        let k = choose|k: int|
            0 <= k < plan.len() && (#[trigger] plan[k]).is_despawn() && plan[k].target() == Some(
                entity,
            );
        lemma_node_removal_despawns_what_is_shown(events, nodes, plan[k]);
        assert(plan.contains(plan[k]));
        assert(plan[k] == despawn);
    }
    if plan.contains(despawn) {
        let k = choose|k: int| 0 <= k < plan.len() && plan[k] == despawn;
        assert(plan[k].is_despawn() && plan[k].target() == Some(entity));
    }
}

/// Removals of nodes that no entity shows lead to nothing, and only they do.
pub proof fn lemma_node_removal_of_unshown_is_silent(
    events: Seq<RemoveNodeVisual>,
    nodes: Seq<(Entity, NodeVisual)>,
)
    ensures
        remove_node_plan(events, nodes).len() == 0 <==> forall|i: int, j: int|
            0 <= i < events.len() && 0 <= j < nodes.len() ==> (#[trigger] events[i]).node_id != (
            #[trigger] nodes[j]).1.node_id,
{
    let plan = remove_node_plan(events, nodes);
    if plan.len() > 0 {
        lemma_node_removal_despawns_what_is_shown(events, nodes, plan[0]);
        assert(plan.contains(plan[0]));
        let entity = plan[0]->Despawn_entity;
        let i = choose|i: int|
            0 <= i < events.len() && shows_node(nodes, entity, (#[trigger] events[i]).node_id);
        let j = choose|j: int|
            0 <= j < nodes.len() && (#[trigger] nodes[j]).0 == entity && nodes[j].1.node_id
                == events[i].node_id;
        assert(events[i].node_id == nodes[j].1.node_id);
    }
    if exists|i: int, j: int|
        0 <= i < events.len() && 0 <= j < nodes.len() && (#[trigger] events[i]).node_id == (
        #[trigger] nodes[j]).1.node_id {
        let (i, j) = choose|i: int, j: int|
            0 <= i < events.len() && 0 <= j < nodes.len() && (#[trigger] events[i]).node_id == (
            #[trigger] nodes[j]).1.node_id;
        let despawn = VisualCommand::Despawn { entity: nodes[j].0 };
        assert(shows_node(nodes, nodes[j].0, events[i].node_id));
        lemma_node_removal_despawns_what_is_shown(events, nodes, despawn);
        assert(plan.contains(despawn));
    }
}

/// Removals that were applied already lead to nothing when they are
/// delivered again: against the rows whose entities the plan has left in
/// the scene, the same events give an empty plan.
pub proof fn lemma_node_removal_redelivery_is_silent(
    events: Seq<RemoveNodeVisual>,
    nodes: Seq<(Entity, NodeVisual)>,
)
    ensures
        ({
            let plan = remove_node_plan(events, nodes);
            let remaining = nodes.filter(|row: (Entity, NodeVisual)| !despawned_by(plan, row.0));
            remove_node_plan(events, remaining).len() == 0
        }),
{
    let plan = remove_node_plan(events, nodes);
    let stays = |row: (Entity, NodeVisual)| !despawned_by(plan, row.0);
    let remaining = nodes.filter(stays);
    assert forall|i: int, j: int| 0 <= i < events.len() && 0 <= j < remaining.len() implies (
    #[trigger] events[i]).node_id != (#[trigger] remaining[j]).1.node_id by {
        nodes.lemma_filter_pred(stays, j);
        assert(remaining.contains(remaining[j]));
        nodes.lemma_filter_contains_rev(stays, remaining[j]);
        let k = choose|k: int| 0 <= k < nodes.len() && nodes[k] == remaining[j];
        if events[i].node_id == remaining[j].1.node_id {
            assert(shows_node(nodes, nodes[k].0, events[i].node_id));
            lemma_node_removal_despawns_exactly(events, nodes, nodes[k].0);
        }
    }
    lemma_node_removal_of_unshown_is_silent(events, remaining);
}

/// A removal plan despawns the entities that show a removed edge, and holds
/// no other command.
pub proof fn lemma_edge_removal_despawns_what_is_shown(
    events: Seq<RemoveEdgeVisual>,
    edges: Seq<(Entity, EdgeVisual)>,
    command: VisualCommand,
)
    ensures
        remove_edge_plan(events, edges).contains(command) <==> command is Despawn
            && edge_removal_hits(events, edges, command->Despawn_entity),
{
    let per_event = |event: RemoveEdgeVisual| edge_despawns(edges, event.edge_id);
    lemma_flat_map_contains(events, per_event, command);
    assert forall|i: int| 0 <= i < events.len() implies ((#[trigger] per_event(events[i])).contains(
        command,
    ) <==> command is Despawn && shows_edge(edges, command->Despawn_entity, events[i].edge_id)) by {
        lemma_filter_map_values_contains(
            edges,
            |row: (Entity, EdgeVisual)| row.1.edge_id == events[i].edge_id,
            |row: (Entity, EdgeVisual)| VisualCommand::Despawn { entity: row.0 },
            command,
        );
    }
    if remove_edge_plan(events, edges).contains(command) {
        let i = choose|i: int| 0 <= i < events.len() && (#[trigger] per_event(events[i])).contains(command);
        assert(shows_edge(edges, command->Despawn_entity, events[i].edge_id));
    }
    if command is Despawn && edge_removal_hits(events, edges, command->Despawn_entity) {
        let i = choose|i: int|
            0 <= i < events.len() && shows_edge(
                edges,
                command->Despawn_entity,
                (#[trigger] events[i]).edge_id,
            );
        assert(per_event(events[i]).contains(command));
    }
}

/// A removal plan takes an entity out of the scene exactly when the entity
/// shows a removed edge.
pub proof fn lemma_edge_removal_despawns_exactly(
    events: Seq<RemoveEdgeVisual>,
    edges: Seq<(Entity, EdgeVisual)>,
    entity: Entity,
)
    ensures
        despawned_by(remove_edge_plan(events, edges), entity) <==> edge_removal_hits(
            events,
            edges,
            entity,
        ),
{
    let plan = remove_edge_plan(events, edges);
    let despawn = VisualCommand::Despawn { entity };
    lemma_edge_removal_despawns_what_is_shown(events, edges, despawn);
    if despawned_by(plan, entity) {
        let k = choose|k: int|
            0 <= k < plan.len() && (#[trigger] plan[k]).is_despawn() && plan[k].target() == Some(
                entity,
            );
        lemma_edge_removal_despawns_what_is_shown(events, edges, plan[k]);
        assert(plan.contains(plan[k]));
        assert(plan[k] == despawn);
    }
    if plan.contains(despawn) {
        let k = choose|k: int| 0 <= k < plan.len() && plan[k] == despawn;
        assert(plan[k].is_despawn() && plan[k].target() == Some(entity));
    }
}

/// Removals of edges that no entity shows lead to nothing, and only they do.
pub proof fn lemma_edge_removal_of_unshown_is_silent(
    events: Seq<RemoveEdgeVisual>,
    edges: Seq<(Entity, EdgeVisual)>,
)
    ensures
        remove_edge_plan(events, edges).len() == 0 <==> forall|i: int, j: int|
            0 <= i < events.len() && 0 <= j < edges.len() ==> (#[trigger] events[i]).edge_id != (
            #[trigger] edges[j]).1.edge_id,
{
    let plan = remove_edge_plan(events, edges);
    if plan.len() > 0 {
        lemma_edge_removal_despawns_what_is_shown(events, edges, plan[0]);
        assert(plan.contains(plan[0]));
        let entity = plan[0]->Despawn_entity;
        let i = choose|i: int|
            0 <= i < events.len() && shows_edge(edges, entity, (#[trigger] events[i]).edge_id);
        let j = choose|j: int|
            0 <= j < edges.len() && (#[trigger] edges[j]).0 == entity && edges[j].1.edge_id
                == events[i].edge_id;
        assert(events[i].edge_id == edges[j].1.edge_id);
    }
    if exists|i: int, j: int|
        0 <= i < events.len() && 0 <= j < edges.len() && (#[trigger] events[i]).edge_id == (
        #[trigger] edges[j]).1.edge_id {
        let (i, j) = choose|i: int, j: int|
            0 <= i < events.len() && 0 <= j < edges.len() && (#[trigger] events[i]).edge_id == (
            #[trigger] edges[j]).1.edge_id;
        let despawn = VisualCommand::Despawn { entity: edges[j].0 };
        assert(shows_edge(edges, edges[j].0, events[i].edge_id));
        lemma_edge_removal_despawns_what_is_shown(events, edges, despawn);
        assert(plan.contains(despawn));
    }
}

/// Edge removals that were applied already lead to nothing when they are
/// delivered again.
pub proof fn lemma_edge_removal_redelivery_is_silent(
    events: Seq<RemoveEdgeVisual>,
    edges: Seq<(Entity, EdgeVisual)>,
)
    ensures
        ({
            let plan = remove_edge_plan(events, edges);
            let remaining = edges.filter(|row: (Entity, EdgeVisual)| !despawned_by(plan, row.0));
            remove_edge_plan(events, remaining).len() == 0
        }),
{
    let plan = remove_edge_plan(events, edges);
    let stays = |row: (Entity, EdgeVisual)| !despawned_by(plan, row.0);
    let remaining = edges.filter(stays);
    assert forall|i: int, j: int| 0 <= i < events.len() && 0 <= j < remaining.len() implies (
    #[trigger] events[i]).edge_id != (#[trigger] remaining[j]).1.edge_id by {
        edges.lemma_filter_pred(stays, j);
        assert(remaining.contains(remaining[j]));
        edges.lemma_filter_contains_rev(stays, remaining[j]);
        let k = choose|k: int| 0 <= k < edges.len() && edges[k] == remaining[j];
        if events[i].edge_id == remaining[j].1.edge_id {
            assert(shows_edge(edges, edges[k].0, events[i].edge_id));
            lemma_edge_removal_despawns_exactly(events, edges, edges[k].0);
        }
    }
    lemma_edge_removal_of_unshown_is_silent(events, remaining);
}

} // verus!

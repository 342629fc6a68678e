//! Edges are spawned between the entities of their end nodes, or not at
//! all.

use bevy::prelude::Entity;
use vstd::prelude::*;

use crate::commands::VisualCommand;
use crate::components::NodeVisual;
use crate::events::CreateEdgeVisual;
use crate::morphisms::{create_edge_plan, edge_spawn, node_entity};
use crate::seq_facts::lemma_add_contains;
use crate::theorems::lookup::{lemma_node_entity_is_last_match, node_is_shown};

verus! {

/// An edge is spawned exactly when both of its end nodes are shown, and
/// then between the entities picked for them.
pub proof fn lemma_edge_spawn_needs_both_ends(
    event: CreateEdgeVisual,
    nodes: Seq<(Entity, NodeVisual)>,
)
    ensures
        edge_spawn(event, nodes) is Some <==> node_is_shown(nodes, event.source_id)
            && node_is_shown(nodes, event.target_id),
        edge_spawn(event, nodes) matches Some(command) ==> command == (VisualCommand::SpawnEdge {
            edge_id: event.edge_id,
            graph_id: event.graph_id,
            source: node_entity(nodes, event.source_id)->0,
            target: node_entity(nodes, event.target_id)->0,
        }),
{
    lemma_node_entity_is_last_match(nodes, event.source_id);
    lemma_node_entity_is_last_match(nodes, event.target_id);
}

/// A plan of edge creations holds the spawns of its events, and no other
/// command.
pub proof fn lemma_edge_creation_spawns_what_is_found(
    events: Seq<CreateEdgeVisual>,
    nodes: Seq<(Entity, NodeVisual)>,
    command: VisualCommand,
)
    ensures
        create_edge_plan(events, nodes).contains(command) <==> exists|i: int|
            0 <= i < events.len() && edge_spawn(#[trigger] events[i], nodes) == Some(command),
    decreases events.len(),
{
    let per_event = |event: CreateEdgeVisual| edge_spawn(event, nodes);
    if events.len() > 0 {
        let rest = events.drop_last();
        let last = events.last();
        lemma_edge_creation_spawns_what_is_found(rest, nodes, command);
        let rest_plan = create_edge_plan(rest, nodes);
        let spawned = match edge_spawn(last, nodes) {
            Some(spawn) => seq![spawn],
            None => Seq::empty(),
        };
        assert(create_edge_plan(events, nodes) == rest_plan + spawned);
        lemma_add_contains(rest_plan, spawned, command);
        if rest_plan.contains(command) {
            let i = choose|i: int|
                0 <= i < rest.len() && edge_spawn(#[trigger] rest[i], nodes) == Some(command);
            assert(edge_spawn(events[i], nodes) == Some(command));
        }
        if spawned.contains(command) {
            assert(edge_spawn(events[events.len() - 1], nodes) == Some(command));
        }
        if exists|i: int|
            0 <= i < events.len() && edge_spawn(#[trigger] events[i], nodes) == Some(command) {
            let i = choose|i: int|
                0 <= i < events.len() && edge_spawn(#[trigger] events[i], nodes) == Some(command);
            if i < rest.len() {
                assert(edge_spawn(rest[i], nodes) == Some(command));
            } else {
                assert(spawned[0] == command);
            }
        }
    }
}

/// Every edge creation leads to one spawn at most; and a batch leads to
/// none exactly when each of its edges lacks the entity of an end node.
pub proof fn lemma_edge_creation_without_ends_is_silent(
    events: Seq<CreateEdgeVisual>,
    nodes: Seq<(Entity, NodeVisual)>,
)
    ensures
        create_edge_plan(events, nodes).len() <= events.len(),
        create_edge_plan(events, nodes).len() == 0 <==> forall|i: int|
            0 <= i < events.len() ==> !(node_is_shown(nodes, (#[trigger] events[i]).source_id)
                && node_is_shown(nodes, events[i].target_id)),
    decreases events.len(),
{
    if events.len() > 0 {
        let rest = events.drop_last();
        lemma_edge_creation_without_ends_is_silent(rest, nodes);
        lemma_edge_spawn_needs_both_ends(events.last(), nodes);
        if create_edge_plan(events, nodes).len() == 0 {
            assert forall|i: int| 0 <= i < events.len() implies !(node_is_shown(
                nodes,
                (#[trigger] events[i]).source_id,
            ) && node_is_shown(nodes, events[i].target_id)) by {
                if i < rest.len() {
                    assert(events[i] == rest[i]);
                }
            }
        } else if create_edge_plan(rest, nodes).len() > 0 {
            let i = choose|i: int|
                0 <= i < rest.len() && node_is_shown(nodes, (#[trigger] rest[i]).source_id)
                    && node_is_shown(nodes, rest[i].target_id);
            assert(events[i] == rest[i]);
        } else {
            assert(events[events.len() - 1] == events.last());
        }
    }
}

} // verus!

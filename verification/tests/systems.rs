use bevy::prelude::{Entity, Vec3};
use graph_morphisms::commands::VisualCommand;
use graph_morphisms::components::{EdgeVisual, NodeVisual};
use graph_morphisms::events::{
    CreateEdgeVisual, CreateNodeVisual, EdgeMetadataChanged, NodeMetadataChanged,
    NodePositionChanged, RemoveEdgeVisual, RemoveNodeVisual,
};
use graph_morphisms::ids::{EdgeId, GraphId, NodeId};
use graph_morphisms::morphisms::{
    create_edge_visual, create_node_visual, remove_edge_visual, remove_node_visual,
    update_edge_metadata, update_node_metadata, update_node_position,
};

const GRAPH: GraphId = GraphId(100);

fn entity(index: u32) -> Entity {
    Entity::from_raw(index)
}

fn node_row(index: u32, node: u128) -> (Entity, NodeVisual) {
    (entity(index), NodeVisual { node_id: NodeId(node), graph_id: GRAPH })
}

fn edge_row(index: u32, edge: u128, source: u32, target: u32) -> (Entity, EdgeVisual) {
    (
        entity(index),
        EdgeVisual {
            edge_id: EdgeId(edge),
            graph_id: GRAPH,
            source: entity(source),
            target: entity(target),
        },
    )
}

fn edge_created(edge: u128, source: u128, target: u128) -> CreateEdgeVisual {
    CreateEdgeVisual {
        edge_id: EdgeId(edge),
        graph_id: GRAPH,
        source_id: NodeId(source),
        target_id: NodeId(target),
    }
}

fn moved(node: u128, x: f32, y: f32) -> NodePositionChanged {
    NodePositionChanged { node_id: NodeId(node), new_position: Vec3::new(x, y, 0.0) }
}

/// Where an entity is after the commands, having been at `before`.
fn carried_out(commands: &[VisualCommand], on: Entity, before: Vec3) -> Vec3 {
    let mut at = before;
    for command in commands {
        match *command {
            VisualCommand::SetTranslation { entity, translation }
            | VisualCommand::InsertTransform { entity, translation }
                if entity == on =>
            {
                at = translation
            }
            _ => {}
        }
    }
    at
}

#[test]
fn no_events_no_commands() {
    let nodes = [node_row(1, 10)];
    let edges = [edge_row(2, 20, 1, 1)];
    assert_eq!(create_node_visual(&[]), vec![]);
    assert_eq!(remove_node_visual(&[], &nodes), vec![]);
    assert_eq!(create_edge_visual(&[], &nodes), vec![]);
    assert_eq!(remove_edge_visual(&[], &edges), vec![]);
    assert_eq!(update_node_position(&[], &nodes), vec![]);
}

#[test]
fn each_created_node_is_spawned_in_order() {
    let events = [
        CreateNodeVisual { node_id: NodeId(1), graph_id: GRAPH, position: Vec3::new(1.0, 0.0, 0.0) },
        CreateNodeVisual { node_id: NodeId(2), graph_id: GraphId(5), position: Vec3::new(0.0, 2.0, 0.0) },
    ];
    assert_eq!(
        create_node_visual(&events),
        vec![
            VisualCommand::SpawnNode {
                node_id: NodeId(1),
                graph_id: GRAPH,
                position: Vec3::new(1.0, 0.0, 0.0),
            },
            VisualCommand::SpawnNode {
                node_id: NodeId(2),
                graph_id: GraphId(5),
                position: Vec3::new(0.0, 2.0, 0.0),
            },
        ]
    );
}

#[test]
fn a_node_created_twice_is_spawned_twice() {
    let event =
        CreateNodeVisual { node_id: NodeId(1), graph_id: GRAPH, position: Vec3::new(1.0, 0.0, 0.0) };
    let commands = create_node_visual(&[event, event]);
    assert_eq!(commands.len(), 2);
    assert_eq!(commands[0], commands[1]);
}

#[test]
fn removed_node_is_despawned() {
    let nodes = [node_row(1, 10), node_row(2, 20), node_row(3, 30)];
    let events = [RemoveNodeVisual { node_id: NodeId(20) }];
    assert_eq!(
        remove_node_visual(&events, &nodes),
        vec![VisualCommand::Despawn { entity: entity(2) }]
    );
}

#[test]
fn removal_of_a_node_without_entity_is_silent() {
    let nodes = [node_row(1, 10), node_row(2, 20)];
    let events = [RemoveNodeVisual { node_id: NodeId(99) }];
    assert_eq!(remove_node_visual(&events, &nodes), vec![]);
    assert_eq!(remove_node_visual(&events, &[]), vec![]);
}

#[test]
fn every_entity_of_a_removed_node_is_despawned() {
    let nodes = [node_row(1, 10), node_row(2, 20), node_row(3, 10)];
    let events = [RemoveNodeVisual { node_id: NodeId(10) }];
    assert_eq!(
        remove_node_visual(&events, &nodes),
        vec![
            VisualCommand::Despawn { entity: entity(1) },
            VisualCommand::Despawn { entity: entity(3) },
        ]
    );
}

#[test]
fn removals_come_in_the_order_of_the_events() {
    let nodes = [node_row(1, 10), node_row(2, 20), node_row(3, 30)];
    let events = [
        RemoveNodeVisual { node_id: NodeId(30) },
        RemoveNodeVisual { node_id: NodeId(99) },
        RemoveNodeVisual { node_id: NodeId(10) },
    ];
    assert_eq!(
        remove_node_visual(&events, &nodes),
        vec![
            VisualCommand::Despawn { entity: entity(3) },
            VisualCommand::Despawn { entity: entity(1) },
        ]
    );
}

#[test]
fn a_removal_delivered_twice_against_one_snapshot_despawns_twice() {
    let nodes = [node_row(1, 10)];
    let event = RemoveNodeVisual { node_id: NodeId(10) };
    assert_eq!(
        remove_node_visual(&[event, event], &nodes),
        vec![
            VisualCommand::Despawn { entity: entity(1) },
            VisualCommand::Despawn { entity: entity(1) },
        ]
    );
}

#[test]
fn a_removal_delivered_again_after_it_was_applied_is_silent() {
    let nodes = [node_row(1, 10), node_row(2, 20)];
    let events = [RemoveNodeVisual { node_id: NodeId(10) }];
    let plan = remove_node_visual(&events, &nodes);
    let remaining: Vec<(Entity, NodeVisual)> = nodes
        .iter()
        .copied()
        .filter(|row| !plan.contains(&VisualCommand::Despawn { entity: row.0 }))
        .collect();
    assert_eq!(remaining, vec![node_row(2, 20)]);
    assert_eq!(remove_node_visual(&events, &remaining), vec![]);
}

#[test]
fn edge_between_shown_nodes_is_spawned() {
    let nodes = [node_row(1, 10), node_row(2, 20), node_row(3, 30)];
    let events = [edge_created(7, 30, 10)];
    assert_eq!(
        create_edge_visual(&events, &nodes),
        vec![VisualCommand::SpawnEdge {
            edge_id: EdgeId(7),
            graph_id: GRAPH,
            source: entity(3),
            target: entity(1),
        }]
    );
}

#[test]
fn edge_without_source_entity_is_dropped() {
    let nodes = [node_row(1, 10)];
    assert_eq!(create_edge_visual(&[edge_created(7, 99, 10)], &nodes), vec![]);
}

#[test]
fn edge_without_target_entity_is_dropped() {
    let nodes = [node_row(1, 10)];
    assert_eq!(create_edge_visual(&[edge_created(7, 10, 99)], &nodes), vec![]);
}

#[test]
fn edge_in_an_empty_scene_is_dropped() {
    assert_eq!(create_edge_visual(&[edge_created(7, 10, 20)], &[]), vec![]);
}

#[test]
fn edge_from_a_node_to_itself_is_spawned_on_one_entity() {
    let nodes = [node_row(1, 10), node_row(2, 20)];
    assert_eq!(
        create_edge_visual(&[edge_created(7, 20, 20)], &nodes),
        vec![VisualCommand::SpawnEdge {
            edge_id: EdgeId(7),
            graph_id: GRAPH,
            source: entity(2),
            target: entity(2),
        }]
    );
}

#[test]
fn edge_ends_at_the_last_entity_that_shows_a_node() {
    let nodes = [node_row(1, 10), node_row(2, 20), node_row(3, 10), node_row(4, 20), node_row(5, 30)];
    assert_eq!(
        create_edge_visual(&[edge_created(7, 10, 20)], &nodes),
        vec![VisualCommand::SpawnEdge {
            edge_id: EdgeId(7),
            graph_id: GRAPH,
            source: entity(3),
            target: entity(4),
        }]
    );
}

#[test]
fn only_edges_with_both_ends_are_spawned() {
    let nodes = [node_row(1, 10), node_row(2, 20)];
    let events = [edge_created(1, 10, 20), edge_created(2, 10, 30), edge_created(3, 20, 10)];
    assert_eq!(
        create_edge_visual(&events, &nodes),
        vec![
            VisualCommand::SpawnEdge {
                edge_id: EdgeId(1),
                graph_id: GRAPH,
                source: entity(1),
                target: entity(2),
            },
            VisualCommand::SpawnEdge {
                edge_id: EdgeId(3),
                graph_id: GRAPH,
                source: entity(2),
                target: entity(1),
            },
        ]
    );
}

#[test]
fn edge_keeps_the_graph_of_its_event() {
    let nodes = [node_row(1, 10)];
    let event = CreateEdgeVisual {
        edge_id: EdgeId(4),
        graph_id: GraphId(77),
        source_id: NodeId(10),
        target_id: NodeId(10),
    };
    assert_eq!(
        create_edge_visual(&[event], &nodes),
        vec![VisualCommand::SpawnEdge {
            edge_id: EdgeId(4),
            graph_id: GraphId(77),
            source: entity(1),
            target: entity(1),
        }]
    );
}

#[test]
fn removed_edge_is_despawned() {
    let edges = [edge_row(5, 50, 1, 2), edge_row(6, 60, 2, 3)];
    assert_eq!(
        remove_edge_visual(&[RemoveEdgeVisual { edge_id: EdgeId(60) }], &edges),
        vec![VisualCommand::Despawn { entity: entity(6) }]
    );
}

#[test]
fn removal_of_an_edge_without_entity_is_silent() {
    let edges = [edge_row(5, 50, 1, 2)];
    assert_eq!(remove_edge_visual(&[RemoveEdgeVisual { edge_id: EdgeId(51) }], &edges), vec![]);
}

#[test]
fn edge_removal_looks_at_the_edge_not_at_its_ends() {
    // the entity index of an end node equals the identifier of the removed edge
    let edges = [edge_row(5, 50, 60, 2), edge_row(60, 61, 1, 2)];
    assert_eq!(remove_edge_visual(&[RemoveEdgeVisual { edge_id: EdgeId(60) }], &edges), vec![]);
}

#[test]
fn every_entity_of_a_removed_edge_is_despawned_in_event_order() {
    let edges = [edge_row(5, 50, 1, 2), edge_row(6, 60, 2, 3), edge_row(7, 50, 1, 2)];
    let events = [RemoveEdgeVisual { edge_id: EdgeId(60) }, RemoveEdgeVisual { edge_id: EdgeId(50) }];
    assert_eq!(
        remove_edge_visual(&events, &edges),
        vec![
            VisualCommand::Despawn { entity: entity(6) },
            VisualCommand::Despawn { entity: entity(5) },
            VisualCommand::Despawn { entity: entity(7) },
        ]
    );
}

#[test]
fn moved_node_is_put_at_its_new_position() {
    let nodes = [node_row(1, 10), node_row(2, 20)];
    assert_eq!(
        update_node_position(&[moved(20, 3.0, 4.0)], &nodes),
        vec![VisualCommand::SetTranslation { entity: entity(2), translation: Vec3::new(3.0, 4.0, 0.0) }]
    );
}

#[test]
fn move_of_a_node_without_entity_is_silent() {
    let nodes = [node_row(1, 10)];
    assert_eq!(update_node_position(&[moved(20, 3.0, 4.0)], &nodes), vec![]);
}

#[test]
fn every_entity_of_a_moved_node_moves() {
    let nodes = [node_row(1, 10), node_row(2, 20), node_row(3, 10)];
    let to = Vec3::new(-1.0, -2.0, 0.0);
    assert_eq!(
        update_node_position(&[moved(10, -1.0, -2.0)], &nodes),
        vec![
            VisualCommand::SetTranslation { entity: entity(1), translation: to },
            VisualCommand::SetTranslation { entity: entity(3), translation: to },
        ]
    );
}

#[test]
fn the_last_move_of_a_node_decides() {
    let nodes = [node_row(1, 10), node_row(2, 20)];
    let events = [moved(10, 1.0, 1.0), moved(20, 5.0, 5.0), moved(10, 2.0, 2.0)];
    let commands = update_node_position(&events, &nodes);
    assert_eq!(
        commands,
        vec![
            VisualCommand::SetTranslation { entity: entity(1), translation: Vec3::new(1.0, 1.0, 0.0) },
            VisualCommand::SetTranslation { entity: entity(2), translation: Vec3::new(5.0, 5.0, 0.0) },
            VisualCommand::SetTranslation { entity: entity(1), translation: Vec3::new(2.0, 2.0, 0.0) },
        ]
    );
    assert_eq!(carried_out(&commands, entity(1), Vec3::ZERO), Vec3::new(2.0, 2.0, 0.0));
    assert_eq!(carried_out(&commands, entity(2), Vec3::ZERO), Vec3::new(5.0, 5.0, 0.0));
    assert_eq!(carried_out(&commands, entity(3), Vec3::ONE), Vec3::ONE);
}

#[test]
fn moves_delivered_again_change_nothing() {
    let nodes = [node_row(1, 10), node_row(2, 20)];
    let events = [moved(10, 1.0, 1.0), moved(20, 5.0, 5.0), moved(10, 2.0, 2.0)];
    let once = update_node_position(&events, &nodes);
    let mut doubled = events.to_vec();
    doubled.extend_from_slice(&events);
    let twice = update_node_position(&doubled, &nodes);
    for row in nodes {
        let settled = carried_out(&once, row.0, Vec3::ZERO);
        assert_eq!(carried_out(&twice, row.0, Vec3::ZERO), settled);
        assert_eq!(carried_out(&once, row.0, settled), settled);
    }
}

#[test]
fn a_batch_in_two_parts_gives_the_same_commands() {
    let nodes = [node_row(1, 10), node_row(2, 20), node_row(3, 10)];
    let moves = [moved(10, 1.0, 1.0), moved(20, 5.0, 5.0), moved(10, 2.0, 2.0)];
    let removals = [
        RemoveNodeVisual { node_id: NodeId(20) },
        RemoveNodeVisual { node_id: NodeId(10) },
        RemoveNodeVisual { node_id: NodeId(20) },
    ];
    let edges = [edge_created(1, 10, 20), edge_created(2, 10, 30), edge_created(3, 20, 10)];
    for cut in 0..=3 {
        let mut in_parts = update_node_position(&moves[..cut], &nodes);
        in_parts.extend(update_node_position(&moves[cut..], &nodes));
        assert_eq!(in_parts, update_node_position(&moves, &nodes));

        let mut in_parts = remove_node_visual(&removals[..cut], &nodes);
        in_parts.extend(remove_node_visual(&removals[cut..], &nodes));
        assert_eq!(in_parts, remove_node_visual(&removals, &nodes));

        let mut in_parts = create_edge_visual(&edges[..cut], &nodes);
        in_parts.extend(create_edge_visual(&edges[cut..], &nodes));
        assert_eq!(in_parts, create_edge_visual(&edges, &nodes));
    }
}

#[test]
fn changed_node_metadata_changes_nothing_in_the_scene() {
    let nodes = [node_row(1, 10), node_row(2, 20)];
    let events = [NodeMetadataChanged { node_id: NodeId(10) }, NodeMetadataChanged { node_id: NodeId(99) }];
    assert_eq!(update_node_metadata(&events, &nodes), vec![]);
    assert_eq!(update_node_metadata(&[], &nodes), vec![]);
}

#[test]
fn changed_edge_metadata_changes_nothing_in_the_scene() {
    let edges = [edge_row(5, 50, 1, 2)];
    let events = [EdgeMetadataChanged { edge_id: EdgeId(50) }, EdgeMetadataChanged { edge_id: EdgeId(99) }];
    assert_eq!(update_edge_metadata(&events, &edges), vec![]);
    assert_eq!(update_edge_metadata(&[], &edges), vec![]);
}

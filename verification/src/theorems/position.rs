//! Position changes leave every entity where the last change of its node
//! puts it.

use bevy::prelude::{Entity, Vec3};
use vstd::prelude::*;

use crate::commands::{translation_after, VisualCommand};
use crate::components::NodeVisual;
use crate::events::NodePositionChanged;
use crate::morphisms::{node_moves, update_position_plan};
use crate::seq_facts::{lemma_filter_map_values_contains, lemma_flat_map_contains};
use crate::theorems::batches::lemma_update_position_plan_splits;
use crate::theorems::lookup::shows_node;

verus! {

/// Where the position changes leave `entity`: where the last change of a
/// node that it shows puts it, or where it was if there is no such change.
pub open spec fn last_position(
    events: Seq<NodePositionChanged>,
    nodes: Seq<(Entity, NodeVisual)>,
    entity: Entity,
    before: Vec3,
) -> Vec3 {
    let changes = events.filter(
        |event: NodePositionChanged| shows_node(nodes, entity, event.node_id),
    );
    if changes.len() == 0 {
        before
    } else {
        changes.last().new_position
    }
}

/// Carrying out two runs of commands is carrying out the second where the
/// first has left things.
proof fn lemma_translation_after_add(
    first: Seq<VisualCommand>,
    second: Seq<VisualCommand>,
    entity: Entity,
    before: Vec3,
)
    ensures
        translation_after(first + second, entity, before) == translation_after(
            second,
            entity,
            translation_after(first, entity, before),
        ),
{
    let both = first + second;
    let step = |at: Vec3, command: VisualCommand| command.place(entity, at);
    both.lemma_fold_left_split(before, step, first.len() as int);
    assert(both.subrange(0, first.len() as int) == first);
    assert(both.subrange(first.len() as int, both.len() as int) == second);
}

/// What one position change does to one entity.
proof fn lemma_translation_after_moves(
    nodes: Seq<(Entity, NodeVisual)>,
    event: NodePositionChanged,
    entity: Entity,
    at: Vec3,
)
    ensures
        translation_after(node_moves(nodes, event), entity, at) == if shows_node(
            nodes,
            entity,
            event.node_id,
        ) {
            event.new_position
        } else {
            at
        },
    decreases nodes.len(),
{
    reveal(Seq::filter);
    let step = |at: Vec3, command: VisualCommand| command.place(entity, at);
    let put = |row: (Entity, NodeVisual)|
        VisualCommand::SetTranslation { entity: row.0, translation: event.new_position };
    if nodes.len() == 0 {
        assert(node_moves(nodes, event) == Seq::<VisualCommand>::empty());
    } else {
        let rest = nodes.drop_last();
        let last = nodes.last();
        lemma_translation_after_moves(rest, event, entity, at);
        if shows_node(rest, entity, event.node_id) {
            let j = choose|j: int|
                0 <= j < rest.len() && (#[trigger] rest[j]).0 == entity && rest[j].1.node_id
                    == event.node_id;
            assert(nodes[j] == rest[j]);
        }
        if shows_node(nodes, entity, event.node_id) {
            let j = choose|j: int|
                0 <= j < nodes.len() && (#[trigger] nodes[j]).0 == entity && nodes[j].1.node_id
                    == event.node_id;
            if j < rest.len() {
                assert(rest[j] == nodes[j]);
            }
        }
        if last.1.node_id == event.node_id {
            assert(node_moves(nodes, event) == node_moves(rest, event).push(put(last)));
            assert(node_moves(nodes, event).drop_last() == node_moves(rest, event));
            if last.0 == entity {
                assert(nodes[nodes.len() - 1].0 == entity);
            }
        } else {
            assert(node_moves(nodes, event) == node_moves(rest, event));
        }
    }
}

/// The scene mirrors the last event seen: once a plan of position changes
/// is carried out, an entity is where the last change of a node that it
/// shows puts it, and an entity that shows no changed node is where it was.
pub proof fn lemma_position_mirrors_last_event(
    events: Seq<NodePositionChanged>,
    nodes: Seq<(Entity, NodeVisual)>,
    entity: Entity,
    before: Vec3,
)
    ensures
        translation_after(update_position_plan(events, nodes), entity, before) == last_position(
            events,
            nodes,
            entity,
            before,
        ),
    decreases events.len(),
{
    reveal(Seq::filter);
    if events.len() == 0 {
        assert(update_position_plan(events, nodes) == Seq::<VisualCommand>::empty());
    } else {
        let rest = events.drop_last();
        let last = events.last();
        lemma_position_mirrors_last_event(rest, nodes, entity, before);
        assert(events == rest + seq![last]);
        lemma_update_position_plan_splits(rest, seq![last], nodes);
        let per_event = |event: NodePositionChanged| node_moves(nodes, event);
        assert(seq![last].map_values(per_event) == seq![node_moves(nodes, last)]);
        seq![node_moves(nodes, last)].lemma_flatten_one_element();
        assert(update_position_plan(seq![last], nodes) == node_moves(nodes, last));
        lemma_translation_after_add(
            update_position_plan(rest, nodes),
            node_moves(nodes, last),
            entity,
            before,
        );
        lemma_translation_after_moves(
            nodes,
            last,
            entity,
            translation_after(update_position_plan(rest, nodes), entity, before),
        );
    }
}

/// In a snapshot that holds each entity once, the entity of a row ends up
/// where the last change of the row's node puts it.
pub proof fn lemma_position_mirrors_last_event_of_row(
    events: Seq<NodePositionChanged>,
    nodes: Seq<(Entity, NodeVisual)>,
    row: int,
    before: Vec3,
)
    requires
        0 <= row < nodes.len(),
        forall|j: int, k: int|
            0 <= j < k < nodes.len() ==> (#[trigger] nodes[j]).0 != (#[trigger] nodes[k]).0,
    ensures
        ({
            let changes = events.filter(
                |event: NodePositionChanged| event.node_id == nodes[row].1.node_id,
            );
            translation_after(update_position_plan(events, nodes), nodes[row].0, before) == if changes.len()
                == 0 {
                before
            } else {
                changes.last().new_position
            }
        }),
{
    let entity = nodes[row].0;
    lemma_position_mirrors_last_event(events, nodes, entity, before);
    let by_entity = |event: NodePositionChanged| shows_node(nodes, entity, event.node_id);
    let by_node = |event: NodePositionChanged| event.node_id == nodes[row].1.node_id;
    assert forall|event: NodePositionChanged| #[trigger] by_entity(event) == by_node(event) by {
        if shows_node(nodes, entity, event.node_id) {
            let j = choose|j: int|
                0 <= j < nodes.len() && (#[trigger] nodes[j]).0 == entity && nodes[j].1.node_id
                    == event.node_id;
            assert(j == row);
        }
        if event.node_id == nodes[row].1.node_id {
            assert(nodes[row].0 == entity);
        }
    }
    assert(by_entity =~= by_node);
}

/// Events that were applied already change nothing when they are delivered
/// again: carried out on a scene that mirrors the events, the plan leaves
/// every entity where it is; and a batch that holds the events twice leaves
/// every entity where the events leave it.
pub proof fn lemma_position_redelivery_changes_nothing(
    events: Seq<NodePositionChanged>,
    nodes: Seq<(Entity, NodeVisual)>,
    entity: Entity,
    before: Vec3,
)
    ensures
        ({
            let plan = update_position_plan(events, nodes);
            let once = translation_after(plan, entity, before);
            &&& translation_after(plan, entity, once) == once
            &&& translation_after(update_position_plan(events + events, nodes), entity, before)
                == once
        }),
{
    let plan = update_position_plan(events, nodes);
    let once = translation_after(plan, entity, before);
    lemma_position_mirrors_last_event(events, nodes, entity, before);
    lemma_position_mirrors_last_event(events, nodes, entity, once);
    lemma_update_position_plan_splits(events, events, nodes);
    lemma_translation_after_add(plan, plan, entity, before);
}

/// A plan of position changes moves the entities that show a changed node,
/// each to where a change of its node puts it, and holds no other command.
pub proof fn lemma_position_moves_what_is_shown(
    events: Seq<NodePositionChanged>,
    nodes: Seq<(Entity, NodeVisual)>,
    command: VisualCommand,
)
    ensures
        update_position_plan(events, nodes).contains(command) <==> command is SetTranslation
            && exists|i: int|
            0 <= i < events.len() && shows_node(
                nodes,
                command->SetTranslation_entity,
                (#[trigger] events[i]).node_id,
            ) && command->SetTranslation_translation == events[i].new_position,
{
    let per_event = |event: NodePositionChanged| node_moves(nodes, event);
    lemma_flat_map_contains(events, per_event, command);
    assert forall|i: int| 0 <= i < events.len() implies ((#[trigger] per_event(events[i])).contains(
        command,
    ) <==> command is SetTranslation && shows_node(
        nodes,
        command->SetTranslation_entity,
        events[i].node_id,
    ) && command->SetTranslation_translation == events[i].new_position) by {
        lemma_filter_map_values_contains(
            nodes,
            |row: (Entity, NodeVisual)| row.1.node_id == events[i].node_id,
            |row: (Entity, NodeVisual)|
                VisualCommand::SetTranslation {
                    entity: row.0,
                    translation: events[i].new_position,
                },
            command,
        );
    }
    if update_position_plan(events, nodes).contains(command) {
        let i = choose|i: int| 0 <= i < events.len() && (#[trigger] per_event(events[i])).contains(command);
        assert(shows_node(nodes, command->SetTranslation_entity, events[i].node_id));
    }
    if command is SetTranslation && exists|i: int|
        0 <= i < events.len() && shows_node(
            nodes,
            command->SetTranslation_entity,
            (#[trigger] events[i]).node_id,
        ) && command->SetTranslation_translation == events[i].new_position {
        let i = choose|i: int|
            0 <= i < events.len() && shows_node(
                nodes,
                command->SetTranslation_entity,
                (#[trigger] events[i]).node_id,
            ) && command->SetTranslation_translation == events[i].new_position;
        assert(per_event(events[i]).contains(command));
    }
}

/// Position changes of nodes that no entity shows lead to nothing, and only
/// they do.
pub proof fn lemma_position_change_of_unshown_is_silent(
    events: Seq<NodePositionChanged>,
    nodes: Seq<(Entity, NodeVisual)>,
)
    ensures
        update_position_plan(events, nodes).len() == 0 <==> forall|i: int, j: int|
            0 <= i < events.len() && 0 <= j < nodes.len() ==> (#[trigger] events[i]).node_id != (
            #[trigger] nodes[j]).1.node_id,
{
    let plan = update_position_plan(events, nodes);
    if plan.len() > 0 {
        lemma_position_moves_what_is_shown(events, nodes, plan[0]);
        assert(plan.contains(plan[0]));
        let entity = plan[0]->SetTranslation_entity;
        let i = choose|i: int|
            0 <= i < events.len() && shows_node(nodes, entity, (#[trigger] events[i]).node_id)
                && plan[0]->SetTranslation_translation == events[i].new_position;
        let j = choose|j: int|
            0 <= j < nodes.len() && (#[trigger] nodes[j]).0 == entity && nodes[j].1.node_id
                == events[i].node_id;
        assert(events[i].node_id == nodes[j].1.node_id);
    }
    if exists|i: int, j: int|
        0 <= i < events.len() && 0 <= j < nodes.len() && (#[trigger] events[i]).node_id == (
        #[trigger] nodes[j]).1.node_id {
        let (i, j) = choose|i: int, j: int|
            0 <= i < events.len() && 0 <= j < nodes.len() && (#[trigger] events[i]).node_id == (
            #[trigger] nodes[j]).1.node_id;
        let put = VisualCommand::SetTranslation {
            entity: nodes[j].0,
            translation: events[i].new_position,
        };
        assert(shows_node(nodes, nodes[j].0, events[i].node_id));
        lemma_position_moves_what_is_shown(events, nodes, put);
        assert(plan.contains(put));
    }
}

} // verus!

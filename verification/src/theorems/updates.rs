//! The plain node morphism makes an entity mirror each update.

use bevy::prelude::{Entity, Vec3};
use vstd::prelude::*;

use crate::commands::{despawned_by, selected_after, translation_after, VisualCommand};
use crate::morphisms::{node_update_command, NodeUpdate};

verus! {

/// The command of the plain node morphism makes the entity mirror the
/// update, leaves the rest of the entity as it was, touches no other entity
/// and does the same when it is carried out again.
pub proof fn lemma_node_update_is_mirrored(
    entity: Entity,
    update: NodeUpdate,
    other: Entity,
    at: Vec3,
    selected: bool,
)
    requires
        other != entity,
    ensures
        ({
            let once = seq![node_update_command(entity, update)];
            let twice = once + once;
            &&& translation_after(once, entity, at) == match update {
                NodeUpdate::Position(position) => position,
                NodeUpdate::Selected(_) => at,
            }
            &&& selected_after(once, entity, selected) == match update {
                NodeUpdate::Position(_) => selected,
                NodeUpdate::Selected(now) => now,
            }
            &&& !despawned_by(once, entity)
            &&& translation_after(once, other, at) == at
            &&& selected_after(once, other, selected) == selected
            &&& translation_after(twice, entity, at) == translation_after(once, entity, at)
            &&& selected_after(twice, entity, selected) == selected_after(once, entity, selected)
        }),
{
    reveal_with_fuel(Seq::fold_left, 3);
    let command = node_update_command(entity, update);
    let once = seq![command];
    let twice = once + once;
    assert(once.drop_last() == Seq::<VisualCommand>::empty());
    assert(twice.drop_last() == once);
    assert(twice.last() == command);
}

} // verus!

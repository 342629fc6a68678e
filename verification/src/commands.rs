//! Commands against the visual scene.

use bevy::prelude::{Entity, Vec3};
use vstd::prelude::*;

use crate::ids::{EdgeId, GraphId, NodeId};

verus! {

/// One change to the visual scene, to be carried out by the engine.
///
/// Commands are carried out in the order in which they are given.
#[derive(Debug, Clone, Copy, PartialEq)]
pub enum VisualCommand {
    /// Spawn a new entity that shows a node at a position.
    SpawnNode { node_id: NodeId, graph_id: GraphId, position: Vec3 },
    /// Spawn a new entity that shows an edge between two node entities.
    SpawnEdge { edge_id: EdgeId, graph_id: GraphId, source: Entity, target: Entity },
    /// Despawn one entity.
    Despawn { entity: Entity },
    /// Despawn one entity together with its descendants.
    DespawnRecursive { entity: Entity },
    /// Replace the placement of an entity by one at `translation`, unrotated
    /// and unscaled.
    InsertTransform { entity: Entity, translation: Vec3 },
    /// Overwrite where an entity is, keeping its rotation and scale.
    SetTranslation { entity: Entity, translation: Vec3 },
    /// Mark an entity as selected.
    InsertSelected { entity: Entity },
    /// Take the selection mark from an entity.
    RemoveSelected { entity: Entity },
    /// Show an entity as highlighted, or as plain again.
    SetHighlighted { entity: Entity, highlighted: bool },
    /// Overwrite the weight that an entity shows. The weight is given as the
    /// bit pattern of a single-precision number.
    SetWeight { entity: Entity, weight: u32 },
}

impl VisualCommand {
    /// The existing entity that the command addresses. A spawn addresses
    /// none: it brings its own entity into being.
    pub open spec fn target(self) -> Option<Entity> {
        match self {
            VisualCommand::SpawnNode { .. } => None,
            VisualCommand::SpawnEdge { .. } => None,
            VisualCommand::Despawn { entity } => Some(entity),
            VisualCommand::DespawnRecursive { entity } => Some(entity),
            VisualCommand::InsertTransform { entity, .. } => Some(entity),
            VisualCommand::SetTranslation { entity, .. } => Some(entity),
            VisualCommand::InsertSelected { entity } => Some(entity),
            VisualCommand::RemoveSelected { entity } => Some(entity),
            VisualCommand::SetHighlighted { entity, .. } => Some(entity),
            VisualCommand::SetWeight { entity, .. } => Some(entity),
        }
    }

    /// Whether the command brings a new entity into being.
    pub open spec fn is_spawn(self) -> bool {
        self is SpawnNode || self is SpawnEdge
    }

    /// Whether the command takes an entity out of the scene.
    pub open spec fn is_despawn(self) -> bool {
        self is Despawn || self is DespawnRecursive
    }

    /// Whether the command changes a component of an entity and leaves the
    /// entity in the scene.
    pub open spec fn is_update(self) -> bool {
        !self.is_spawn() && !self.is_despawn()
    }

    /// Where the command puts the entities that it moves, if it moves any.
    pub open spec fn destination(self) -> Option<Vec3> {
        match self {
            VisualCommand::InsertTransform { translation, .. } => Some(translation),
            VisualCommand::SetTranslation { translation, .. } => Some(translation),
            _ => None,
        }
    }

    /// Whether the command moves `entity`.
    pub open spec fn moves(self, entity: Entity) -> bool {
        self.destination() is Some && self.target() == Some(entity)
    }

    /// Where `entity` is once the command is carried out, having been at
    /// `at` before.
    pub open spec fn place(self, entity: Entity, at: Vec3) -> Vec3 {
        if self.moves(entity) {
            self.destination()->0
        } else {
            at
        }
    }

    /// The selection mark that the command gives to the entity it addresses,
    /// if it gives any.
    pub open spec fn selection(self) -> Option<bool> {
        match self {
            VisualCommand::InsertSelected { .. } => Some(true),
            VisualCommand::RemoveSelected { .. } => Some(false),
            _ => None,
        }
    }

    /// Whether `entity` is selected once the command is carried out, having
    /// been so or not before, as `selected` says.
    pub open spec fn mark(self, entity: Entity, selected: bool) -> bool {
        if self.selection() is Some && self.target() == Some(entity) {
            self.selection()->0
        } else {
            selected
        }
    }
}

/// Where `entity` is once the commands are carried out in order, having been
/// at `before`.
pub open spec fn translation_after(commands: Seq<VisualCommand>, entity: Entity, before: Vec3) -> Vec3 {
    commands.fold_left(before, |at: Vec3, command: VisualCommand| command.place(entity, at))
}

/// Whether `entity` is selected once the commands are carried out in order,
/// having been so or not before, as `before` says.
pub open spec fn selected_after(commands: Seq<VisualCommand>, entity: Entity, before: bool) -> bool {
    commands.fold_left(before, |selected: bool, command: VisualCommand| command.mark(entity, selected))
}

/// Whether one of the commands takes `entity` out of the scene.
pub open spec fn despawned_by(commands: Seq<VisualCommand>, entity: Entity) -> bool {
    exists|k: int|
        0 <= k < commands.len() && (#[trigger] commands[k]).is_despawn() && commands[k].target()
            == Some(entity)
}

} // verus!

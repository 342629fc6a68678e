//! The engine's own values that pass through this crate unopened.

use vstd::prelude::*;

verus! {

/// `bevy::prelude::Entity`, the engine's handle of one visual entity.
///
/// Nothing is assumed of a handle beyond its identity: the crate receives
/// handles in scene snapshots and hands them back inside commands.
#[verifier::external_type_specification]
#[verifier::external_body]
pub struct ExEntity(bevy::prelude::Entity);

/// `bevy::prelude::Vec3`, a point or a displacement in the scene.
///
/// Positions are carried from events into commands and never computed with.
#[verifier::external_type_specification]
#[verifier::external_body]
pub struct ExVec3(bevy::prelude::Vec3);

/// `bevy::prelude::KeyCode`, the key of a keyboard interaction.
#[verifier::external_type_specification]
#[verifier::external_body]
pub struct ExKeyCode(bevy::prelude::KeyCode);

} // verus!

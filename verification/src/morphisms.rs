//! The mappings between objects of the domain graph (nodes, edges, graphs)
//! and objects of the visual scene (entities and their components).

use bevy::prelude::{Entity, KeyCode, Vec3};
use vstd::prelude::*;
use vstd::std_specs::cmp::PartialEqSpec;

use crate::commands::VisualCommand;
use crate::components::{EdgeVisual, NodeVisual};
use crate::events::{
    CreateEdgeVisual, CreateNodeVisual, EdgeMetadataChanged, NodeMetadataChanged,
    NodePositionChanged, RemoveEdgeVisual, RemoveNodeVisual, SelectionChanged,
};
use crate::ids::{EdgeId, GraphId, NodeId};
use crate::seq_facts::{lemma_filter_map_values_take_succ, lemma_flat_map_take_succ};

verus! {

/// A change to the visual of a node.
#[derive(Debug, Clone, Copy, PartialEq)]
pub enum NodeUpdate {
    Position(Vec3),
    Selected(bool),
}

/// A change to the visual of an edge.
#[derive(Debug, Clone, Copy, PartialEq)]
pub enum EdgeUpdate {
    Highlighted(bool),
    /// The new weight, as the bit pattern of a single-precision number.
    Weight(u32),
}

/// The modifier keys held during a keyboard interaction.
#[derive(Debug, Clone, Copy, PartialEq)]
pub struct Modifiers {
    pub shift: bool,
    pub ctrl: bool,
    pub alt: bool,
}

/// A command against the domain graph that an interaction asks for.
#[derive(Debug, Clone, Copy, PartialEq)]
pub enum DomainCommand {
    CreateNode { position: Vec3 },
    DeleteSelected,
    ConnectSelected,
    LayoutGraph,
}

/// Morphism from domain node operations to visual node operations.
///
/// Each method maps one operation on a node to the scene command that
/// mirrors it. The contracts say what every such mapping keeps: the identity
/// of the node, and the entity that the operation is about.
pub trait NodeMorphism {
    /// Map domain node creation to visual entity spawn.
    fn create_visual(&self, node_id: NodeId, graph_id: GraphId, position: Vec3) -> (command:
        VisualCommand)
        ensures
            command matches VisualCommand::SpawnNode { node_id: n, graph_id: g, .. } && n == node_id
                && g == graph_id,
    ;

    /// Map domain node deletion to visual entity despawn.
    fn delete_visual(&self, entity: Entity) -> (command: VisualCommand)
        ensures
            command.is_despawn(),
            command.target() == Some(entity),
    ;

    /// Map domain node update to visual component update.
    fn update_visual(&self, entity: Entity, update: NodeUpdate) -> (command: VisualCommand)
        ensures
            command.is_update(),
            command.target() == Some(entity),
    ;
}

/// Morphism from domain edge operations to visual edge operations.
pub trait EdgeMorphism {
    /// Map domain edge creation to visual line or curve creation.
    fn create_visual(&self, edge_id: EdgeId, source: Entity, target: Entity) -> (command:
        VisualCommand)
        ensures
            command matches VisualCommand::SpawnEdge { edge_id: e, source: s, target: t, .. } && e
                == edge_id && s == source && t == target,
    ;

    /// Map domain edge deletion to visual removal.
    fn delete_visual(&self, entity: Entity) -> (command: VisualCommand)
        ensures
            command.is_despawn(),
            command.target() == Some(entity),
    ;

    /// Map domain edge update to visual update.
    fn update_visual(&self, entity: Entity, update: EdgeUpdate) -> (command: VisualCommand)
        ensures
            command.is_update(),
            command.target() == Some(entity),
    ;
}

/// Morphism from visual interactions to domain events.
pub trait InteractionMorphism {
    /// Map mouse click to domain selection event.
    fn map_click(&self, world_pos: Vec3, entity: Entity) -> SelectionChanged;

    /// Map drag operation to domain position update.
    fn map_drag(&self, entity: Entity, delta: Vec3) -> NodePositionChanged;

    /// Map keyboard input to domain command.
    fn map_keyboard(&self, key: KeyCode, modifiers: Modifiers) -> Option<DomainCommand>;
}

/// Whether `f` may be called on `x`, and `g` on whatever `f` then returns.
pub open spec fn can_chain<A, B, C, F: Fn(A) -> B, G: Fn(B) -> C>(f: F, g: G, x: A) -> bool {
    &&& call_requires(f, (x,))
    &&& forall|y: B| call_ensures(f, (x,), y) ==> call_requires(g, (y,))
}

/// Whether `z` is a value that `g` may return for a value that `f` may
/// return for `x`.
pub open spec fn chains_to<A, B, C, F: Fn(A) -> B, G: Fn(B) -> C>(f: F, g: G, x: A, z: C) -> bool {
    exists|y: B| call_ensures(f, (x,), y) && call_ensures(g, (y,), z)
}

/// Whether `f` returns on every argument what the function `model` gives.
pub open spec fn computes<A, B, F: Fn(A) -> B>(f: F, model: spec_fn(A) -> B) -> bool {
    forall|x: A, y: B| call_ensures(f, (x,), y) ==> y == model(x)
}

/// Composition of morphisms.
pub struct MorphismComposition;

impl MorphismComposition {
    /// Composes two morphisms: `(g after f)(x) = g(f(x))`.
    ///
    /// The composite may be called wherever the chain may be run, and
    /// returns only what the chain may return.
    pub fn compose<A, B, C, F, G>(f: F, g: G) -> (h: impl Fn(A) -> C) where
        F: Fn(A) -> B,
        G: Fn(B) -> C,

        ensures
            forall|x: A| can_chain(f, g, x) ==> #[trigger] call_requires(h, (x,)),
            forall|x: A, z: C| #[trigger] call_ensures(h, (x,), z) ==> chains_to(f, g, x, z),
    {
        move |x: A| -> (z: C)
            requires
                can_chain(f, g, x),
            ensures
                chains_to(f, g, x, z),
            { g(f(x)) }
    }
}

/// Identity morphism: preserves structure exactly.
pub struct IdentityMorphism;

impl IdentityMorphism {
    /// Maps every value to itself.
    pub fn map<T>(x: T) -> (y: T)
        ensures
            y == x,
    {
        x
    }
}

/// Whether every clone of a value of `T` equals the value.
pub open spec fn clone_is_exact<T: Clone>() -> bool {
    forall|x: T, y: T| #[trigger] cloned(x, y) ==> x == y
}

/// Whether `==` on `T` holds of two values exactly when they are the same
/// value.
pub open spec fn eq_is_exact<T: PartialEq>() -> bool {
    &&& T::obeys_eq_spec()
    &&& forall|x: T, y: T| #[trigger] x.eq_spec(&y) <==> x == y
}

/// Whether the round trip through `f` and then `g` may be run on every clone
/// of `x`.
pub open spec fn can_round_trip<A: Clone, B, F: Fn(A) -> B, G: Fn(B) -> A>(f: F, g: G, x: A) -> bool {
    forall|x0: A| #[trigger] cloned(x, x0) ==> can_chain(f, g, x0)
}

/// Whether `back` is a value that the round trip through `f` and then `g`
/// may return for a clone of `x`.
pub open spec fn round_trips_to<A: Clone, B, F: Fn(A) -> B, G: Fn(B) -> A>(
    f: F,
    g: G,
    x: A,
    back: A,
) -> bool {
    exists|x0: A| #[trigger] cloned(x, x0) && chains_to(f, g, x0, back)
}

/// Isomorphism verification.
pub struct IsomorphismVerifier;

impl IsomorphismVerifier {
    /// Checks at the sample points `a` and `b` that `f` and `g` undo each
    /// other: that `g(f(a))` is `a` again and `f(g(b))` is `b` again.
    ///
    /// The first clause holds of all `f` and `g`, which may return different
    /// values on the same argument. The second says what the result is
    /// where they compute functions and clones and `==` are exact.
    pub fn verify_isomorphism<A, B, F, G>(f: F, g: G, a: A, b: B) -> (verified: bool) where
        A: PartialEq + Clone,
        B: PartialEq + Clone,
        F: Fn(A) -> B,
        G: Fn(B) -> A,

        requires
            can_round_trip(f, g, a),
            can_round_trip(g, f, b),
        ensures
            exists|a_back: A, b_back: B|
                {
                    &&& #[trigger] round_trips_to(f, g, a, a_back)
                    &&& #[trigger] round_trips_to(g, f, b, b_back)
                    &&& A::obeys_eq_spec() && B::obeys_eq_spec() ==> verified == (a_back.eq_spec(&a)
                        && b_back.eq_spec(&b))
                },
            forall|f_model: spec_fn(A) -> B, g_model: spec_fn(B) -> A|
                {
                    &&& #[trigger] computes(f, f_model)
                    &&& #[trigger] computes(g, g_model)
                    &&& clone_is_exact::<A>()
                    &&& clone_is_exact::<B>()
                    &&& eq_is_exact::<A>()
                    &&& eq_is_exact::<B>()
                } ==> verified == (g_model(f_model(a)) == a && f_model(g_model(b)) == b),
    {
        let a_clone = a.clone();
        let b_clone = b.clone();
        assert(cloned(a, a_clone) && cloned(b, b_clone));

        // f after g is the identity at b
        let g_of_b = g(b_clone);
        let b_result = f(g_of_b);
        let b_preserved = b_result == b;

        // g after f is the identity at a
        let f_of_a = f(a_clone);
        let a_result = g(f_of_a);
        let a_preserved = a_result == a;

        proof {
            assert(chains_to(f, g, a_clone, a_result));
            assert(chains_to(g, f, b_clone, b_result));
            assert(round_trips_to(f, g, a, a_result));
            assert(round_trips_to(g, f, b, b_result));
        }
        a_preserved && b_preserved
    }
}

/// The command that mirrors an update of a node on its entity.
pub open spec fn node_update_command(entity: Entity, update: NodeUpdate) -> VisualCommand {
    match update {
        NodeUpdate::Position(translation) => VisualCommand::InsertTransform { entity, translation },
        NodeUpdate::Selected(true) => VisualCommand::InsertSelected { entity },
        NodeUpdate::Selected(false) => VisualCommand::RemoveSelected { entity },
    }
}

/// The plain node morphism: one node, one entity.
pub struct StandardNodeMorphism;

impl NodeMorphism for StandardNodeMorphism {
    fn create_visual(&self, node_id: NodeId, graph_id: GraphId, position: Vec3) -> (command:
        VisualCommand)
        ensures
            command == (VisualCommand::SpawnNode { node_id, graph_id, position }),
    {
        VisualCommand::SpawnNode { node_id, graph_id, position }
    }

    fn delete_visual(&self, entity: Entity) -> (command: VisualCommand)
        ensures
            command == (VisualCommand::DespawnRecursive { entity }),
    {
        VisualCommand::DespawnRecursive { entity }
    }

    fn update_visual(&self, entity: Entity, update: NodeUpdate) -> (command: VisualCommand)
        ensures
            command == node_update_command(entity, update),
    {
        match update {
            NodeUpdate::Position(pos) => VisualCommand::InsertTransform { entity, translation: pos },
            NodeUpdate::Selected(selected) => {
                if selected {
                    VisualCommand::InsertSelected { entity }
                } else {
                    VisualCommand::RemoveSelected { entity }
                }
            },
        }
    }
}

/// The rows of a scene snapshot that show node `id`, in snapshot order.
pub open spec fn rows_of_node(nodes: Seq<(Entity, NodeVisual)>, id: NodeId) -> Seq<
    (Entity, NodeVisual),
> {
    nodes.filter(|row: (Entity, NodeVisual)| row.1.node_id == id)
}

/// The entity that stands for node `id` where one entity must be picked:
/// that of the last row that shows the node, if any row does.
pub open spec fn node_entity(nodes: Seq<(Entity, NodeVisual)>, id: NodeId) -> Option<Entity> {
    let rows = rows_of_node(nodes, id);
    if rows.len() == 0 {
        None
    } else {
        Some(rows.last().0)
    }
}

/// The command that one edge creation leads to: a spawn between the entities
/// of its end nodes, or nothing where an end node has no entity.
pub open spec fn edge_spawn(event: CreateEdgeVisual, nodes: Seq<(Entity, NodeVisual)>) -> Option<
    VisualCommand,
> {
    match (node_entity(nodes, event.source_id), node_entity(nodes, event.target_id)) {
        (Some(source), Some(target)) => Some(
            VisualCommand::SpawnEdge {
                edge_id: event.edge_id,
                graph_id: event.graph_id,
                source,
                target,
            },
        ),
        _ => None,
    }
}

/// The commands that a batch of edge creations leads to.
pub open spec fn create_edge_plan(
    events: Seq<CreateEdgeVisual>,
    nodes: Seq<(Entity, NodeVisual)>,
) -> Seq<VisualCommand> {
    events.filter_map(|event: CreateEdgeVisual| edge_spawn(event, nodes))
}

/// Looks up the entities of two nodes in one pass over the snapshot.
fn find_endpoints(nodes: &[(Entity, NodeVisual)], source_id: NodeId, target_id: NodeId) -> (found: (
    Option<Entity>,
    Option<Entity>,
))
    ensures
        found.0 == node_entity(nodes@, source_id),
        found.1 == node_entity(nodes@, target_id),
{
    let mut source_entity: Option<Entity> = None;
    let mut target_entity: Option<Entity> = None;
    let mut j: usize = 0;
    while j < nodes.len()
        invariant
            j <= nodes.len(),
            source_entity == node_entity(nodes@.take(j as int), source_id),
            target_entity == node_entity(nodes@.take(j as int), target_id),
        decreases nodes.len() - j,
    {
        let entity = nodes[j].0;
        let node_visual = nodes[j].1;
        proof {
            broadcast use Seq::lemma_filter_push;

            assert(nodes@.take(j + 1) == nodes@.take(j as int).push(nodes@[j as int]));
        }
        if node_visual.node_id == source_id {
            source_entity = Some(entity);
        }
        if node_visual.node_id == target_id {
            target_entity = Some(entity);
        }
        j += 1;
    }
    proof {
        assert(nodes@.take(nodes.len() as int) == nodes@);
    }
    (source_entity, target_entity)
}

/// Plans the visuals of newly created edges.
///
/// Each event is looked up in the snapshot of node entities. Where both end
/// nodes have an entity, an edge entity is to be spawned between them; where
/// one is missing, the event is dropped silently.
pub fn create_edge_visual(events: &[CreateEdgeVisual], nodes: &[(Entity, NodeVisual)]) -> (commands:
    Vec<VisualCommand>)
    ensures
        commands@ == create_edge_plan(events@, nodes@),
{
    let mut commands: Vec<VisualCommand> = Vec::new();
    let mut i: usize = 0;
    while i < events.len()
        invariant
            i <= events.len(),
            commands@ == create_edge_plan(events@.take(i as int), nodes@),
        decreases events.len() - i,
    {
        let event = events[i];
        let (source_entity, target_entity) = find_endpoints(nodes, event.source_id, event.target_id);
        proof {
            events@.lemma_filter_map_take_succ(
                |event: CreateEdgeVisual| edge_spawn(event, nodes@),
                i as int,
            );
        }
        if let (Some(source), Some(target)) = (source_entity, target_entity) {
            commands.push(
                VisualCommand::SpawnEdge {
                    edge_id: event.edge_id,
                    graph_id: event.graph_id,
                    source,
                    target,
                },
            );
        }
        i += 1;
    }
    proof {
        assert(events@.take(events.len() as int) == events@);
    }
    commands
}

/// The spawn that one node creation leads to.
pub open spec fn node_spawn(event: CreateNodeVisual) -> VisualCommand {
    VisualCommand::SpawnNode {
        node_id: event.node_id,
        graph_id: event.graph_id,
        position: event.position,
    }
}

/// The commands that a batch of node creations leads to: one spawn for each
/// event, in the order of the events.
pub open spec fn create_node_plan(events: Seq<CreateNodeVisual>) -> Seq<VisualCommand> {
    events.map_values(|event: CreateNodeVisual| node_spawn(event))
}

/// Plans the visuals of newly created nodes.
pub fn create_node_visual(events: &[CreateNodeVisual]) -> (commands: Vec<VisualCommand>)
    ensures
        commands@ == create_node_plan(events@),
{
    let mut commands: Vec<VisualCommand> = Vec::new();
    let mut i: usize = 0;
    while i < events.len()
        invariant
            i <= events.len(),
            commands@ == create_node_plan(events@.take(i as int)),
        decreases events.len() - i,
    {
        let event = events[i];
        proof {
            assert(events@.take(i + 1) == events@.take(i as int).push(events@[i as int]));
        }
        commands.push(
            VisualCommand::SpawnNode {
                node_id: event.node_id,
                graph_id: event.graph_id,
                position: event.position,
            },
        );
        i += 1;
    }
    proof {
        assert(events@.take(events.len() as int) == events@);
    }
    commands
}

/// The despawns that the removal of node `id` leads to: one for each entity
/// that shows the node, in snapshot order.
pub open spec fn node_despawns(nodes: Seq<(Entity, NodeVisual)>, id: NodeId) -> Seq<VisualCommand> {
    rows_of_node(nodes, id).map_values(
        |row: (Entity, NodeVisual)| VisualCommand::Despawn { entity: row.0 },
    )
}

/// The commands that a batch of node removals leads to.
pub open spec fn remove_node_plan(
    events: Seq<RemoveNodeVisual>,
    nodes: Seq<(Entity, NodeVisual)>,
) -> Seq<VisualCommand> {
    events.flat_map(|event: RemoveNodeVisual| node_despawns(nodes, event.node_id))
}

/// Plans the removal of the visuals of removed nodes.
///
/// Every entity of the snapshot that shows a removed node is to be
/// despawned. An event for a node that no entity shows leads to nothing.
pub fn remove_node_visual(events: &[RemoveNodeVisual], nodes: &[(Entity, NodeVisual)]) -> (commands:
    Vec<VisualCommand>)
    ensures
        commands@ == remove_node_plan(events@, nodes@),
{
    let mut commands: Vec<VisualCommand> = Vec::new();
    let mut i: usize = 0;
    while i < events.len()
        invariant
            i <= events.len(),
            commands@ == remove_node_plan(events@.take(i as int), nodes@),
        decreases events.len() - i,
    {
        let event = events[i];
        let ghost earlier = commands@;
        let mut j: usize = 0;
        while j < nodes.len()
            invariant
                j <= nodes.len(),
                commands@ == earlier + node_despawns(nodes@.take(j as int), event.node_id),
            decreases nodes.len() - j,
        {
            let entity = nodes[j].0;
            let node_visual = nodes[j].1;
            proof {
                lemma_filter_map_values_take_succ(
                    nodes@,
                    |row: (Entity, NodeVisual)| row.1.node_id == event.node_id,
                    |row: (Entity, NodeVisual)| VisualCommand::Despawn { entity: row.0 },
                    j as int,
                );
            }
            if node_visual.node_id == event.node_id {
                commands.push(VisualCommand::Despawn { entity });
            }
            j += 1;
        }
        proof {
            assert(nodes@.take(nodes.len() as int) == nodes@);
            lemma_flat_map_take_succ(
                events@,
                |event: RemoveNodeVisual| node_despawns(nodes@, event.node_id),
                i as int,
            );
        }
        i += 1;
    }
    proof {
        assert(events@.take(events.len() as int) == events@);
    }
    commands
}

/// The rows of a scene snapshot that show edge `id`, in snapshot order.
pub open spec fn rows_of_edge(edges: Seq<(Entity, EdgeVisual)>, id: EdgeId) -> Seq<
    (Entity, EdgeVisual),
> {
    edges.filter(|row: (Entity, EdgeVisual)| row.1.edge_id == id)
}

/// The despawns that the removal of edge `id` leads to: one for each entity
/// that shows the edge, in snapshot order.
pub open spec fn edge_despawns(edges: Seq<(Entity, EdgeVisual)>, id: EdgeId) -> Seq<VisualCommand> {
    rows_of_edge(edges, id).map_values(
        |row: (Entity, EdgeVisual)| VisualCommand::Despawn { entity: row.0 },
    )
}

/// The commands that a batch of edge removals leads to.
pub open spec fn remove_edge_plan(
    events: Seq<RemoveEdgeVisual>,
    edges: Seq<(Entity, EdgeVisual)>,
) -> Seq<VisualCommand> {
    events.flat_map(|event: RemoveEdgeVisual| edge_despawns(edges, event.edge_id))
}

/// Plans the removal of the visuals of removed edges.
///
/// Every entity of the snapshot that shows a removed edge is to be
/// despawned. An event for an edge that no entity shows leads to nothing.
pub fn remove_edge_visual(events: &[RemoveEdgeVisual], edges: &[(Entity, EdgeVisual)]) -> (commands:
    Vec<VisualCommand>)
    ensures
        commands@ == remove_edge_plan(events@, edges@),
{
    let mut commands: Vec<VisualCommand> = Vec::new();
    let mut i: usize = 0;
    while i < events.len()
        invariant
            i <= events.len(),
            commands@ == remove_edge_plan(events@.take(i as int), edges@),
        decreases events.len() - i,
    {
        let event = events[i];
        let ghost earlier = commands@;
        let mut j: usize = 0;
        while j < edges.len()
            invariant
                j <= edges.len(),
                commands@ == earlier + edge_despawns(edges@.take(j as int), event.edge_id),
            decreases edges.len() - j,
        {
            let entity = edges[j].0;
            let edge_visual = edges[j].1;
            proof {
                lemma_filter_map_values_take_succ(
                    edges@,
                    |row: (Entity, EdgeVisual)| row.1.edge_id == event.edge_id,
                    |row: (Entity, EdgeVisual)| VisualCommand::Despawn { entity: row.0 },
                    j as int,
                );
            }
            if edge_visual.edge_id == event.edge_id {
                commands.push(VisualCommand::Despawn { entity });
            }
            j += 1;
        }
        proof {
            assert(edges@.take(edges.len() as int) == edges@);
            lemma_flat_map_take_succ(
                events@,
                |event: RemoveEdgeVisual| edge_despawns(edges@, event.edge_id),
                i as int,
            );
        }
        i += 1;
    }
    proof {
        assert(events@.take(events.len() as int) == events@);
    }
    commands
}

/// The moves that one position change leads to: one for each entity that
/// shows the node, in snapshot order, each to the new position.
pub open spec fn node_moves(nodes: Seq<(Entity, NodeVisual)>, event: NodePositionChanged) -> Seq<
    VisualCommand,
> {
    rows_of_node(nodes, event.node_id).map_values(
        |row: (Entity, NodeVisual)|
            VisualCommand::SetTranslation { entity: row.0, translation: event.new_position },
    )
}

/// The commands that a batch of position changes leads to.
pub open spec fn update_position_plan(
    events: Seq<NodePositionChanged>,
    nodes: Seq<(Entity, NodeVisual)>,
) -> Seq<VisualCommand> {
    events.flat_map(|event: NodePositionChanged| node_moves(nodes, event))
}

/// Plans the moves of the visuals of nodes whose position changed.
///
/// Every entity of the snapshot that shows a moved node is to be put at the
/// new position. The moves come in the order of the events, so the last
/// change of a node decides where its entities end up.
pub fn update_node_position(events: &[NodePositionChanged], nodes: &[(Entity, NodeVisual)]) -> (commands:
    Vec<VisualCommand>)
    ensures
        commands@ == update_position_plan(events@, nodes@),
{
    let mut commands: Vec<VisualCommand> = Vec::new();
    let mut i: usize = 0;
    while i < events.len()
        invariant
            i <= events.len(),
            commands@ == update_position_plan(events@.take(i as int), nodes@),
        decreases events.len() - i,
    {
        let event = events[i];
        let ghost earlier = commands@;
        let mut j: usize = 0;
        while j < nodes.len()
            invariant
                j <= nodes.len(),
                commands@ == earlier + node_moves(nodes@.take(j as int), event),
            decreases nodes.len() - j,
        {
            let entity = nodes[j].0;
            let node_visual = nodes[j].1;
            proof {
                lemma_filter_map_values_take_succ(
                    nodes@,
                    |row: (Entity, NodeVisual)| row.1.node_id == event.node_id,
                    |row: (Entity, NodeVisual)|
                        VisualCommand::SetTranslation {
                            entity: row.0,
                            translation: event.new_position,
                        },
                    j as int,
                );
            }
            if node_visual.node_id == event.node_id {
                commands.push(
                    VisualCommand::SetTranslation { entity, translation: event.new_position },
                );
            }
            j += 1;
        }
        proof {
            assert(nodes@.take(nodes.len() as int) == nodes@);
            lemma_flat_map_take_succ(
                events@,
                |event: NodePositionChanged| node_moves(nodes@, event),
                i as int,
            );
        }
        i += 1;
    }
    proof {
        assert(events@.take(events.len() as int) == events@);
    }
    commands
}

/// Takes note of changed node metadata.
///
/// No component of a visual depends on metadata, so the events are consumed
/// and nothing in the scene is to change, whichever entities show the nodes.
#[allow(unused_variables)]
pub fn update_node_metadata(events: &[NodeMetadataChanged], nodes: &[(Entity, NodeVisual)]) -> (commands:
    Vec<VisualCommand>)
    ensures
        commands@ == Seq::<VisualCommand>::empty(),
{
    Vec::new()
}

/// Takes note of changed edge metadata.
///
/// No component of a visual depends on metadata, so the events are consumed
/// and nothing in the scene is to change, whichever entities show the edges.
#[allow(unused_variables)]
pub fn update_edge_metadata(events: &[EdgeMetadataChanged], edges: &[(Entity, EdgeVisual)]) -> (commands:
    Vec<VisualCommand>)
    ensures
        commands@ == Seq::<VisualCommand>::empty(),
{
    Vec::new()
}

} // verus!

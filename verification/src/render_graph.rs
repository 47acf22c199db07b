//! Which render-graph nodes stand for which render targets.
//!
//! Every render target has one node in the host's render graph, named by an
//! [`EguiPass`]. This module keeps the set of those names and says which
//! nodes the host has to add and remove as targets come and go.

use vstd::prelude::*;
use crate::ids::{EguiRenderTargetType, EntityId};

verus! {

/// The name of a render target's node in the render graph.
#[derive(Clone, Copy, Debug, PartialEq, Eq, Structural, Hash)]
pub struct EguiPass {
    /// Index of the target's entity.
    pub entity_index: u32,
    /// Generation of the target's entity.
    pub entity_generation: u32,
    /// Kind of the render target.
    pub render_target_type: EguiRenderTargetType,
}

impl EguiPass {
    /// The name of the node of the render target `entity` of kind `kind`.
    /// Different targets have different names.
    pub open spec fn of(entity: EntityId, kind: EguiRenderTargetType) -> EguiPass {
        EguiPass {
            entity_index: entity.index,
            entity_generation: entity.generation,
            render_target_type: kind,
        }
    }

    /// The name of the node of a window.
    pub fn from_window_entity(entity: EntityId) -> (pass: EguiPass)
        ensures
            pass == EguiPass::of(entity, EguiRenderTargetType::Window),
    {
        EguiPass {
            entity_index: entity.index,
            entity_generation: entity.generation,
            render_target_type: EguiRenderTargetType::Window,
        }
    }

    /// The name of the node of a target that renders to an image.
    pub fn from_render_to_image_entity(entity: EntityId) -> (pass: EguiPass)
        ensures
            pass == EguiPass::of(entity, EguiRenderTargetType::Image),
    {
        EguiPass {
            entity_index: entity.index,
            entity_generation: entity.generation,
            render_target_type: EguiRenderTargetType::Image,
        }
    }

    /// The entity of the render target that this node belongs to.
    pub fn entity(&self) -> (entity: EntityId)
        ensures
            *self == EguiPass::of(entity, self.render_target_type),
    {
        EntityId { index: self.entity_index, generation: self.entity_generation }
    }
}

/// Where a node runs relative to the stage that drives the cameras.
#[derive(Clone, Copy, Debug, PartialEq, Eq, Structural)]
pub enum NodeOrder {
    /// After the cameras were driven: the UI is painted over what they drew.
    AfterCameraDriver,
    /// Before the cameras are driven: what is painted in this frame can be
    /// sampled by them in this frame.
    BeforeCameraDriver,
}

impl NodeOrder {
    /// Windows are painted after the cameras, images before them.
    pub open spec fn of(kind: EguiRenderTargetType) -> NodeOrder {
        match kind {
            EguiRenderTargetType::Window => NodeOrder::AfterCameraDriver,
            EguiRenderTargetType::Image => NodeOrder::BeforeCameraDriver,
        }
    }

    /// Where the node of a target of kind `kind` runs.
    pub fn for_target(kind: EguiRenderTargetType) -> (order: NodeOrder)
        ensures
            order == NodeOrder::of(kind),
    {
        match kind {
            EguiRenderTargetType::Window => NodeOrder::AfterCameraDriver,
            EguiRenderTargetType::Image => NodeOrder::BeforeCameraDriver,
        }
    }
}

/// A node to add to the render graph, with the edge that places it.
#[derive(Clone, Copy, Debug, PartialEq, Eq, Structural)]
pub struct NodeSetup {
    /// The name of the node.
    pub pass: EguiPass,
    /// The render target that the node paints.
    pub target: EntityId,
    /// Where the node runs.
    pub order: NodeOrder,
}

impl NodeSetup {
    /// The node to add for the target `entity` of kind `kind`.
    pub open spec fn of(entity: EntityId, kind: EguiRenderTargetType) -> NodeSetup {
        NodeSetup { pass: EguiPass::of(entity, kind), target: entity, order: NodeOrder::of(kind) }
    }
}

/// A node to remove from the render graph.
#[derive(Clone, Copy, Debug, PartialEq, Eq, Structural)]
pub struct NodeTeardown {
    /// The name of the node.
    pub pass: EguiPass,
    /// Whether the node was there. Removing a node that is not there is not
    /// fatal; the caller reports it.
    pub existed: bool,
}

/// The nodes that stand in the render graph, one for each render target.
pub struct EguiPassNodes {
    nodes: Vec<EguiPass>,
}

impl View for EguiPassNodes {
    type V = Set<EguiPass>;

    closed spec fn view(&self) -> Set<EguiPass> {
        self.nodes@.to_set()
    }
}

impl EguiPassNodes {
    /// No node is listed twice.
    pub closed spec fn wf(&self) -> bool {
        self.nodes@.no_duplicates()
    }

    /// No nodes.
    pub fn new() -> (r: Self)
        ensures
            r.wf(),
            r@ == Set::<EguiPass>::empty(),
    {
        let r = EguiPassNodes { nodes: Vec::new() };
        assert(r@ =~= Set::<EguiPass>::empty());
        r
    }

    /// The number of nodes.
    pub fn len(&self) -> (n: usize)
        requires
            self.wf(),
        ensures
            n == self@.len(),
            self@.finite(),
    {
        proof {
            self.nodes@.unique_seq_to_set();
        }
        self.nodes.len()
    }

    /// Where `pass` stands in the list, if it does.
    fn position(&self, pass: EguiPass) -> (at: Option<usize>)
        ensures
            match at {
                Some(i) => i < self.nodes.len() && self.nodes[i as int] == pass,
                None => !self.nodes@.contains(pass),
            },
    {
        let mut i: usize = 0;
        while i < self.nodes.len()
            invariant
                i <= self.nodes.len(),
                forall|j: int| 0 <= j < i ==> self.nodes[j] != pass,
            decreases self.nodes.len() - i,
        {
            if self.nodes[i] == pass {
                return Some(i);
            }
            i += 1;
        }
        None
    }

    /// Whether the node `pass` is there.
    pub fn contains(&self, pass: EguiPass) -> (found: bool)
        ensures
            found == self@.contains(pass),
    {
        self.position(pass).is_some()
    }

    /// Adds the node `pass`. A node that is there already stays as it is.
    /// Returns whether the node is new.
    pub fn insert(&mut self, pass: EguiPass) -> (added: bool)
        requires
            old(self).wf(),
        ensures
            final(self).wf(),
            final(self)@ == old(self)@.insert(pass),
            added == !old(self)@.contains(pass),
    {
        match self.position(pass) {
            Some(_) => {
                proof {
                    assert(self@ =~= old(self)@.insert(pass));
                }
                false
            },
            None => {
                self.nodes.push(pass);
                proof {
                    let before = old(self).nodes@;
                    assert(self.nodes@ =~= before.push(pass));
                    assert forall|e: EguiPass|
                        self.nodes@.contains(e) <==> (before.contains(e) || e == pass) by {
                        if self.nodes@.contains(e) {
                            let j = choose|j: int| 0 <= j < self.nodes@.len() && self.nodes@[j] == e;
                            if j < before.len() {
                                assert(before[j] == e);
                            }
                        }
                        if before.contains(e) {
                            let j = choose|j: int| 0 <= j < before.len() && before[j] == e;
                            assert(self.nodes@[j] == e);
                        }
                        if e == pass {
                            assert(self.nodes@[before.len() as int] == e);
                        }
                    }
                    assert(self@ =~= old(self)@.insert(pass));
                }
                true
            },
        }
    }

    /// Removes the node `pass`. Returns whether it was there; removing a
    /// node that is not there changes nothing.
    pub fn remove(&mut self, pass: EguiPass) -> (existed: bool)
        requires
            old(self).wf(),
        ensures
            final(self).wf(),
            final(self)@ == old(self)@.remove(pass),
            existed == old(self)@.contains(pass),
    {
        match self.position(pass) {
            None => {
                proof {
                    assert(self@ =~= old(self)@.remove(pass));
                }
                false
            },
            Some(i) => {
                self.nodes.remove(i);
                proof {
                    let before = old(self).nodes@;
                    let after = self.nodes@;
                    assert(after =~= before.remove(i as int));
                    assert forall|e: EguiPass| after.contains(e) <==> (before.contains(e) && e
                        != pass) by {
                        if after.contains(e) {
                            let j = choose|j: int| 0 <= j < after.len() && after[j] == e;
                            if j < i {
                                assert(before[j] == e);
                            } else {
                                assert(before[j + 1] == e);
                            }
                        }
                        if before.contains(e) && e != pass {
                            let j = choose|j: int| 0 <= j < before.len() && before[j] == e;
                            if j < i {
                                assert(after[j] == e);
                            } else {
                                assert(after[j - 1] == e);
                            }
                        }
                    }
                    assert(self@ =~= old(self)@.remove(pass));
                }
                true
            },
        }
    }
}

impl Default for EguiPassNodes {
    /// No nodes.
    fn default() -> (r: Self)
        ensures
            r.wf(),
            r@ == Set::<EguiPass>::empty(),
    {
        EguiPassNodes::new()
    }
}

/// The names of the nodes of the first `n` of `entities`, all of kind
/// `kind`.
pub open spec fn passes_of(entities: Seq<EntityId>, kind: EguiRenderTargetType, n: nat) -> Set<
    EguiPass,
> {
    Set::new(|pass: EguiPass| exists|i: int| 0 <= i < n && pass == EguiPass::of(#[trigger] entities[i], kind))
}

/// Adds a node for each of `created`, render targets of kind `kind` that
/// came up since the last frame. Returns the nodes for the host to add to
/// its graph, one for each target, in the order of `created`.
pub fn setup_new_nodes(
    nodes: &mut EguiPassNodes,
    created: &Vec<EntityId>,
    kind: EguiRenderTargetType,
) -> (setups: Vec<NodeSetup>)
    requires
        old(nodes).wf(),
    ensures
        final(nodes).wf(),
        final(nodes)@ == old(nodes)@.union(passes_of(created@, kind, created.len() as nat)),
        setups.len() == created.len(),
        forall|i: int| 0 <= i < created.len() ==> #[trigger] setups[i] == NodeSetup::of(created[i], kind),
{
    let mut setups: Vec<NodeSetup> = Vec::new();
    let mut i: usize = 0;
    proof {
        assert(nodes@ =~= old(nodes)@.union(passes_of(created@, kind, 0)));
    }
    while i < created.len()
        invariant
            i <= created.len(),
            nodes.wf(),
            nodes@ == old(nodes)@.union(passes_of(created@, kind, i as nat)),
            setups.len() == i,
            forall|j: int| 0 <= j < i ==> #[trigger] setups[j] == NodeSetup::of(created[j], kind),
        decreases created.len() - i,
    {
        let entity = created[i];
        let pass = match kind {
            EguiRenderTargetType::Window => EguiPass::from_window_entity(entity),
            EguiRenderTargetType::Image => EguiPass::from_render_to_image_entity(entity),
        };
        let ghost before = nodes@;
        nodes.insert(pass);
        setups.push(NodeSetup { pass, target: entity, order: NodeOrder::for_target(kind) });
        proof {
            assert forall|e: EguiPass|
                passes_of(created@, kind, (i + 1) as nat).contains(e) <==> (passes_of(
                    created@,
                    kind,
                    i as nat,
                ).contains(e) || e == pass) by {
                if e == pass {
                    assert(e == EguiPass::of(created@[i as int], kind));
                }
            }
            assert(nodes@ =~= old(nodes)@.union(passes_of(created@, kind, (i + 1) as nat)));
        }
        i += 1;
    }
    setups
}

/// Removes the node of each of `removed`, render targets of kind `kind`
/// that went away since the last frame. Returns the nodes for the host to
/// remove from its graph, in the order of `removed`, each with a note of
/// whether it was there when its turn came.
pub fn teardown_nodes(
    nodes: &mut EguiPassNodes,
    removed: &Vec<EntityId>,
    kind: EguiRenderTargetType,
) -> (teardowns: Vec<NodeTeardown>)
    requires
        old(nodes).wf(),
    ensures
        final(nodes).wf(),
        final(nodes)@ == old(nodes)@.difference(passes_of(removed@, kind, removed.len() as nat)),
        teardowns.len() == removed.len(),
        forall|i: int|
            0 <= i < removed.len() ==> (#[trigger] teardowns[i]).pass == EguiPass::of(
                removed[i],
                kind,
            ),
        forall|i: int|
            0 <= i < removed.len() ==> (#[trigger] teardowns[i]).existed == (old(nodes)@.contains(
                EguiPass::of(removed[i], kind),
            ) && !passes_of(removed@, kind, i as nat).contains(EguiPass::of(removed[i], kind))),
{
    let mut teardowns: Vec<NodeTeardown> = Vec::new();
    let mut i: usize = 0;
    proof {
        assert(nodes@ =~= old(nodes)@.difference(passes_of(removed@, kind, 0)));
    }
    while i < removed.len()
        invariant
            i <= removed.len(),
            nodes.wf(),
            nodes@ == old(nodes)@.difference(passes_of(removed@, kind, i as nat)),
            teardowns.len() == i,
            forall|j: int|
                0 <= j < i ==> (#[trigger] teardowns[j]).pass == EguiPass::of(removed[j], kind),
            forall|j: int|
                0 <= j < i ==> (#[trigger] teardowns[j]).existed == (old(nodes)@.contains(
                    EguiPass::of(removed[j], kind),
                ) && !passes_of(removed@, kind, j as nat).contains(EguiPass::of(removed[j], kind))),
        decreases removed.len() - i,
    {
        let entity = removed[i];
        let pass = match kind {
            EguiRenderTargetType::Window => EguiPass::from_window_entity(entity),
            EguiRenderTargetType::Image => EguiPass::from_render_to_image_entity(entity),
        };
        let existed = nodes.remove(pass);
        teardowns.push(NodeTeardown { pass, existed });
        proof {
            assert forall|e: EguiPass|
                passes_of(removed@, kind, (i + 1) as nat).contains(e) <==> (passes_of(
                    removed@,
                    kind,
                    i as nat,
                ).contains(e) || e == pass) by {
                if e == pass {
                    assert(e == EguiPass::of(removed@[i as int], kind));
                }
            }
            assert(nodes@ =~= old(nodes)@.difference(
                passes_of(removed@, kind, (i + 1) as nat),
            ));
        }
        i += 1;
    }
    teardowns
}

/// Sets up nodes for newly created windows.
pub fn setup_new_window_nodes_system(nodes: &mut EguiPassNodes, windows: &Vec<EntityId>) -> (setups:
    Vec<NodeSetup>)
    requires
        old(nodes).wf(),
    ensures
        final(nodes).wf(),
        final(nodes)@ == old(nodes)@.union(
            passes_of(windows@, EguiRenderTargetType::Window, windows.len() as nat),
        ),
        setups.len() == windows.len(),
        forall|i: int|
            0 <= i < windows.len() ==> #[trigger] setups[i] == NodeSetup::of(
                windows[i],
                EguiRenderTargetType::Window,
            ),
{
    setup_new_nodes(nodes, windows, EguiRenderTargetType::Window)
}

/// Tears the nodes of removed windows down.
pub fn teardown_window_nodes_system(nodes: &mut EguiPassNodes, removed_windows: &Vec<EntityId>) -> (teardowns:
    Vec<NodeTeardown>)
    requires
        old(nodes).wf(),
    ensures
        final(nodes).wf(),
        final(nodes)@ == old(nodes)@.difference(
            passes_of(removed_windows@, EguiRenderTargetType::Window, removed_windows.len() as nat),
        ),
        teardowns.len() == removed_windows.len(),
        forall|i: int|
            0 <= i < removed_windows.len() ==> (#[trigger] teardowns[i]).pass == EguiPass::of(
                removed_windows[i],
                EguiRenderTargetType::Window,
            ),
        forall|i: int|
            0 <= i < removed_windows.len() ==> (#[trigger] teardowns[i]).existed == (old(
                nodes,
            )@.contains(EguiPass::of(removed_windows[i], EguiRenderTargetType::Window))
                && !passes_of(removed_windows@, EguiRenderTargetType::Window, i as nat).contains(
                EguiPass::of(removed_windows[i], EguiRenderTargetType::Window),
            )),
{
    teardown_nodes(nodes, removed_windows, EguiRenderTargetType::Window)
}

/// Sets up nodes for newly created targets that render to an image.
pub fn setup_new_render_to_image_nodes_system(
    nodes: &mut EguiPassNodes,
    render_to_image_targets: &Vec<EntityId>,
) -> (setups: Vec<NodeSetup>)
    requires
        old(nodes).wf(),
    ensures
        final(nodes).wf(),
        final(nodes)@ == old(nodes)@.union(
            passes_of(
                render_to_image_targets@,
                EguiRenderTargetType::Image,
                render_to_image_targets.len() as nat,
            ),
        ),
        setups.len() == render_to_image_targets.len(),
        forall|i: int|
            0 <= i < render_to_image_targets.len() ==> #[trigger] setups[i] == NodeSetup::of(
                render_to_image_targets[i],
                EguiRenderTargetType::Image,
            ),
{
    setup_new_nodes(nodes, render_to_image_targets, EguiRenderTargetType::Image)
}

/// Tears the nodes of removed targets that rendered to an image down.
pub fn teardown_render_to_image_nodes_system(
    nodes: &mut EguiPassNodes,
    removed_targets: &Vec<EntityId>,
) -> (teardowns: Vec<NodeTeardown>)
    requires
        old(nodes).wf(),
    ensures
        final(nodes).wf(),
        final(nodes)@ == old(nodes)@.difference(
            passes_of(removed_targets@, EguiRenderTargetType::Image, removed_targets.len() as nat),
        ),
        teardowns.len() == removed_targets.len(),
        forall|i: int|
            0 <= i < removed_targets.len() ==> (#[trigger] teardowns[i]).pass == EguiPass::of(
                removed_targets[i],
                EguiRenderTargetType::Image,
            ),
        forall|i: int|
            0 <= i < removed_targets.len() ==> (#[trigger] teardowns[i]).existed == (old(
                nodes,
            )@.contains(EguiPass::of(removed_targets[i], EguiRenderTargetType::Image))
                && !passes_of(removed_targets@, EguiRenderTargetType::Image, i as nat).contains(
                EguiPass::of(removed_targets[i], EguiRenderTargetType::Image),
            )),
{
    teardown_nodes(nodes, removed_targets, EguiRenderTargetType::Image)
}

/// Something that happens to a render target.
pub enum TargetEvent {
    /// The target came up.
    Created(EntityId, EguiRenderTargetType),
    /// The target went away.
    Removed(EntityId, EguiRenderTargetType),
}

/// The render targets that are alive after `events`, starting with none.
pub open spec fn live_targets(events: Seq<TargetEvent>) -> Set<(EntityId, EguiRenderTargetType)>
    decreases events.len(),
{
    if events.len() == 0 {
        Set::empty()
    } else {
        let before = live_targets(events.drop_last());
        match events.last() {
            TargetEvent::Created(entity, kind) => before.insert((entity, kind)),
            TargetEvent::Removed(entity, kind) => before.remove((entity, kind)),
        }
    }
}

/// The nodes that stand in the graph after `events`, starting with none: a
/// node is set up for each target that comes up and torn down for each that
/// goes away.
pub open spec fn nodes_after(events: Seq<TargetEvent>) -> Set<EguiPass>
    decreases events.len(),
{
    if events.len() == 0 {
        Set::empty()
    } else {
        let before = nodes_after(events.drop_last());
        match events.last() {
            TargetEvent::Created(entity, kind) => before.insert(EguiPass::of(entity, kind)),
            TargetEvent::Removed(entity, kind) => before.remove(EguiPass::of(entity, kind)),
        }
    }
}

/// The events of a batch of targets of one kind that come up, in the order
/// of the batch.
pub open spec fn created_events(created: Seq<EntityId>, kind: EguiRenderTargetType) -> Seq<
    TargetEvent,
> {
    Seq::new(created.len(), |i: int| TargetEvent::Created(created[i], kind))
}

/// The events of a batch of targets of one kind that go away, in the order
/// of the batch.
pub open spec fn removed_events(removed: Seq<EntityId>, kind: EguiRenderTargetType) -> Seq<
    TargetEvent,
> {
    Seq::new(removed.len(), |i: int| TargetEvent::Removed(removed[i], kind))
}

/// Setting nodes up for a batch of new targets, as the setup systems do,
/// leaves the nodes that stand after the events of the batch.
pub proof fn lemma_setup_batch(
    events: Seq<TargetEvent>,
    created: Seq<EntityId>,
    kind: EguiRenderTargetType,
)
    ensures
        nodes_after(events + created_events(created, kind)) == nodes_after(events).union(
            passes_of(created, kind, created.len()),
        ),
    decreases created.len(),
{
    let batch = created_events(created, kind);
    if created.len() == 0 {
        assert(events + batch =~= events);
        assert(nodes_after(events).union(passes_of(created, kind, 0)) =~= nodes_after(events));
    } else {
        let shorter = created.drop_last();
        lemma_setup_batch(events, shorter, kind);
        let all = events + batch;
        assert(all.drop_last() =~= events + created_events(shorter, kind));
        assert(all.last() == TargetEvent::Created(created.last(), kind));
        let pass = EguiPass::of(created.last(), kind);
        assert forall|e: EguiPass|
            passes_of(created, kind, created.len()).contains(e) <==> (passes_of(
                shorter,
                kind,
                shorter.len(),
            ).contains(e) || e == pass) by {
            if passes_of(created, kind, created.len()).contains(e) {
                let i = choose|i: int|
                    0 <= i < created.len() && e == EguiPass::of(#[trigger] created[i], kind);
                if i < shorter.len() {
                    assert(e == EguiPass::of(shorter[i], kind));
                }
            }
            if passes_of(shorter, kind, shorter.len()).contains(e) {
                let i = choose|i: int|
                    0 <= i < shorter.len() && e == EguiPass::of(#[trigger] shorter[i], kind);
                assert(e == EguiPass::of(created[i], kind));
            }
            if e == pass {
                assert(e == EguiPass::of(created[created.len() - 1], kind));
            }
        }
        assert(nodes_after(all) =~= nodes_after(events).union(
            passes_of(created, kind, created.len()),
        ));
    }
}

/// Tearing the nodes of a batch of removed targets down, as the teardown
/// systems do, leaves the nodes that stand after the events of the batch.
pub proof fn lemma_teardown_batch(
    events: Seq<TargetEvent>,
    removed: Seq<EntityId>,
    kind: EguiRenderTargetType,
)
    ensures
        nodes_after(events + removed_events(removed, kind)) == nodes_after(events).difference(
            passes_of(removed, kind, removed.len()),
        ),
    decreases removed.len(),
{
    let batch = removed_events(removed, kind);
    if removed.len() == 0 {
        assert(events + batch =~= events);
        assert(nodes_after(events).difference(passes_of(removed, kind, 0)) =~= nodes_after(
            events,
        ));
    } else {
        let shorter = removed.drop_last();
        lemma_teardown_batch(events, shorter, kind);
        let all = events + batch;
        assert(all.drop_last() =~= events + removed_events(shorter, kind));
        assert(all.last() == TargetEvent::Removed(removed.last(), kind));
        let pass = EguiPass::of(removed.last(), kind);
        assert forall|e: EguiPass|
            passes_of(removed, kind, removed.len()).contains(e) <==> (passes_of(
                shorter,
                kind,
                shorter.len(),
            ).contains(e) || e == pass) by {
            if passes_of(removed, kind, removed.len()).contains(e) {
                let i = choose|i: int|
                    0 <= i < removed.len() && e == EguiPass::of(#[trigger] removed[i], kind);
                if i < shorter.len() {
                    assert(e == EguiPass::of(shorter[i], kind));
                }
            }
            if passes_of(shorter, kind, shorter.len()).contains(e) {
                let i = choose|i: int|
                    0 <= i < shorter.len() && e == EguiPass::of(#[trigger] shorter[i], kind);
                assert(e == EguiPass::of(removed[i], kind));
            }
            if e == pass {
                assert(e == EguiPass::of(removed[removed.len() - 1], kind));
            }
        }
        assert(nodes_after(all) =~= nodes_after(events).difference(
            passes_of(removed, kind, removed.len()),
        ));
    }
}

/// Whatever targets come and go, the nodes in the graph are those of the
/// targets that are alive: each live target has its node, each node belongs
/// to a live target, and there are as many nodes as live targets.
pub proof fn lemma_nodes_match_live_targets(events: Seq<TargetEvent>)
    ensures
        live_targets(events).finite(),
        nodes_after(events).finite(),
        nodes_after(events).len() == live_targets(events).len(),
        forall|entity: EntityId, kind: EguiRenderTargetType|
            live_targets(events).contains((entity, kind)) <==> #[trigger] nodes_after(
                events,
            ).contains(EguiPass::of(entity, kind)),
    decreases events.len(),
{
    if events.len() > 0 {
        let prefix = events.drop_last();
        lemma_nodes_match_live_targets(prefix);
        let live = live_targets(prefix);
        let nodes = nodes_after(prefix);
        match events.last() {
            TargetEvent::Created(entity, kind) => {
                let pass = EguiPass::of(entity, kind);
                assert(nodes.contains(pass) == live.contains((entity, kind)));
                assert forall|e: EntityId, k: EguiRenderTargetType|
                    live_targets(events).contains((e, k)) <==> #[trigger] nodes_after(
                        events,
                    ).contains(EguiPass::of(e, k)) by {
                    assert(live.contains((e, k)) <==> nodes.contains(EguiPass::of(e, k)));
                }
            },
            TargetEvent::Removed(entity, kind) => {
                let pass = EguiPass::of(entity, kind);
                assert(nodes.contains(pass) == live.contains((entity, kind)));
                assert forall|e: EntityId, k: EguiRenderTargetType|
                    live_targets(events).contains((e, k)) <==> #[trigger] nodes_after(
                        events,
                    ).contains(EguiPass::of(e, k)) by {
                    assert(live.contains((e, k)) <==> nodes.contains(EguiPass::of(e, k)));
                }
            },
        }
    }
}

} // verus!

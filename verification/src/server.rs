//! Handle issuance.
//!
//! The server owns the process-wide handler state and the intent registry.
//! Every operation that creates or duplicates a handle adjusts the strong
//! counts, and every structural side effect goes through the deferred-mutation
//! queue, never directly into the substrate.

use vstd::prelude::*;
use std::collections::HashMap;
use crate::commands::Command;
use crate::commands::CommandQueue;
use crate::handler::EntityHandler;
use crate::handler::HandlerView;
use crate::handler::bump;
use crate::handler::can_acquire;
use crate::handler::can_clone;
use crate::handler::can_release;
use crate::handler::execute_view;
use crate::handler::intent_key;
use crate::handler::needs_marker;
use crate::handler::release_view;
use crate::handles::EntityHandle;
use crate::world::World;
use crate::world::empty_record;

verus! {

broadcast use vstd::std_specs::hash::group_hash_axioms;

/// Registry from an intent's type key to the marker component registered for
/// it.  An intent must be registered before any entity is spawned or claimed
/// under it.
pub struct IntentComponentsRegistry {
    map: HashMap<u64, u64>,
}

impl View for IntentComponentsRegistry {
    type V = Map<u64, u64>;

    closed spec fn view(&self) -> Map<u64, u64> {
        self.map@
    }
}

/// Mathematical image of the server: the handler state plus the intent
/// registry.
pub struct ServerView {
    pub handler: HandlerView,
    pub intents: Map<u64, u64>,
}

/// The commands a spawn queues for its initial bundle of data components.
pub open spec fn bundle_cmds(e: usize, bundle: Seq<(u64, i64)>) -> Seq<Command> {
    Seq::new(
        bundle.len(),
        |j: int| Command::InsertComp { entity: e, comp: bundle[j].0, value: bundle[j].1 },
    )
}

/// The type key the plugin registers for the unit intent, the default claim
/// reason when a caller does not care to distinguish why it holds an entity.
pub const UNIT_INTENT: u64 = 0;

/// Plugin wiring: sets up the server state and registers the unit intent, and
/// stands for scheduling the reconciliation step late in each cycle.
pub struct EntityHandlePlugin;

impl EntityHandlePlugin {
    /// Build the server this plugin provides.
    pub fn build(&self, world: &mut World) -> (s: EntityServer)
        requires
            old(world)@.next_comp < u64::MAX,
        ensures
            s@.handler.entity_refs == Map::<usize, u64>::empty(),
            s@.handler.intent_refs == Map::<u128, u64>::empty(),
            s@.handler.entity_events == Seq::<usize>::empty(),
            s@.handler.intent_events == Seq::<(usize, u64)>::empty(),
            s@.intents == Map::<u64, u64>::empty().insert(UNIT_INTENT, old(world)@.next_comp),
            final(world)@.records == old(world)@.records,
            final(world)@.next_comp == old(world)@.next_comp + 1,
    {
        let mut s = EntityServer::new();
        s.register_intent(world, UNIT_INTENT);
        s
    }
}

/// The handle issuance service: owns the reference-count handler and the
/// intent registry, and is handed the substrate and its command queue by the
/// host at each call.
pub struct EntityServer {
    handler: EntityHandler,
    intents: IntentComponentsRegistry,
}

impl View for EntityServer {
    type V = ServerView;

    closed spec fn view(&self) -> ServerView {
        ServerView { handler: self.handler@, intents: self.intents@ }
    }
}

impl EntityServer {
    /// A fresh server: nothing tracked, nothing registered.
    pub fn new() -> (s: EntityServer)
        ensures
            s@.handler.entity_refs == Map::<usize, u64>::empty(),
            s@.handler.intent_refs == Map::<u128, u64>::empty(),
            s@.handler.entity_events == Seq::<usize>::empty(),
            s@.handler.intent_events == Seq::<(usize, u64)>::empty(),
            s@.intents == Map::<u64, u64>::empty(),
    {
        EntityServer {
            handler: EntityHandler::new(),
            intents: IntentComponentsRegistry { map: HashMap::new() },
        }
    }

    /// Register an intent under its type key: the substrate allocates a marker
    /// component for it.  Registering the same key again returns the existing
    /// marker component and changes nothing.
    pub fn register_intent(&mut self, world: &mut World, type_key: u64) -> (c: u64)
        requires
            old(world)@.next_comp < u64::MAX,
        ensures
            final(self)@.handler == old(self)@.handler,
            final(world)@.records == old(world)@.records,
            old(self)@.intents.contains_key(type_key) ==> c == old(self)@.intents[type_key]
                && final(self)@.intents == old(self)@.intents
                && final(world)@.next_comp == old(world)@.next_comp,
            !old(self)@.intents.contains_key(type_key) ==> c == old(world)@.next_comp
                && final(self)@.intents == old(self)@.intents.insert(type_key, c)
                && final(world)@.next_comp == old(world)@.next_comp + 1,
            final(self)@.intents.contains_key(type_key) && final(self)@.intents[type_key] == c,
    {
        let existing: Option<u64> = match self.intents.map.get(&type_key) {
            Some(v) => Some(*v),
            None => None,
        };
        match existing {
            Some(c) => c,
            None => {
                let c = world.register_component();
                self.intents.map.insert(type_key, c);
                c
            },
        }
    }

    /// Look up the marker component registered for an intent.
    pub fn intent_component_of(&self, type_key: u64) -> (r: Option<u64>)
        ensures
            r == if self@.intents.contains_key(type_key) {
                Some(self@.intents[type_key])
            } else {
                None::<u64>
            },
    {
        match self.intents.map.get(&type_key) {
            Some(v) => Some(*v),
            None => None,
        }
    }

    /// Spawn a new managed entity: reserves a fresh identifier, queues the
    /// structural spawn (intent marker, optional identity marker, bundle of
    /// data components) and records one strong count on each token.
    pub(crate) fn spawn_inner(
        &mut self,
        world: &mut World,
        cmds: &mut CommandQueue,
        intent_type: u64,
        id_marker: Option<u64>,
        bundle: &Vec<(u64, i64)>,
    ) -> (h: EntityHandle)
        requires
            old(self)@.intents.contains_key(intent_type),
            old(world)@.records.len() < usize::MAX,
        ensures
            ({
                let e = old(world)@.records.len() as usize;
                let ic = old(self)@.intents[intent_type];
                &&& h@ == (e, ic)
                &&& final(world)@.records == old(world)@.records.push(empty_record())
                &&& final(world)@.next_comp == old(world)@.next_comp
                &&& final(self)@.intents == old(self)@.intents
                &&& final(self)@.handler.entity_refs == old(self)@.handler.entity_refs.insert(e, 1)
                &&& final(self)@.handler.intent_refs == old(self)@.handler.intent_refs.insert(
                    intent_key(e, ic),
                    1,
                )
                &&& final(self)@.handler.entity_events == old(self)@.handler.entity_events
                &&& final(self)@.handler.intent_events == old(self)@.handler.intent_events
                &&& final(cmds)@ == old(cmds)@.push(
                    Command::Spawn { entity: e, intent: ic, id_marker },
                ) + bundle_cmds(e, bundle@)
            }),
    {
        let ic = match self.intents.map.get(&intent_type) {
            Some(c) => *c,
            None => 0,
        };
        let e = world.reserve_entity();
        cmds.push(Command::Spawn { entity: e, intent: ic, id_marker });
        let ghost base = cmds@;
        let mut j: usize = 0;
        while j < bundle.len()
            invariant
                j <= bundle@.len(),
                cmds@ == base + bundle_cmds(e, bundle@.take(j as int)),
            decreases bundle@.len() - j,
        {
            let pair = bundle[j];
            cmds.push(Command::InsertComp { entity: e, comp: pair.0, value: pair.1 });
            proof {
                assert(bundle_cmds(e, bundle@.take(j + 1 as int)) =~= bundle_cmds(
                    e,
                    bundle@.take(j as int),
                ).push(Command::InsertComp { entity: e, comp: bundle@[j as int].0, value: bundle@[j as int].1 }));
                assert(cmds@ =~= base + bundle_cmds(e, bundle@.take(j + 1 as int)));
            }
            j = j + 1;
        }
        proof {
            assert(bundle@.take(bundle@.len() as int) =~= bundle@);
            assert(cmds@ =~= base + bundle_cmds(e, bundle@));
        }
        self.handler.note_spawn(e, ic);
        EntityHandle::make(e, ic)
    }

    /// Spawn a new managed entity carrying `bundle` as initial data
    /// components, returning the one handle that keeps it alive.
    pub fn spawn(
        &mut self,
        world: &mut World,
        cmds: &mut CommandQueue,
        intent_type: u64,
        bundle: &Vec<(u64, i64)>,
    ) -> (h: EntityHandle)
        requires
            old(self)@.intents.contains_key(intent_type),
            old(world)@.records.len() < usize::MAX,
        ensures
            ({
                let e = old(world)@.records.len() as usize;
                let ic = old(self)@.intents[intent_type];
                &&& h@ == (e, ic)
                &&& final(world)@.records == old(world)@.records.push(empty_record())
                &&& final(world)@.next_comp == old(world)@.next_comp
                &&& final(self)@.intents == old(self)@.intents
                &&& final(self)@.handler.entity_refs == old(self)@.handler.entity_refs.insert(e, 1)
                &&& final(self)@.handler.intent_refs == old(self)@.handler.intent_refs.insert(
                    intent_key(e, ic),
                    1,
                )
                &&& final(self)@.handler.entity_events == old(self)@.handler.entity_events
                &&& final(self)@.handler.intent_events == old(self)@.handler.intent_events
                &&& final(cmds)@ == old(cmds)@.push(
                    Command::Spawn { entity: e, intent: ic, id_marker: None },
                ) + bundle_cmds(e, bundle@)
            }),
    {
        self.spawn_inner(world, cmds, intent_type, None, bundle)
    }

    /// Spawn a new managed entity with no initial data components.
    pub fn spawn_empty(
        &mut self,
        world: &mut World,
        cmds: &mut CommandQueue,
        intent_type: u64,
    ) -> (h: EntityHandle)
        requires
            old(self)@.intents.contains_key(intent_type),
            old(world)@.records.len() < usize::MAX,
        ensures
            ({
                let e = old(world)@.records.len() as usize;
                let ic = old(self)@.intents[intent_type];
                &&& h@ == (e, ic)
                &&& final(world)@.records == old(world)@.records.push(empty_record())
                &&& final(world)@.next_comp == old(world)@.next_comp
                &&& final(self)@.intents == old(self)@.intents
                &&& final(self)@.handler.entity_refs == old(self)@.handler.entity_refs.insert(e, 1)
                &&& final(self)@.handler.intent_refs == old(self)@.handler.intent_refs.insert(
                    intent_key(e, ic),
                    1,
                )
                &&& final(self)@.handler.entity_events == old(self)@.handler.entity_events
                &&& final(self)@.handler.intent_events == old(self)@.handler.intent_events
                &&& final(cmds)@ == old(cmds)@.push(
                    Command::Spawn { entity: e, intent: ic, id_marker: None },
                )
            }),
    {
        let bundle: Vec<(u64, i64)> = Vec::new();
        let h = self.spawn_inner(world, cmds, intent_type, None, &bundle);
        proof {
            assert(bundle_cmds(old(world)@.records.len() as usize, bundle@) =~= Seq::<
                Command,
            >::empty());
            assert(cmds@ =~= old(cmds)@.push(
                Command::Spawn {
                    entity: old(world)@.records.len() as usize,
                    intent: old(self)@.intents[intent_type],
                    id_marker: None,
                },
            ));
        }
        h
    }

    /// Claim an existing entity (managed or not) under an intent.  A live
    /// token is shared (count bumped); a missing or stale one is recreated
    /// with count one, and in the intent's case the marker insertion is
    /// queued.  The entity will be despawned once every handle is released.
    pub fn to_managed(&mut self, cmds: &mut CommandQueue, entity: usize, intent_type: u64) -> (h:
        EntityHandle)
        requires
            old(self)@.intents.contains_key(intent_type),
            can_acquire(old(self)@.handler, entity, old(self)@.intents[intent_type]),
        ensures
            ({
                let ic = old(self)@.intents[intent_type];
                let k = intent_key(entity, ic);
                &&& h@ == (entity, ic)
                &&& final(self)@.intents == old(self)@.intents
                &&& final(self)@.handler.entity_refs == bump(
                    old(self)@.handler.entity_refs,
                    entity,
                )
                &&& final(self)@.handler.intent_refs == bump(old(self)@.handler.intent_refs, k)
                &&& final(self)@.handler.entity_events == old(self)@.handler.entity_events
                &&& final(self)@.handler.intent_events == old(self)@.handler.intent_events
                &&& final(cmds)@ == if needs_marker(old(self)@.handler.intent_refs, k) {
                    old(cmds)@.push(Command::InsertMarker { entity, marker: ic })
                } else {
                    old(cmds)@
                }
            }),
    {
        let ic = match self.intents.map.get(&intent_type) {
            Some(c) => *c,
            None => 0,
        };
        let marker_new = self.handler.acquire(entity, ic);
        if marker_new {
            cmds.push(Command::InsertMarker { entity, marker: ic });
        }
        EntityHandle::make(entity, ic)
    }

    /// Duplicate a handle: one more counted reference on both tokens.
    pub fn clone_handle(&mut self, h: &EntityHandle) -> (h2: EntityHandle)
        requires
            can_clone(old(self)@.handler, h@.0, h@.1),
        ensures
            h2@ == h@,
            final(self)@.intents == old(self)@.intents,
            final(self)@.handler.entity_refs == old(self)@.handler.entity_refs.insert(
                h@.0,
                (old(self)@.handler.entity_refs[h@.0] + 1) as u64,
            ),
            final(self)@.handler.intent_refs == old(self)@.handler.intent_refs.insert(
                intent_key(h@.0, h@.1),
                (old(self)@.handler.intent_refs[intent_key(h@.0, h@.1)] + 1) as u64,
            ),
            final(self)@.handler.entity_events == old(self)@.handler.entity_events,
            final(self)@.handler.intent_events == old(self)@.handler.intent_events,
    {
        let e = h.entity();
        let i = h.intent_component();
        self.handler.clone_counts(e, i);
        EntityHandle::make(e, i)
    }

    /// Release a handle: both strong counts go down by one, and a count that
    /// reaches zero queues its drop notification for the next reconciliation.
    pub fn release(&mut self, h: EntityHandle)
        requires
            can_release(old(self)@.handler, h@.0, h@.1),
        ensures
            final(self)@.handler == release_view(old(self)@.handler, h@.0, h@.1),
            final(self)@.intents == old(self)@.intents,
    {
        let e = h.entity();
        let i = h.intent_component();
        self.handler.release(e, i);
    }

    /// One reconciliation cycle over the pending drop notifications (see
    /// [`execute_view`]): intent drops first, then entity drops, each
    /// committed only if its claim is still stale.
    pub fn execute(&mut self, cmds: &mut CommandQueue)
        ensures
            ({
                let (hv, out) = execute_view(old(self)@.handler, old(cmds)@);
                final(self)@.handler == hv && final(cmds)@ == out && final(self)@.intents == old(
                    self,
                )@.intents
            }),
    {
        self.handler.execute(cmds);
    }
}

} // verus!

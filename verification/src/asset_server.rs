//! Identity-keyed deduplication of managed entities.
//!
//! A registry maps an identity key to the unique entity standing for it, so
//! asking twice for the same key shares the entity (and its reference counts)
//! instead of spawning a duplicate.  Entries are never pruned, even after the
//! entity despawns: never-prune is this registry's policy, and the liveness
//! of what an entry points at is re-established by the handle counts, not by
//! the map.

use vstd::prelude::*;
use std::collections::HashMap;
use crate::commands::Command;
use crate::commands::CommandQueue;
use crate::handler::bump;
use crate::handler::can_acquire;
use crate::handler::can_clone;
use crate::handler::can_release;
use crate::handler::intent_key;
use crate::handler::needs_marker;
use crate::handler::release_view;
use crate::handles::EntityAssetHandle;
use crate::handles::EntityHandle;
use crate::server::EntityServer;
use crate::world::World;
use crate::world::WorldView;
use crate::world::empty_record;

verus! {

broadcast use vstd::std_specs::hash::group_hash_axioms;

/// Map from identity key to the unique entity registered for it, plus the
/// identity marker component its entities are tagged with.
pub struct EntityRegistry {
    id_comp: u64,
    map: HashMap<u64, usize>,
}

/// Mathematical image of an identity registry.
pub struct RegistryView {
    pub id_comp: u64,
    pub map: Map<u64, usize>,
}

impl View for EntityRegistry {
    type V = RegistryView;

    closed spec fn view(&self) -> RegistryView {
        RegistryView { id_comp: self.id_comp, map: self.map@ }
    }
}

/// Registry entries point at entities the substrate has handed out, and no
/// two keys share an entity.
pub open spec fn registry_inv(rv: RegistryView, wv: WorldView) -> bool {
    &&& forall|k: u64| #[trigger] rv.map.contains_key(k) ==> rv.map[k] < wv.records.len()
    &&& forall|k1: u64, k2: u64|
        rv.map.contains_key(k1) && rv.map.contains_key(k2) && k1 != k2 ==> rv.map[k1] != rv.map[k2]
}

/// What becomes of a registry entry whose entity has despawned: keep it (the
/// identity stays process-lifetime-unique and later requests share the dead
/// entity), or treat the key as free again so the next request spawns and
/// registers a fresh entity.
#[derive(Clone, Copy, Debug, PartialEq, Eq, Structural)]
pub enum PrunePolicy {
    /// Entries are never removed, even after the entity despawns.
    NeverPrune,
    /// An entry whose entity despawned no longer dedups: the next request
    /// under its key replaces it with a fresh entity.
    PruneOnDespawn,
}

/// Issues identity-deduplicated handles: a registry of its own on top of the
/// shared [`EntityServer`].
pub struct EntityAssetServer {
    registry: EntityRegistry,
    policy: PrunePolicy,
}

impl View for EntityAssetServer {
    type V = RegistryView;

    closed spec fn view(&self) -> RegistryView {
        self.registry@
    }
}

impl EntityAssetServer {
    /// The registry's stale-entry policy.
    pub closed spec fn policy_spec(&self) -> PrunePolicy {
        self.policy
    }

    /// Whether a lookup hit still dedups under this server's policy: always,
    /// unless stale entries are pruned and the entity has despawned.
    pub open spec fn shares_entry(&self, wv: crate::world::WorldView, e: usize) -> bool {
        self.policy_spec() is NeverPrune || wv.is_alive(e)
    }
}

impl EntityAssetServer {
    /// Register an identity key type: allocates the marker component that tags
    /// every entity this registry spawns.  Entries are kept forever.
    pub fn new(world: &mut World) -> (s: EntityAssetServer)
        requires
            old(world)@.next_comp < u64::MAX,
        ensures
            s@.id_comp == old(world)@.next_comp,
            s@.map == Map::<u64, usize>::empty(),
            s.policy_spec() is NeverPrune,
            final(world)@.next_comp == old(world)@.next_comp + 1,
            final(world)@.records == old(world)@.records,
    {
        EntityAssetServer::with_policy(world, PrunePolicy::NeverPrune)
    }

    /// Register an identity key type with an explicit stale-entry policy.
    pub fn with_policy(world: &mut World, policy: PrunePolicy) -> (s: EntityAssetServer)
        requires
            old(world)@.next_comp < u64::MAX,
        ensures
            s@.id_comp == old(world)@.next_comp,
            s@.map == Map::<u64, usize>::empty(),
            s.policy_spec() == policy,
            final(world)@.next_comp == old(world)@.next_comp + 1,
            final(world)@.records == old(world)@.records,
    {
        let id_comp = world.register_component();
        EntityAssetServer { registry: EntityRegistry { id_comp, map: HashMap::new() }, policy }
    }

    /// The marker component that tags this registry's entities.
    pub fn id_component(&self) -> (c: u64)
        ensures
            c == self@.id_comp,
    {
        self.registry.id_comp
    }

    /// Look up the entity registered for a key, if any.
    pub fn lookup(&self, id: u64) -> (r: Option<usize>)
        ensures
            r == if self@.map.contains_key(id) {
                Some(self@.map[id])
            } else {
                None::<usize>
            },
    {
        match self.registry.map.get(&id) {
            Some(e) => Some(*e),
            None => None,
        }
    }

    /// Hand out a handle for the entity registered under `id`, spawning and
    /// registering a fresh tagged entity when the key is new — or, under the
    /// prune-on-despawn policy, when the registered entity has despawned.
    /// While an entry dedups, calls with its key share one entity; distinct
    /// keys never share one.
    pub fn get_asset(
        &mut self,
        server: &mut EntityServer,
        world: &mut World,
        cmds: &mut CommandQueue,
        id: u64,
        intent_type: u64,
    ) -> (h: EntityAssetHandle)
        requires
            old(server)@.intents.contains_key(intent_type),
            old(world)@.records.len() < usize::MAX,
            old(self)@.map.contains_key(id) && old(self).shares_entry(
                old(world)@,
                old(self)@.map[id],
            ) ==> can_acquire(
                old(server)@.handler,
                old(self)@.map[id],
                old(server)@.intents[intent_type],
            ),
        ensures
            final(self)@.id_comp == old(self)@.id_comp,
            final(self).policy_spec() == old(self).policy_spec(),
            final(server)@.intents == old(server)@.intents,
            final(server)@.handler.entity_events == old(server)@.handler.entity_events,
            final(server)@.handler.intent_events == old(server)@.handler.intent_events,
            h@.1 == old(server)@.intents[intent_type],
            old(self)@.map.contains_key(id) && old(self).shares_entry(
                old(world)@,
                old(self)@.map[id],
            ) ==> ({
                let e = old(self)@.map[id];
                let ic = old(server)@.intents[intent_type];
                let k = intent_key(e, ic);
                &&& h@.0 == e
                &&& final(self)@.map == old(self)@.map
                &&& final(world)@.records == old(world)@.records
                &&& final(world)@.next_comp == old(world)@.next_comp
                &&& final(server)@.handler.entity_refs == bump(
                    old(server)@.handler.entity_refs,
                    e,
                )
                &&& final(server)@.handler.intent_refs == bump(old(server)@.handler.intent_refs, k)
                &&& final(cmds)@ == if needs_marker(old(server)@.handler.intent_refs, k) {
                    old(cmds)@.push(Command::InsertMarker { entity: e, marker: ic })
                } else {
                    old(cmds)@
                }
            }),
            !(old(self)@.map.contains_key(id) && old(self).shares_entry(
                old(world)@,
                old(self)@.map[id],
            )) ==> ({
                let e = old(world)@.records.len() as usize;
                let ic = old(server)@.intents[intent_type];
                &&& h@.0 == e
                &&& final(self)@.map == old(self)@.map.insert(id, e)
                &&& final(world)@.records == old(world)@.records.push(empty_record())
                &&& final(world)@.next_comp == old(world)@.next_comp
                &&& final(server)@.handler.entity_refs == old(server)@.handler.entity_refs.insert(
                    e,
                    1,
                )
                &&& final(server)@.handler.intent_refs == old(server)@.handler.intent_refs.insert(
                    intent_key(e, ic),
                    1,
                )
                &&& final(cmds)@ == old(cmds)@.push(
                    Command::Spawn { entity: e, intent: ic, id_marker: Some(old(self)@.id_comp) },
                )
            }),
            registry_inv(old(self)@, old(world)@) ==> registry_inv(final(self)@, final(world)@),
    {
        let probe: Option<usize> = match self.registry.map.get(&id) {
            Some(e) => Some(*e),
            None => None,
        };
        let shared: Option<usize> = match probe {
            Some(e) => match self.policy {
                PrunePolicy::NeverPrune => Some(e),
                PrunePolicy::PruneOnDespawn => if world.is_alive(e) {
                    Some(e)
                } else {
                    None
                },
            },
            None => None,
        };
        match shared {
            Some(e) => {
                let h = server.to_managed(cmds, e, intent_type);
                EntityAssetHandle::upcast(h)
            },
            None => {
                let idc = self.registry.id_comp;
                let bundle: Vec<(u64, i64)> = Vec::new();
                let h = server.spawn_inner(world, cmds, intent_type, Some(idc), &bundle);
                let e = h.entity();
                self.registry.map.insert(id, e);
                proof {
                    assert(crate::server::bundle_cmds(e, bundle@) =~= Seq::<Command>::empty());
                    assert(cmds@ =~= old(cmds)@.push(
                        Command::Spawn {
                            entity: e,
                            intent: old(server)@.intents[intent_type],
                            id_marker: Some(old(self)@.id_comp),
                        },
                    ));
                }
                EntityAssetHandle::upcast(h)
            },
        }
    }
}

impl EntityAssetHandle {
    /// Duplicate this handle as a plain (untyped) handle: one more counted
    /// reference on both tokens.
    pub fn to_untyped(&self, server: &mut EntityServer) -> (h: EntityHandle)
        requires
            can_clone(old(server)@.handler, self@.0, self@.1),
        ensures
            h@ == self@,
            final(server)@.intents == old(server)@.intents,
            final(server)@.handler.entity_refs == old(server)@.handler.entity_refs.insert(
                self@.0,
                (old(server)@.handler.entity_refs[self@.0] + 1) as u64,
            ),
            final(server)@.handler.intent_refs == old(server)@.handler.intent_refs.insert(
                intent_key(self@.0, self@.1),
                (old(server)@.handler.intent_refs[intent_key(self@.0, self@.1)] + 1) as u64,
            ),
            final(server)@.handler.entity_events == old(server)@.handler.entity_events,
            final(server)@.handler.intent_events == old(server)@.handler.intent_events,
    {
        let e = self.entity();
        let i = self.intent_component();
        let plain = EntityHandle::make(e, i);
        let h = server.clone_handle(&plain);
        h
    }
}

impl EntityServer {
    /// Release an identity-typed handle, exactly as [`EntityServer::release`]
    /// releases a plain one.
    pub fn release_asset(&mut self, h: EntityAssetHandle)
        requires
            can_release(old(self)@.handler, h@.0, h@.1),
        ensures
            final(self)@.handler == release_view(old(self)@.handler, h@.0, h@.1),
            final(self)@.intents == old(self)@.intents,
    {
        let e = h.entity();
        let i = h.intent_component();
        let plain = EntityHandle::make(e, i);
        self.release(plain);
    }
}

} // verus!

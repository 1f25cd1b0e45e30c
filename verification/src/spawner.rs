//! Spawner abstraction for game content.
//!
//! A spawner turns parameters into a freshly spawned entity; users implement
//! it for their bundle factories so spawning logic can be handed around as a
//! value.  The substrate's rule is preserved: a spawner reserves the entity
//! and queues its structural creation, applied at the next flush.

use vstd::prelude::*;
use crate::commands::Command;
use crate::commands::CommandQueue;
use crate::world::World;
use crate::world::empty_record;

verus! {

/// Something that can spawn an entity from parameters, through the deferred
/// command queue.
pub trait Spawner {
    /// Reserve a fresh entity, queue its creation from `params`, and return
    /// its identifier.
    fn spawn(&self, world: &mut World, cmds: &mut CommandQueue, params: i64) -> (e: usize)
        requires
            old(world)@.records.len() < usize::MAX,
        ensures
            e == old(world)@.records.len(),
            final(world)@.records == old(world)@.records.push(empty_record()),
            final(world)@.next_comp == old(world)@.next_comp,
    ;
}

/// A spawner built from a bundle recipe: one marker plus one data component
/// whose value is the spawn parameter.
pub struct BundleSpawner {
    pub marker: u64,
    pub param_comp: u64,
}

impl Spawner for BundleSpawner {
    fn spawn(&self, world: &mut World, cmds: &mut CommandQueue, params: i64) -> (e: usize)
        ensures
            final(cmds)@ == old(cmds)@.push(
                Command::Spawn { entity: e, intent: self.marker, id_marker: None },
            ).push(Command::InsertComp { entity: e, comp: self.param_comp, value: params }),
    {
        let e = world.reserve_entity();
        cmds.push(Command::Spawn { entity: e, intent: self.marker, id_marker: None });
        cmds.push(Command::InsertComp { entity: e, comp: self.param_comp, value: params });
        e
    }
}

/// Conversion into a spawner, so a bundle recipe can be passed where spawning
/// behaviour is expected.
pub trait IntoSpawner {
    /// The spawner this value converts into.
    type Target: Spawner;

    /// Convert into a spawner.
    fn into_spawner(self) -> Self::Target;
}

impl IntoSpawner for BundleSpawner {
    type Target = BundleSpawner;

    fn into_spawner(self) -> (s: BundleSpawner)
        ensures
            s == self,
    {
        self
    }
}

} // verus!

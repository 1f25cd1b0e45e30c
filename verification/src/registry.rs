//! Component-value registry.
//!
//! Keeps the unique entity carrying each value of one key component, kept up
//! to date by the substrate's insert/remove hooks, and a query that resolves a
//! key value to the entity's data, erring instead of panicking on misses.
//! Two entities claiming the same key value is a wiring error and fatal by
//! design; the contracts exclude it.

use vstd::prelude::*;
use std::collections::HashMap;
use crate::commands::Command;
use crate::query::QueryEntityError;
use crate::world::World;
use crate::world::WorldView;
use crate::world::apply_view;

verus! {

broadcast use vstd::std_specs::hash::group_hash_axioms;

/// Map from the value of one key component to the entity carrying it.
pub struct Registry {
    key_comp: u64,
    map: HashMap<i64, usize>,
}

/// Mathematical image of a component-value registry.
pub struct ComponentRegistryView {
    pub key_comp: u64,
    pub map: Map<i64, usize>,
}

impl View for Registry {
    type V = ComponentRegistryView;

    closed spec fn view(&self) -> ComponentRegistryView {
        ComponentRegistryView { key_comp: self.key_comp, map: self.map@ }
    }
}

impl Registry {
    /// A registry tracking the key component `key_comp`.
    pub fn new(key_comp: u64) -> (r: Registry)
        ensures
            r@.key_comp == key_comp,
            r@.map == Map::<i64, usize>::empty(),
    {
        Registry { key_comp, map: HashMap::new() }
    }

    /// The entity registered for a key value, if any.
    pub fn get(&self, key: i64) -> (r: Option<usize>)
        ensures
            r == if self@.map.contains_key(key) {
                Some(self@.map[key])
            } else {
                None::<usize>
            },
    {
        match self.map.get(&key) {
            Some(e) => Some(*e),
            None => None,
        }
    }

    /// Hook run after the key component was inserted on `e`: registers the
    /// entity under the component's value.  A second entity claiming an
    /// already registered value is a wiring error, excluded by contract.
    pub fn on_component_inserted(&mut self, world: &World, e: usize)
        requires
            (match world@.comp(e, old(self)@.key_comp) {
                Some(v) => !old(self)@.map.contains_key(v),
                None => true,
            }),
        ensures
            final(self)@.key_comp == old(self)@.key_comp,
            final(self)@.map == match world@.comp(e, old(self)@.key_comp) {
                Some(v) => old(self)@.map.insert(v, e),
                None => old(self)@.map,
            },
    {
        match world.get_comp(e, self.key_comp) {
            Some(v) => {
                self.map.insert(v, e);
            },
            None => {},
        }
    }

    /// Hook run when the key component is removed from `e` (the value is
    /// still readable at hook time): forgets the entry for that value.
    pub fn on_component_removed(&mut self, world: &World, e: usize)
        ensures
            final(self)@.key_comp == old(self)@.key_comp,
            final(self)@.map == match world@.comp(e, old(self)@.key_comp) {
                Some(v) => old(self)@.map.remove(v),
                None => old(self)@.map,
            },
    {
        match world.get_comp(e, self.key_comp) {
            Some(v) => {
                self.map.remove(&v);
            },
            None => {},
        }
    }
}

/// Why a registry query failed.
#[derive(Clone, Copy, Debug, PartialEq, Eq, Structural)]
pub enum RegistryQueryError {
    /// No entity is registered for the given key value.
    NoSuchEntity,
    /// An entity is registered but the underlying query missed.
    QueryEntityError(QueryEntityError),
}

/// A query resolving a key-component value to one data component of the
/// entity registered for it, restricted to entities still carrying the key.
pub struct RegistryQuery {
    pub key_comp: u64,
    pub data_comp: u64,
}

impl RegistryQuery {
    /// A query over the registry of `key_comp`, reading `data_comp`.
    pub fn new(key_comp: u64, data_comp: u64) -> (q: RegistryQuery)
        ensures
            q.key_comp == key_comp,
            q.data_comp == data_comp,
    {
        RegistryQuery { key_comp, data_comp }
    }

    /// What resolving `key` returns.
    pub open spec fn get_spec(self, reg: ComponentRegistryView, wv: WorldView, key: i64) -> Result<
        i64,
        RegistryQueryError,
    > {
        if !reg.map.contains_key(key) {
            Err(RegistryQueryError::NoSuchEntity)
        } else {
            let e = reg.map[key];
            if !wv.is_alive(e) {
                Err(RegistryQueryError::QueryEntityError(QueryEntityError::NoSuchEntity))
            } else if wv.comp(e, self.key_comp) is None {
                Err(RegistryQueryError::QueryEntityError(QueryEntityError::QueryDoesNotMatch))
            } else {
                match wv.comp(e, self.data_comp) {
                    Some(v) => Ok(v),
                    None => Err(
                        RegistryQueryError::QueryEntityError(QueryEntityError::QueryDoesNotMatch),
                    ),
                }
            }
        }
    }

    /// Read the data component of the entity registered for `key`.
    pub fn get(&self, registry: &Registry, world: &World, key: i64) -> (r: Result<
        i64,
        RegistryQueryError,
    >)
        requires
            registry@.key_comp == self.key_comp,
        ensures
            r == self.get_spec(registry@, world@, key),
    {
        match registry.get(key) {
            None => Err(RegistryQueryError::NoSuchEntity),
            Some(e) => {
                if !world.is_alive(e) {
                    Err(RegistryQueryError::QueryEntityError(QueryEntityError::NoSuchEntity))
                } else if world.get_comp(e, self.key_comp).is_none() {
                    Err(RegistryQueryError::QueryEntityError(QueryEntityError::QueryDoesNotMatch))
                } else {
                    match world.get_comp(e, self.data_comp) {
                        Some(v) => Ok(v),
                        None => Err(
                            RegistryQueryError::QueryEntityError(
                                QueryEntityError::QueryDoesNotMatch,
                            ),
                        ),
                    }
                }
            },
        }
    }

    /// Write the data component of the entity registered for `key`, returning
    /// the previous value.  The write succeeds exactly when a read would.
    pub fn get_mut(&self, registry: &Registry, world: &mut World, key: i64, value: i64) -> (r:
        Result<i64, RegistryQueryError>)
        requires
            registry@.key_comp == self.key_comp,
        ensures
            r == self.get_spec(registry@, old(world)@, key),
            final(world)@.next_comp == old(world)@.next_comp,
            r is Ok ==> final(world)@.records == apply_view(
                old(world)@.records,
                Command::InsertComp {
                    entity: registry@.map[key],
                    comp: self.data_comp,
                    value,
                },
            ) && final(world)@.comp(registry@.map[key], self.data_comp) == Some(value),
            r is Err ==> final(world)@.records == old(world)@.records,
    {
        let r = self.get(registry, world, key);
        if r.is_ok() {
            match registry.get(key) {
                Some(e) => {
                    world.insert_comp(e, self.data_comp, value);
                },
                None => {},
            }
        }
        r
    }
}

} // verus!

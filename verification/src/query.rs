//! Typed query layer over identity-tagged entities.
//!
//! An [`EntityAssetQuery`] is a filtered view of the substrate restricted to
//! live entities carrying one identity marker, reading and writing one data
//! component.  Lookups translate a handle into the underlying access and
//! surface misses as result values instead of panicking.

use vstd::prelude::*;
use crate::commands::Command;
use crate::handles::EntityAssetHandle;
use crate::world::World;
use crate::world::WorldView;
use crate::world::apply_view;

verus! {

/// Why a typed query lookup failed.
#[derive(Clone, Copy, Debug, PartialEq, Eq, Structural)]
pub enum QueryEntityError {
    /// The entity does not exist (never spawned, or despawned).
    NoSuchEntity,
    /// The entity is alive but does not match the query: it lacks the
    /// identity marker or the data component.
    QueryDoesNotMatch,
}

/// A query over live entities tagged with the identity marker `id_comp`,
/// accessing the data component `data_comp`.
pub struct EntityAssetQuery {
    pub id_comp: u64,
    pub data_comp: u64,
}

impl EntityAssetQuery {
    /// A query for the given identity marker and data component.
    pub fn new(id_comp: u64, data_comp: u64) -> (q: EntityAssetQuery)
        ensures
            q.id_comp == id_comp,
            q.data_comp == data_comp,
    {
        EntityAssetQuery { id_comp, data_comp }
    }

    /// The entity matches: alive, tagged with the identity marker, and
    /// carrying the data component.
    pub open spec fn matches(self, wv: WorldView, e: usize) -> bool {
        wv.has_marker(e, self.id_comp) && wv.comp(e, self.data_comp) is Some
    }

    /// What a lookup of `e` returns.
    pub open spec fn get_spec(self, wv: WorldView, e: usize) -> Result<i64, QueryEntityError> {
        if !wv.is_alive(e) {
            Err(QueryEntityError::NoSuchEntity)
        } else if !wv.has_marker(e, self.id_comp) {
            Err(QueryEntityError::QueryDoesNotMatch)
        } else {
            match wv.comp(e, self.data_comp) {
                Some(v) => Ok(v),
                None => Err(QueryEntityError::QueryDoesNotMatch),
            }
        }
    }

    /// Read the data component of the entity a handle refers to.
    pub fn get(&self, world: &World, handle: &EntityAssetHandle) -> (r: Result<
        i64,
        QueryEntityError,
    >)
        ensures
            r == self.get_spec(world@, handle@.0),
    {
        self.get_at(world, handle.entity())
    }

    /// Read the data component of an entity by identifier.
    pub fn get_at(&self, world: &World, e: usize) -> (r: Result<i64, QueryEntityError>)
        ensures
            r == self.get_spec(world@, e),
    {
        if !world.is_alive(e) {
            Err(QueryEntityError::NoSuchEntity)
        } else if !world.has_marker(e, self.id_comp) {
            Err(QueryEntityError::QueryDoesNotMatch)
        } else {
            match world.get_comp(e, self.data_comp) {
                Some(v) => Ok(v),
                None => Err(QueryEntityError::QueryDoesNotMatch),
            }
        }
    }

    /// Write the data component through the query, returning the previous
    /// value.  The write succeeds exactly when a read would, and is then
    /// visible both to direct substrate lookups and to subsequent reads
    /// through the query.
    pub fn get_mut(&self, world: &mut World, handle: &EntityAssetHandle, value: i64) -> (r: Result<
        i64,
        QueryEntityError,
    >)
        ensures
            r == self.get_spec(old(world)@, handle@.0),
            final(world)@.next_comp == old(world)@.next_comp,
            r is Ok ==> final(world)@.records == apply_view(
                old(world)@.records,
                Command::InsertComp { entity: handle@.0, comp: self.data_comp, value },
            ),
            r is Ok ==> final(world)@.comp(handle@.0, self.data_comp) == Some(value)
                && self.get_spec(final(world)@, handle@.0) == Ok::<i64, QueryEntityError>(value),
            r is Err ==> final(world)@.records == old(world)@.records,
    {
        let e = handle.entity();
        let r = self.get_at(world, e);
        if r.is_ok() {
            world.insert_comp(e, self.data_comp, value);
        }
        r
    }

    /// The matching entities below `n`, in increasing order, with their
    /// component values.
    pub open spec fn iter_spec_upto(self, wv: WorldView, n: int) -> Seq<(usize, i64)>
        decreases n,
    {
        if n <= 0 {
            Seq::empty()
        } else {
            let prev = self.iter_spec_upto(wv, n - 1);
            let e = (n - 1) as usize;
            match wv.comp(e, self.data_comp) {
                Some(v) => if wv.has_marker(e, self.id_comp) {
                    prev.push((e, v))
                } else {
                    prev
                },
                None => prev,
            }
        }
    }

    /// Every matching entity with its component value, in entity order.
    pub open spec fn iter_spec(self, wv: WorldView) -> Seq<(usize, i64)> {
        self.iter_spec_upto(wv, wv.records.len() as int)
    }

    /// Snapshot of every matching (entity, value) pair, in entity order.
    pub fn iter(&self, world: &World) -> (out: Vec<(usize, i64)>)
        ensures
            out@ == self.iter_spec(world@),
    {
        let n = world.num_entities();
        let mut out: Vec<(usize, i64)> = Vec::new();
        let mut e: usize = 0;
        while e < n
            invariant
                e <= n,
                n == world@.records.len(),
                out@ == self.iter_spec_upto(world@, e as int),
            decreases n - e,
        {
            if world.has_marker(e, self.id_comp) {
                match world.get_comp(e, self.data_comp) {
                    Some(v) => {
                        out.push((e, v));
                    },
                    None => {},
                }
            }
            e = e + 1;
        }
        out
    }

    /// Update every matching entity's component value through `f`, in entity
    /// order.  Non-matching entities are untouched; matching ones keep their
    /// liveness and markers and carry a value permitted by `f`'s contract.
    pub fn iter_mut<F: Fn(i64) -> i64>(&self, world: &mut World, f: &F)
        requires
            forall|v: i64| #[trigger] call_requires(*f, (v,)),
        ensures
            final(world)@.records.len() == old(world)@.records.len(),
            final(world)@.next_comp == old(world)@.next_comp,
            forall|e: usize|
                e < old(world)@.records.len() && !self.matches(old(world)@, e)
                    ==> final(world)@.records[e as int] == old(world)@.records[e as int],
            forall|e: usize| #[trigger]
                self.matches(old(world)@, e) ==> ({
                    let r0 = old(world)@.records[e as int];
                    let r1 = final(world)@.records[e as int];
                    &&& r1.alive == r0.alive
                    &&& r1.markers == r0.markers
                    &&& exists|nv: i64|
                        #[trigger] call_ensures(*f, (r0.comps[self.data_comp],), nv)
                            && r1.comps == r0.comps.insert(self.data_comp, nv)
                }),
    {
        let n = world.num_entities();
        let mut e: usize = 0;
        while e < n
            invariant
                e <= n,
                n == old(world)@.records.len(),
                world@.records.len() == n,
                world@.next_comp == old(world)@.next_comp,
                forall|v: i64| #[trigger] call_requires(*f, (v,)),
                forall|j: usize|
                    j < n && !self.matches(old(world)@, j)
                        ==> world@.records[j as int] == old(world)@.records[j as int],
                forall|j: usize|
                    e <= j < n && #[trigger] self.matches(old(world)@, j)
                        ==> world@.records[j as int] == old(world)@.records[j as int],
                forall|j: usize|
                    j < e && #[trigger] self.matches(old(world)@, j) ==> ({
                        let r0 = old(world)@.records[j as int];
                        let r1 = world@.records[j as int];
                        &&& r1.alive == r0.alive
                        &&& r1.markers == r0.markers
                        &&& exists|nv: i64|
                            #[trigger] call_ensures(*f, (r0.comps[self.data_comp],), nv)
                                && r1.comps == r0.comps.insert(self.data_comp, nv)
                    }),
            decreases n - e,
        {
            if world.has_marker(e, self.id_comp) {
                match world.get_comp(e, self.data_comp) {
                    Some(v) => {
                        let nv = f(v);
                        world.insert_comp(e, self.data_comp, nv);
                    },
                    None => {},
                }
            }
            e = e + 1;
        }
    }
}

} // verus!

//! A model of the host substrate: entity slots with attached markers and
//! components, mutated structurally only by applying deferred commands.
//!
//! Entities are opaque stable identifiers (slot indexes, never reused);
//! markers are zero-data flags keyed by a component id; data components carry
//! one plain value each.  Despawning frees everything attached to the slot but
//! keeps the identifier burnt, as the host substrate does.

use vstd::prelude::*;
use std::collections::HashMap;
use std::collections::HashSet;
use crate::commands::Command;
use crate::commands::CommandQueue;

verus! {

broadcast use vstd::std_specs::hash::group_hash_axioms;

/// Storage attached to one entity slot.
pub struct EntityRecord {
    pub alive: bool,
    pub markers: HashSet<u64>,
    pub comps: HashMap<u64, i64>,
}

/// Mathematical image of one entity slot.
pub struct RecordView {
    pub alive: bool,
    pub markers: Set<u64>,
    pub comps: Map<u64, i64>,
}

impl View for EntityRecord {
    type V = RecordView;

    open spec fn view(&self) -> RecordView {
        RecordView { alive: self.alive, markers: self.markers@, comps: self.comps@ }
    }
}

/// The slot a reservation creates: present but not yet alive.
pub open spec fn empty_record() -> RecordView {
    RecordView { alive: false, markers: Set::empty(), comps: Map::empty() }
}

/// What applying one deferred command does to the substrate's slots.
/// A command aimed at a missing or dead entity is a no-op, and `Spawn` only
/// acts on a reserved (not yet alive) slot.
pub open spec fn apply_view(rs: Seq<RecordView>, c: Command) -> Seq<RecordView> {
    match c {
        Command::Spawn { entity, intent, id_marker } => {
            if entity < rs.len() && !rs[entity as int].alive {
                rs.update(
                    entity as int,
                    RecordView {
                        alive: true,
                        markers: match id_marker {
                            Some(m) => Set::empty().insert(intent).insert(m),
                            None => Set::empty().insert(intent),
                        },
                        comps: Map::empty(),
                    },
                )
            } else {
                rs
            }
        },
        Command::InsertMarker { entity, marker } => {
            if entity < rs.len() && rs[entity as int].alive {
                rs.update(
                    entity as int,
                    RecordView { markers: rs[entity as int].markers.insert(marker), ..rs[entity as int] },
                )
            } else {
                rs
            }
        },
        Command::RemoveMarker { entity, marker } => {
            if entity < rs.len() && rs[entity as int].alive {
                rs.update(
                    entity as int,
                    RecordView { markers: rs[entity as int].markers.remove(marker), ..rs[entity as int] },
                )
            } else {
                rs
            }
        },
        Command::InsertComp { entity, comp, value } => {
            if entity < rs.len() && rs[entity as int].alive {
                rs.update(
                    entity as int,
                    RecordView { comps: rs[entity as int].comps.insert(comp, value), ..rs[entity as int] },
                )
            } else {
                rs
            }
        },
        Command::Despawn { entity } => {
            if entity < rs.len() && rs[entity as int].alive {
                rs.update(entity as int, empty_record())
            } else {
                rs
            }
        },
    }
}

/// Applying a whole queue of commands, in order.
pub open spec fn flush_view(rs: Seq<RecordView>, cmds: Seq<Command>) -> Seq<RecordView>
    decreases cmds.len(),
{
    if cmds.len() == 0 {
        rs
    } else {
        flush_view(apply_view(rs, cmds[0]), cmds.drop_first())
    }
}

/// The substrate: a growing vector of entity slots and a component-id
/// allocator.  Slots are never removed, so entity identifiers stay stable.
pub struct World {
    records: Vec<EntityRecord>,
    next_comp: u64,
}

/// Mathematical image of the substrate.
pub struct WorldView {
    pub records: Seq<RecordView>,
    pub next_comp: u64,
}

impl View for World {
    type V = WorldView;

    closed spec fn view(&self) -> WorldView {
        WorldView {
            records: Seq::new(self.records@.len(), |i: int| self.records@[i]@),
            next_comp: self.next_comp,
        }
    }
}

impl WorldView {
    /// The entity exists and has been spawned and not despawned.
    pub open spec fn is_alive(self, e: usize) -> bool {
        e < self.records.len() && self.records[e as int].alive
    }

    /// The marker component `m` is attached to a live entity `e`.
    pub open spec fn has_marker(self, e: usize, m: u64) -> bool {
        self.is_alive(e) && self.records[e as int].markers.contains(m)
    }

    /// The value of data component `c` on a live entity `e`, if any.
    pub open spec fn comp(self, e: usize, c: u64) -> Option<i64> {
        if self.is_alive(e) && self.records[e as int].comps.contains_key(c) {
            Some(self.records[e as int].comps[c])
        } else {
            None
        }
    }
}

impl World {
    /// An empty substrate.
    pub fn new() -> (w: World)
        ensures
            w@.records == Seq::<RecordView>::empty(),
            w@.next_comp == 0,
    {
        let w = World { records: Vec::new(), next_comp: 0 };
        proof {
            assert(w@.records =~= Seq::<RecordView>::empty());
        }
        w
    }

    /// Allocate a fresh component id (for markers or data components).
    pub fn register_component(&mut self) -> (c: u64)
        requires
            old(self)@.next_comp < u64::MAX,
        ensures
            c == old(self)@.next_comp,
            final(self)@.next_comp == old(self)@.next_comp + 1,
            final(self)@.records == old(self)@.records,
    {
        let c = self.next_comp;
        self.next_comp = self.next_comp + 1;
        proof {
            assert(self@.records =~= old(self)@.records);
        }
        c
    }

    /// Reserve a fresh entity identifier; the slot exists but is not alive
    /// until a `Spawn` command for it is flushed.
    pub fn reserve_entity(&mut self) -> (e: usize)
        requires
            old(self)@.records.len() < usize::MAX,
        ensures
            e == old(self)@.records.len(),
            final(self)@.records == old(self)@.records.push(empty_record()),
            final(self)@.next_comp == old(self)@.next_comp,
    {
        let e = self.records.len();
        self.records.push(EntityRecord { alive: false, markers: HashSet::new(), comps: HashMap::new() });
        proof {
            assert(self@.records =~= old(self)@.records.push(empty_record()));
        }
        e
    }

    /// How many entity identifiers have been handed out.
    pub fn num_entities(&self) -> (n: usize)
        ensures
            n == self@.records.len(),
    {
        self.records.len()
    }

    /// Whether `e` is a live entity.
    pub fn is_alive(&self, e: usize) -> (r: bool)
        ensures
            r == self@.is_alive(e),
    {
        e < self.records.len() && self.records[e].alive
    }

    /// Whether the marker component `m` is attached to a live `e`.
    pub fn has_marker(&self, e: usize, m: u64) -> (r: bool)
        ensures
            r == self@.has_marker(e, m),
    {
        e < self.records.len() && self.records[e].alive && self.records[e].markers.contains(&m)
    }

    /// Read the data component `c` of `e`.
    pub fn get_comp(&self, e: usize, c: u64) -> (r: Option<i64>)
        ensures
            r == self@.comp(e, c),
    {
        if e < self.records.len() && self.records[e].alive {
            match self.records[e].comps.get(&c) {
                Some(v) => Some(*v),
                None => None,
            }
        } else {
            None
        }
    }

    /// Set the data component `c` of `e` directly (the substrate allows
    /// non-structural component writes outside flush points).  Returns whether
    /// the entity was alive, in which case the write took effect.
    pub fn insert_comp(&mut self, e: usize, c: u64, v: i64) -> (ok: bool)
        ensures
            final(self)@.records == apply_view(
                old(self)@.records,
                Command::InsertComp { entity: e, comp: c, value: v },
            ),
            final(self)@.next_comp == old(self)@.next_comp,
            ok == old(self)@.is_alive(e),
    {
        let ghost cmd = Command::InsertComp { entity: e, comp: c, value: v };
        if e < self.records.len() && self.records[e].alive {
            let rec = &mut self.records[e];
            rec.comps.insert(c, v);
            proof {
                assert(self@.records =~= apply_view(old(self)@.records, cmd));
            }
            true
        } else {
            proof {
                assert(self@.records =~= apply_view(old(self)@.records, cmd));
            }
            false
        }
    }

    /// Apply one deferred command.
    pub fn apply(&mut self, c: Command)
        ensures
            final(self)@.records == apply_view(old(self)@.records, c),
            final(self)@.next_comp == old(self)@.next_comp,
    {
        match c {
            Command::Spawn { entity, intent, id_marker } => {
                if entity < self.records.len() && !self.records[entity].alive {
                    let rec = &mut self.records[entity];
                    rec.alive = true;
                    rec.markers = HashSet::new();
                    rec.markers.insert(intent);
                    if let Some(m) = id_marker {
                        rec.markers.insert(m);
                    }
                    rec.comps = HashMap::new();
                }
            },
            Command::InsertMarker { entity, marker } => {
                if entity < self.records.len() && self.records[entity].alive {
                    let rec = &mut self.records[entity];
                    rec.markers.insert(marker);
                }
            },
            Command::RemoveMarker { entity, marker } => {
                if entity < self.records.len() && self.records[entity].alive {
                    let rec = &mut self.records[entity];
                    rec.markers.remove(&marker);
                }
            },
            Command::InsertComp { entity, comp, value } => {
                if entity < self.records.len() && self.records[entity].alive {
                    let rec = &mut self.records[entity];
                    rec.comps.insert(comp, value);
                }
            },
            Command::Despawn { entity } => {
                if entity < self.records.len() && self.records[entity].alive {
                    let rec = &mut self.records[entity];
                    rec.alive = false;
                    rec.markers = HashSet::new();
                    rec.comps = HashMap::new();
                }
            },
        }
        proof {
            assert(self@.records =~= apply_view(old(self)@.records, c));
        }
    }

    /// Flush point: apply every pending command in order and empty the queue.
    pub fn flush(&mut self, q: &mut CommandQueue)
        ensures
            final(self)@.records == flush_view(old(self)@.records, old(q)@),
            final(self)@.next_comp == old(self)@.next_comp,
            final(q)@ == Seq::<Command>::empty(),
    {
        let n = q.len();
        let mut i: usize = 0;
        proof {
            assert(old(q)@.skip(0) =~= old(q)@);
        }
        while i < n
            invariant
                i <= n,
                n == old(q)@.len(),
                q@ == old(q)@,
                self@.next_comp == old(self)@.next_comp,
                flush_view(self@.records, old(q)@.skip(i as int)) == flush_view(
                    old(self)@.records,
                    old(q)@,
                ),
            decreases n - i,
        {
            proof {
                assert(old(q)@.skip(i as int)[0] == old(q)@[i as int]);
                assert(old(q)@.skip(i as int).drop_first() =~= old(q)@.skip(i as int + 1));
            }
            let c = q.get(i);
            self.apply(c);
            i = i + 1;
        }
        proof {
            assert(old(q)@.skip(n as int) =~= Seq::<Command>::empty());
        }
        q.clear();
    }
}

} // verus!

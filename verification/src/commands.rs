//! The substrate's deferred-mutation queue.
//!
//! Structural changes (spawning, despawning, adding or removing markers and
//! components) are never applied directly: they are recorded here and applied
//! in order at a flush point, preserving the substrate's invariant that its
//! shape only changes at defined moments of a cycle.

use vstd::prelude::*;

verus! {

/// One deferred structural mutation.
#[derive(Clone, Copy, Debug)]
pub enum Command {
    /// Bring a reserved entity slot to life, carrying one intent marker and,
    /// for identity-keyed entities, an identity marker.
    Spawn { entity: usize, intent: u64, id_marker: Option<u64> },
    /// Attach the marker component `marker` to `entity`.
    InsertMarker { entity: usize, marker: u64 },
    /// Detach the marker component `marker` from `entity`.
    RemoveMarker { entity: usize, marker: u64 },
    /// Set the data component `comp` of `entity` to `value`.
    InsertComp { entity: usize, comp: u64, value: i64 },
    /// Remove `entity` and everything attached to it.
    Despawn { entity: usize },
}

/// A FIFO queue of deferred mutations, drained by [`crate::world::World::flush`].
pub struct CommandQueue {
    cmds: Vec<Command>,
}

impl View for CommandQueue {
    type V = Seq<Command>;

    closed spec fn view(&self) -> Seq<Command> {
        self.cmds@
    }
}

impl CommandQueue {
    /// An empty queue.
    pub fn new() -> (q: CommandQueue)
        ensures
            q@ == Seq::<Command>::empty(),
    {
        CommandQueue { cmds: Vec::new() }
    }

    /// Append one command; it will be applied after everything already queued.
    pub fn push(&mut self, c: Command)
        ensures
            final(self)@ == old(self)@.push(c),
    {
        self.cmds.push(c);
    }

    /// How many commands are pending.
    pub fn len(&self) -> (n: usize)
        ensures
            n == self@.len(),
    {
        self.cmds.len()
    }

    /// Read the `i`-th pending command without consuming it.
    pub fn get(&self, i: usize) -> (c: Command)
        requires
            i < self@.len(),
        ensures
            c == self@[i as int],
    {
        self.cmds[i]
    }

    /// Forget every pending command.
    pub fn clear(&mut self)
        ensures
            final(self)@ == Seq::<Command>::empty(),
    {
        self.cmds.clear();
    }
}

} // verus!

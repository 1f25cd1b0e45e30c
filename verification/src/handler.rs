//! Process-wide reference-count state and the deferred-drop reconciler.
//!
//! The handler keeps one strong-count table per kind of claim — per entity,
//! and per (entity, intent) pair — together with the two drop-notification
//! channels.  A table entry with count zero is a *stale* entry: the last
//! reference was released and a notification is in flight, but the entry is
//! kept so that a re-acquire before reconciliation can revive it.  The
//! reconciler drains the channels once per cycle and commits a removal only
//! when the entry is still stale at that moment.

use vstd::prelude::*;
use std::collections::HashMap;
use crate::commands::Command;
use crate::commands::CommandQueue;
use crate::drop_queue::EntityDropQueue;
use crate::drop_queue::IntentDropQueue;
use crate::drop_queue::entity_drop_contents;
use crate::drop_queue::intent_drop_contents;

verus! {

broadcast use vstd::std_specs::hash::group_hash_axioms;

/// Packs an entity id and an intent component id into one table key.
pub open spec fn intent_key(entity: usize, intent: u64) -> u128 {
    (((entity as u64) as u128) << 64) | (intent as u128)
}

/// Distinct (entity, intent) pairs pack to distinct keys.
pub proof fn lemma_intent_key_injective(e1: usize, i1: u64, e2: usize, i2: u64)
    ensures
        intent_key(e1, i1) == intent_key(e2, i2) ==> e1 == e2 && i1 == i2,
{
    let a1 = e1 as u64;
    let a2 = e2 as u64;
    assert((((a1 as u128) << 64) | (i1 as u128)) == (((a2 as u128) << 64) | (i2 as u128)) ==> a1
        == a2 && i1 == i2) by (bit_vector);
}

fn intent_key_exec(entity: usize, intent: u64) -> (k: u128)
    ensures
        k == intent_key(entity, intent),
{
    (((entity as u64) as u128) << 64) | (intent as u128)
}

/// Mathematical image of the handler: the two count tables and the two
/// queues of pending drop notifications.
pub struct HandlerView {
    pub entity_refs: Map<usize, u64>,
    pub intent_refs: Map<u128, u64>,
    pub entity_events: Seq<usize>,
    pub intent_events: Seq<(usize, u64)>,
}

/// Incrementing the strong count behind a claim: a live entry is bumped, a
/// missing or stale entry is (re)created with count one.
pub open spec fn bump<K>(m: Map<K, u64>, k: K) -> Map<K, u64> {
    if m.contains_key(k) && m[k] > 0 {
        m.insert(k, (m[k] + 1) as u64)
    } else {
        m.insert(k, 1)
    }
}

/// Acquiring a claim must queue a marker insertion exactly when no live
/// strong count exists for it yet.
pub open spec fn needs_marker<K>(m: Map<K, u64>, k: K) -> bool {
    !(m.contains_key(k) && m[k] > 0)
}

/// Releasing one reference: both counts go down by one, and each count that
/// reaches zero queues its drop notification.  The stale entries stay in the
/// tables until reconciliation.
pub open spec fn release_view(hv: HandlerView, e: usize, i: u64) -> HandlerView {
    let k = intent_key(e, i);
    let ec = (hv.entity_refs[e] - 1) as u64;
    let ic = (hv.intent_refs[k] - 1) as u64;
    HandlerView {
        entity_refs: hv.entity_refs.insert(e, ec),
        intent_refs: hv.intent_refs.insert(k, ic),
        entity_events: if ec == 0 {
            hv.entity_events.push(e)
        } else {
            hv.entity_events
        },
        intent_events: if ic == 0 {
            hv.intent_events.push((e, i))
        } else {
            hv.intent_events
        },
    }
}

/// A handle for (e, i) exists, so both strong counts are at least one.
pub open spec fn can_release(hv: HandlerView, e: usize, i: u64) -> bool {
    &&& hv.entity_refs.contains_key(e) && hv.entity_refs[e] >= 1
    &&& hv.intent_refs.contains_key(intent_key(e, i)) && hv.intent_refs[intent_key(e, i)] >= 1
}

/// Taking a reference on (e, i) will not saturate a live count.
pub open spec fn can_acquire(hv: HandlerView, e: usize, i: u64) -> bool {
    &&& hv.entity_refs.contains_key(e) && hv.entity_refs[e] > 0 ==> hv.entity_refs[e] < u64::MAX
    &&& hv.intent_refs.contains_key(intent_key(e, i)) && hv.intent_refs[intent_key(e, i)] > 0
        ==> hv.intent_refs[intent_key(e, i)] < u64::MAX
}

/// A handle for (e, i) exists and neither count is saturated.
pub open spec fn can_clone(hv: HandlerView, e: usize, i: u64) -> bool {
    can_release(hv, e, i) && hv.entity_refs[e] < u64::MAX && hv.intent_refs[intent_key(e, i)]
        < u64::MAX
}

/// Draining the intent drop notifications, oldest first.  A notification whose
/// table entry is still stale (count zero) commits: the entry is erased and a
/// marker removal is queued.  A notification whose claim was re-acquired
/// (count above zero) or whose entry is already gone (duplicate) is skipped.
pub open spec fn drain_intents(
    refs: Map<u128, u64>,
    events: Seq<(usize, u64)>,
    cmds: Seq<Command>,
) -> (Map<u128, u64>, Seq<Command>)
    decreases events.len(),
{
    if events.len() == 0 {
        (refs, cmds)
    } else {
        let e = events[0].0;
        let i = events[0].1;
        let k = intent_key(e, i);
        if refs.contains_key(k) && refs[k] == 0 {
            drain_intents(
                refs.remove(k),
                events.drop_first(),
                cmds.push(Command::RemoveMarker { entity: e, marker: i }),
            )
        } else {
            drain_intents(refs, events.drop_first(), cmds)
        }
    }
}

/// Draining the entity drop notifications, with the same stale-entry check;
/// a committed one queues the despawn of the entity.
pub open spec fn drain_entities(
    refs: Map<usize, u64>,
    events: Seq<usize>,
    cmds: Seq<Command>,
) -> (Map<usize, u64>, Seq<Command>)
    decreases events.len(),
{
    if events.len() == 0 {
        (refs, cmds)
    } else {
        let e = events[0];
        if refs.contains_key(e) && refs[e] == 0 {
            drain_entities(
                refs.remove(e),
                events.drop_first(),
                cmds.push(Command::Despawn { entity: e }),
            )
        } else {
            drain_entities(refs, events.drop_first(), cmds)
        }
    }
}

/// One reconciliation cycle: intent notifications are fully processed before
/// entity notifications, so marker removals for an entity are queued ahead of
/// its despawn.  Returns the handler state and the command queue afterwards.
pub open spec fn execute_view(hv: HandlerView, cmds: Seq<Command>) -> (HandlerView, Seq<Command>) {
    let (ir, c1) = drain_intents(hv.intent_refs, hv.intent_events, cmds);
    let (er, c2) = drain_entities(hv.entity_refs, hv.entity_events, c1);
    (
        HandlerView {
            entity_refs: er,
            intent_refs: ir,
            entity_events: Seq::empty(),
            intent_events: Seq::empty(),
        },
        c2,
    )
}

/// Process-wide state: strong-count tables and drop channels.
pub struct EntityHandler {
    entity_refs: HashMap<usize, u64>,
    intent_refs: HashMap<u128, u64>,
    entity_drops: EntityDropQueue,
    intent_drops: IntentDropQueue,
}

impl View for EntityHandler {
    type V = HandlerView;

    closed spec fn view(&self) -> HandlerView {
        HandlerView {
            entity_refs: self.entity_refs@,
            intent_refs: self.intent_refs@,
            entity_events: entity_drop_contents(&self.entity_drops),
            intent_events: intent_drop_contents(&self.intent_drops),
        }
    }
}

impl EntityHandler {
    /// Fresh handler: no claims tracked, no notifications pending.
    pub fn new() -> (h: EntityHandler)
        ensures
            h@.entity_refs == Map::<usize, u64>::empty(),
            h@.intent_refs == Map::<u128, u64>::empty(),
            h@.entity_events == Seq::<usize>::empty(),
            h@.intent_events == Seq::<(usize, u64)>::empty(),
    {
        EntityHandler {
            entity_refs: HashMap::new(),
            intent_refs: HashMap::new(),
            entity_drops: EntityDropQueue::new(),
            intent_drops: IntentDropQueue::new(),
        }
    }

    /// Record the two fresh strong tokens a spawn creates, each with count one.
    pub fn note_spawn(&mut self, e: usize, i: u64)
        ensures
            final(self)@.entity_refs == old(self)@.entity_refs.insert(e, 1),
            final(self)@.intent_refs == old(self)@.intent_refs.insert(intent_key(e, i), 1),
            final(self)@.entity_events == old(self)@.entity_events,
            final(self)@.intent_events == old(self)@.intent_events,
    {
        let k = intent_key_exec(e, i);
        self.entity_refs.insert(e, 1);
        self.intent_refs.insert(k, 1);
    }

    /// Take one more reference on (e, i): live counts are bumped, missing or
    /// stale ones restart at one.  Returns whether no live intent claim
    /// existed, in which case the caller must queue the marker insertion.
    pub fn acquire(&mut self, e: usize, i: u64) -> (marker_new: bool)
        requires
            can_acquire(old(self)@, e, i),
        ensures
            final(self)@.entity_refs == bump(old(self)@.entity_refs, e),
            final(self)@.intent_refs == bump(old(self)@.intent_refs, intent_key(e, i)),
            final(self)@.entity_events == old(self)@.entity_events,
            final(self)@.intent_events == old(self)@.intent_events,
            marker_new == needs_marker(old(self)@.intent_refs, intent_key(e, i)),
    {
        let k = intent_key_exec(e, i);
        let ec: u64 = match self.entity_refs.get(&e) {
            Some(c) => *c,
            None => 0,
        };
        if ec > 0 {
            self.entity_refs.insert(e, ec + 1);
        } else {
            self.entity_refs.insert(e, 1);
        }
        let ic: u64 = match self.intent_refs.get(&k) {
            Some(c) => *c,
            None => 0,
        };
        if ic > 0 {
            self.intent_refs.insert(k, ic + 1);
            false
        } else {
            self.intent_refs.insert(k, 1);
            true
        }
    }

    /// Release one reference on (e, i); a count that reaches zero sends its
    /// drop notification, to be re-validated at the next reconciliation.
    pub fn release(&mut self, e: usize, i: u64)
        requires
            can_release(old(self)@, e, i),
        ensures
            final(self)@ == release_view(old(self)@, e, i),
    {
        let k = intent_key_exec(e, i);
        let ic: u64 = match self.intent_refs.get(&k) {
            Some(c) => *c,
            None => 0,
        };
        let ic_new = ic - 1;
        self.intent_refs.insert(k, ic_new);
        if ic_new == 0 {
            self.intent_drops.send(e, i);
        }
        let ec: u64 = match self.entity_refs.get(&e) {
            Some(c) => *c,
            None => 0,
        };
        let ec_new = ec - 1;
        self.entity_refs.insert(e, ec_new);
        if ec_new == 0 {
            self.entity_drops.send(e);
        }
    }

    /// Take one more reference on both tokens of an existing handle.
    pub fn clone_counts(&mut self, e: usize, i: u64)
        requires
            can_clone(old(self)@, e, i),
        ensures
            final(self)@.entity_refs == old(self)@.entity_refs.insert(
                e,
                (old(self)@.entity_refs[e] + 1) as u64,
            ),
            final(self)@.intent_refs == old(self)@.intent_refs.insert(
                intent_key(e, i),
                (old(self)@.intent_refs[intent_key(e, i)] + 1) as u64,
            ),
            final(self)@.entity_events == old(self)@.entity_events,
            final(self)@.intent_events == old(self)@.intent_events,
    {
        let k = intent_key_exec(e, i);
        let ec: u64 = match self.entity_refs.get(&e) {
            Some(c) => *c,
            None => 0,
        };
        self.entity_refs.insert(e, ec + 1);
        let ic: u64 = match self.intent_refs.get(&k) {
            Some(c) => *c,
            None => 0,
        };
        self.intent_refs.insert(k, ic + 1);
    }

    /// One reconciliation cycle: drain every pending intent notification, then
    /// every pending entity notification, committing only the still-stale ones
    /// as deferred marker removals and despawns.
    pub fn execute(&mut self, cmds: &mut CommandQueue)
        ensures
            ({
                let (hv, out) = execute_view(old(self)@, old(cmds)@);
                final(self)@ == hv && final(cmds)@ == out
            }),
    {
        loop
            invariant
                self@.entity_refs == old(self)@.entity_refs,
                self@.entity_events == old(self)@.entity_events,
                drain_intents(self@.intent_refs, self@.intent_events, cmds@) == drain_intents(
                    old(self)@.intent_refs,
                    old(self)@.intent_events,
                    old(cmds)@,
                ),
            ensures
                self@.entity_refs == old(self)@.entity_refs,
                self@.entity_events == old(self)@.entity_events,
                self@.intent_events.len() == 0,
                drain_intents(self@.intent_refs, self@.intent_events, cmds@) == drain_intents(
                    old(self)@.intent_refs,
                    old(self)@.intent_events,
                    old(cmds)@,
                ),
            decreases self@.intent_events.len(),
        {
            let ev = self.intent_drops.try_recv();
            match ev {
                None => { break ; },
                Some((e, i)) => {
                    let k = intent_key_exec(e, i);
                    let mut stale = false;
                    match self.intent_refs.get(&k) {
                        Some(c) => {
                            if *c == 0 {
                                stale = true;
                            }
                        },
                        None => {},
                    }
                    if stale {
                        cmds.push(Command::RemoveMarker { entity: e, marker: i });
                        self.intent_refs.remove(&k);
                    }
                },
            }
        }
        loop
            invariant
                self@.intent_events.len() == 0,
                ({
                    let (ir, c1) = drain_intents(
                        old(self)@.intent_refs,
                        old(self)@.intent_events,
                        old(cmds)@,
                    );
                    self@.intent_refs == ir && drain_entities(
                        self@.entity_refs,
                        self@.entity_events,
                        cmds@,
                    ) == drain_entities(old(self)@.entity_refs, old(self)@.entity_events, c1)
                }),
            ensures
                self@.intent_events.len() == 0,
                self@.entity_events.len() == 0,
                ({
                    let (ir, c1) = drain_intents(
                        old(self)@.intent_refs,
                        old(self)@.intent_events,
                        old(cmds)@,
                    );
                    self@.intent_refs == ir && drain_entities(
                        self@.entity_refs,
                        self@.entity_events,
                        cmds@,
                    ) == drain_entities(old(self)@.entity_refs, old(self)@.entity_events, c1)
                }),
            decreases self@.entity_events.len(),
        {
            let ev = self.entity_drops.try_recv();
            match ev {
                None => { break ; },
                Some(e) => {
                    let mut stale = false;
                    match self.entity_refs.get(&e) {
                        Some(c) => {
                            if *c == 0 {
                                stale = true;
                            }
                        },
                        None => {},
                    }
                    if stale {
                        cmds.push(Command::Despawn { entity: e });
                        self.entity_refs.remove(&e);
                    }
                },
            }
        }
        proof {
            assert(self@.intent_events =~= Seq::<(usize, u64)>::empty());
            assert(self@.entity_events =~= Seq::<usize>::empty());
            assert(drain_entities(self@.entity_refs, self@.entity_events, cmds@) == (
                self@.entity_refs,
                cmds@,
            ));
        }
    }
}

} // verus!

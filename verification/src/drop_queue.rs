//! Drop-notification channels.
//!
//! Releasing the last reference to an entity or to an (entity, intent) pair
//! must be decoupled from the moment the cleanup is committed: the notification
//! is queued on a channel here and consumed once per cycle by the reconciler.
//! The channel buffer is held behind trusted wrappers; its contents are named
//! by an uninterpreted sequence that the wrappers' contracts speak about.

use vstd::prelude::*;
use crossbeam_channel::Receiver;
use crossbeam_channel::Sender;
use crossbeam_channel::unbounded;

verus! {

/// FIFO buffer of entity drop notifications, owned end to end by the handler.
#[verifier::external_body]
pub struct EntityDropQueue {
    tx: Sender<usize>,
    rx: Receiver<usize>,
}

/// The entity drop notifications currently queued, oldest first.
pub uninterp spec fn entity_drop_contents(q: &EntityDropQueue) -> Seq<usize>;

/// FIFO buffer of (entity, intent component) drop notifications.
#[verifier::external_body]
pub struct IntentDropQueue {
    tx: Sender<(usize, u64)>,
    rx: Receiver<(usize, u64)>,
}

/// The intent drop notifications currently queued, oldest first.
pub uninterp spec fn intent_drop_contents(q: &IntentDropQueue) -> Seq<(usize, u64)>;

impl EntityDropQueue {
    /// Relies on crossbeam_channel::unbounded: a fresh channel holds no messages.
    #[verifier::external_body]
    pub fn new() -> (q: EntityDropQueue)
        ensures
            entity_drop_contents(&q) == Seq::<usize>::empty(),
    {
        let (tx, rx) = unbounded();
        EntityDropQueue { tx, rx }
    }

    /// Relies on crossbeam_channel::Sender::send: an unbounded channel accepts
    /// every message and delivers one producer's messages in the order sent;
    /// both ends live in this struct, so this producer is the only one.
    #[verifier::external_body]
    pub fn send(&mut self, e: usize)
        ensures
            entity_drop_contents(final(self)) == entity_drop_contents(old(self)).push(e),
    {
        let _ = self.tx.send(e);
    }

    /// Relies on crossbeam_channel::Receiver::try_recv: pops the oldest queued
    /// message, or returns nothing when the channel is empty.
    #[verifier::external_body]
    pub fn try_recv(&mut self) -> (r: Option<usize>)
        ensures
            match r {
                Some(e) => entity_drop_contents(old(self)).len() > 0 && e == entity_drop_contents(
                    old(self),
                )[0] && entity_drop_contents(final(self)) == entity_drop_contents(
                    old(self),
                ).drop_first(),
                None => entity_drop_contents(old(self)).len() == 0 && entity_drop_contents(
                    final(self),
                ) == entity_drop_contents(old(self)),
            },
    {
        self.rx.try_recv().ok()
    }
}

impl IntentDropQueue {
    /// Relies on crossbeam_channel::unbounded: a fresh channel holds no messages.
    #[verifier::external_body]
    pub fn new() -> (q: IntentDropQueue)
        ensures
            intent_drop_contents(&q) == Seq::<(usize, u64)>::empty(),
    {
        let (tx, rx) = unbounded();
        IntentDropQueue { tx, rx }
    }

    /// Relies on crossbeam_channel::Sender::send: an unbounded channel accepts
    /// every message and delivers one producer's messages in the order sent;
    /// both ends live in this struct, so this producer is the only one.
    #[verifier::external_body]
    pub fn send(&mut self, e: usize, intent: u64)
        ensures
            intent_drop_contents(final(self)) == intent_drop_contents(old(self)).push((e, intent)),
    {
        let _ = self.tx.send((e, intent));
    }

    /// Relies on crossbeam_channel::Receiver::try_recv: pops the oldest queued
    /// message, or returns nothing when the channel is empty.
    #[verifier::external_body]
    pub fn try_recv(&mut self) -> (r: Option<(usize, u64)>)
        ensures
            match r {
                Some(ev) => intent_drop_contents(old(self)).len() > 0 && ev == intent_drop_contents(
                    old(self),
                )[0] && intent_drop_contents(final(self)) == intent_drop_contents(
                    old(self),
                ).drop_first(),
                None => intent_drop_contents(old(self)).len() == 0 && intent_drop_contents(
                    final(self),
                ) == intent_drop_contents(old(self)),
            },
    {
        self.rx.try_recv().ok()
    }
}

} // verus!

//! Async-to-sync execution bridge.
//!
//! An asynchronous task may ask for a function to run synchronously inside
//! the next cycle.  Per (input, output) type pair — identified here by a pair
//! id — a request and a response channel exist; creating them is itself
//! requested through a registration channel drained once per cycle, and the
//! asynchronous caller waits for that registration to be acknowledged before
//! sending its first request.  That handshake is what guarantees a request is
//! never sent before the synchronous side that will serve it exists.
//!
//! Messages travel as (pair id, system id, payload) triples; the channel
//! buffers are held behind trusted wrappers whose contracts speak about an
//! uninterpreted content sequence.

use vstd::prelude::*;
use std::collections::HashMap;
use async_channel::Receiver;
use async_channel::Sender;
use async_channel::unbounded;

verus! {

broadcast use vstd::std_specs::hash::group_hash_axioms;

/// FIFO buffer of bridge messages, owned end to end by the bridge state.
#[verifier::external_body]
pub struct MsgQueue {
    tx: Sender<(u64, u64, i64)>,
    rx: Receiver<(u64, u64, i64)>,
}

/// The messages currently queued, oldest first.
pub uninterp spec fn msg_queue_contents(q: &MsgQueue) -> Seq<(u64, u64, i64)>;

impl MsgQueue {
    /// Relies on async_channel::unbounded: a fresh channel holds no messages.
    #[verifier::external_body]
    pub fn new() -> (q: MsgQueue)
        ensures
            msg_queue_contents(&q) == Seq::<(u64, u64, i64)>::empty(),
    {
        let (tx, rx) = unbounded();
        MsgQueue { tx, rx }
    }

    /// Relies on async_channel::Sender::send_blocking: an unbounded channel
    /// accepts every message without blocking and delivers one producer's
    /// messages in the order sent; both ends live in this struct, so this
    /// producer is the only one.
    #[verifier::external_body]
    pub fn send(&mut self, msg: (u64, u64, i64))
        ensures
            msg_queue_contents(final(self)) == msg_queue_contents(old(self)).push(msg),
    {
        let _ = self.tx.send_blocking(msg);
    }

    /// Relies on async_channel::Receiver::try_recv: pops the oldest queued
    /// message, or returns nothing when the channel is empty.
    #[verifier::external_body]
    pub fn try_recv(&mut self) -> (r: Option<(u64, u64, i64)>)
        ensures
            match r {
                Some(msg) => msg_queue_contents(old(self)).len() > 0 && msg == msg_queue_contents(
                    old(self),
                )[0] && msg_queue_contents(final(self)) == msg_queue_contents(
                    old(self),
                ).drop_first(),
                None => msg_queue_contents(old(self)).len() == 0 && msg_queue_contents(final(self))
                    == msg_queue_contents(old(self)),
            },
    {
        self.rx.try_recv().ok()
    }
}

/// Registering every queued (pair, system) in order, first registration of a
/// pair winning.
pub open spec fn register_all(m: Map<u64, u64>, evs: Seq<(u64, u64, i64)>) -> Map<u64, u64>
    decreases evs.len(),
{
    if evs.len() == 0 {
        m
    } else {
        let m2 = if m.contains_key(evs[0].0) {
            m
        } else {
            m.insert(evs[0].0, evs[0].1)
        };
        register_all(m2, evs.drop_first())
    }
}

/// Registration only ever adds pairs.
pub proof fn lemma_register_all_monotone(m: Map<u64, u64>, evs: Seq<(u64, u64, i64)>, pair: u64)
    requires
        m.contains_key(pair),
    ensures
        register_all(m, evs).contains_key(pair),
    decreases evs.len(),
{
    if evs.len() > 0 {
        let m2 = if m.contains_key(evs[0].0) {
            m
        } else {
            m.insert(evs[0].0, evs[0].1)
        };
        lemma_register_all_monotone(m2, evs.drop_first(), pair);
    }
}

/// The handshake guarantee: once a registration drain has run, every pair
/// whose registration was queued is registered, so the acknowledged caller
/// can submit its request to an existing counterpart.
pub proof fn lemma_registration_handshake(m: Map<u64, u64>, evs: Seq<(u64, u64, i64)>, j: int)
    requires
        0 <= j < evs.len(),
    ensures
        register_all(m, evs).contains_key(evs[j].0),
    decreases evs.len(),
{
    let m2 = if m.contains_key(evs[0].0) {
        m
    } else {
        m.insert(evs[0].0, evs[0].1)
    };
    if j == 0 {
        lemma_register_all_monotone(m2, evs.drop_first(), evs[0].0);
    } else {
        lemma_registration_handshake(m2, evs.drop_first(), j - 1);
    }
}

/// Mathematical image of the bridge.
pub struct ServiceView {
    pub registration: Seq<(u64, u64, i64)>,
    pub requests: Seq<(u64, u64, i64)>,
    pub responses: Seq<(u64, u64, i64)>,
    pub registered: Map<u64, u64>,
}

/// The bridge between asynchronous callers and the synchronous cycle.  A
/// caller's `exec_sync` is the sequence: queue a registration, wait until the
/// cycle has drained registrations and the pair is acknowledged, submit the
/// request, await the response.  The cycle side drains registrations, takes
/// requests, runs each system (the host's work) and posts the responses.
pub struct AsyncService {
    registration: MsgQueue,
    requests: MsgQueue,
    responses: MsgQueue,
    registered: HashMap<u64, u64>,
}

impl View for AsyncService {
    type V = ServiceView;

    closed spec fn view(&self) -> ServiceView {
        ServiceView {
            registration: msg_queue_contents(&self.registration),
            requests: msg_queue_contents(&self.requests),
            responses: msg_queue_contents(&self.responses),
            registered: self.registered@,
        }
    }
}

impl AsyncService {
    /// A fresh bridge: no channels set up, nothing in flight.
    pub fn new() -> (s: AsyncService)
        ensures
            s@.registration == Seq::<(u64, u64, i64)>::empty(),
            s@.requests == Seq::<(u64, u64, i64)>::empty(),
            s@.responses == Seq::<(u64, u64, i64)>::empty(),
            s@.registered == Map::<u64, u64>::empty(),
    {
        AsyncService {
            registration: MsgQueue::new(),
            requests: MsgQueue::new(),
            responses: MsgQueue::new(),
            registered: HashMap::new(),
        }
    }

    /// Asynchronous side: ask the cycle to set up the channel pair and the
    /// processor for `pair`, served by `system`.
    pub fn request_registration(&mut self, pair: u64, system: u64)
        ensures
            final(self)@.registration == old(self)@.registration.push((pair, system, 0)),
            final(self)@.requests == old(self)@.requests,
            final(self)@.responses == old(self)@.responses,
            final(self)@.registered == old(self)@.registered,
    {
        self.registration.send((pair, system, 0));
    }

    /// Whether `pair` has been acknowledged: its processor exists and its
    /// requests will be served.
    pub fn is_registered(&self, pair: u64) -> (r: bool)
        ensures
            r == self@.registered.contains_key(pair),
    {
        self.registered.contains_key(&pair)
    }

    /// Synchronous side, once per cycle: drain the registration channel and
    /// set up every pair that is not set up yet (a pair's first registration
    /// wins, later ones reuse it).
    pub fn drain_registrations(&mut self)
        ensures
            final(self)@.registered == register_all(old(self)@.registered, old(self)@.registration),
            final(self)@.registration == Seq::<(u64, u64, i64)>::empty(),
            final(self)@.requests == old(self)@.requests,
            final(self)@.responses == old(self)@.responses,
    {
        loop
            invariant
                self@.requests == old(self)@.requests,
                self@.responses == old(self)@.responses,
                register_all(self@.registered, self@.registration) == register_all(
                    old(self)@.registered,
                    old(self)@.registration,
                ),
            ensures
                self@.requests == old(self)@.requests,
                self@.responses == old(self)@.responses,
                self@.registration.len() == 0,
                register_all(self@.registered, self@.registration) == register_all(
                    old(self)@.registered,
                    old(self)@.registration,
                ),
            decreases self@.registration.len(),
        {
            let msg = self.registration.try_recv();
            match msg {
                None => { break ; },
                Some((pair, system, _)) => {
                    if !self.registered.contains_key(&pair) {
                        self.registered.insert(pair, system);
                    }
                },
            }
        }
        proof {
            assert(self@.registration =~= Seq::<(u64, u64, i64)>::empty());
        }
    }

    /// Asynchronous side, after the acknowledgement: submit a request for a
    /// registered pair.  The registration handshake is what makes the
    /// precondition satisfiable before the first request is ever sent.
    pub fn submit(&mut self, pair: u64, system: u64, input: i64)
        requires
            old(self)@.registered.contains_key(pair),
        ensures
            final(self)@.requests == old(self)@.requests.push((pair, system, input)),
            final(self)@.registration == old(self)@.registration,
            final(self)@.responses == old(self)@.responses,
            final(self)@.registered == old(self)@.registered,
    {
        self.requests.send((pair, system, input));
    }

    /// Synchronous side: take the oldest pending request, to run its system.
    pub fn take_request(&mut self) -> (r: Option<(u64, u64, i64)>)
        ensures
            match r {
                Some(msg) => old(self)@.requests.len() > 0 && msg == old(self)@.requests[0]
                    && final(self)@.requests == old(self)@.requests.drop_first(),
                None => old(self)@.requests.len() == 0 && final(self)@.requests == old(
                    self,
                )@.requests,
            },
            final(self)@.registration == old(self)@.registration,
            final(self)@.responses == old(self)@.responses,
            final(self)@.registered == old(self)@.registered,
    {
        self.requests.try_recv()
    }

    /// Synchronous side: post the output a system produced for `pair`.
    pub fn respond(&mut self, pair: u64, output: i64)
        ensures
            final(self)@.responses == old(self)@.responses.push((pair, 0, output)),
            final(self)@.registration == old(self)@.registration,
            final(self)@.requests == old(self)@.requests,
            final(self)@.registered == old(self)@.registered,
    {
        self.responses.send((pair, 0, output));
    }

    /// Asynchronous side: the await on the response channel, as one poll.
    pub fn try_take_response(&mut self) -> (r: Option<(u64, i64)>)
        ensures
            match r {
                Some(msg) => old(self)@.responses.len() > 0 && msg == (
                    old(self)@.responses[0].0,
                    old(self)@.responses[0].2,
                ) && final(self)@.responses == old(self)@.responses.drop_first(),
                None => old(self)@.responses.len() == 0 && final(self)@.responses == old(
                    self,
                )@.responses,
            },
            final(self)@.registration == old(self)@.registration,
            final(self)@.requests == old(self)@.requests,
            final(self)@.registered == old(self)@.registered,
    {
        match self.responses.try_recv() {
            Some((pair, _, output)) => Some((pair, output)),
            None => None,
        }
    }
}

/// Plugin that provides the bridge and schedules its registration drain and
/// request processors once per cycle.
pub struct AsyncServicePlugin;

impl AsyncServicePlugin {
    /// Set up a fresh bridge.
    pub fn build(&self) -> (s: AsyncService)
        ensures
            s@.registration == Seq::<(u64, u64, i64)>::empty(),
            s@.requests == Seq::<(u64, u64, i64)>::empty(),
            s@.responses == Seq::<(u64, u64, i64)>::empty(),
            s@.registered == Map::<u64, u64>::empty(),
    {
        AsyncService::new()
    }
}

} // verus!

//! Lifecycle laws.
//!
//! Each proof function here states one guarantee of the handle system over
//! the mathematical views that the executable contracts are written in:
//! release and reconciliation transitions on [`HandlerView`]s, and deferred
//! commands applied to the substrate's records.

use vstd::prelude::*;
use crate::commands::Command;
use crate::handler::HandlerView;
use crate::handler::bump;
use crate::handler::drain_entities;
use crate::handler::drain_intents;
use crate::handler::execute_view;
use crate::handler::intent_key;
use crate::handler::lemma_intent_key_injective;
use crate::handler::release_view;
use crate::asset_server::RegistryView;
use crate::asset_server::registry_inv;
use crate::world::RecordView;
use crate::world::WorldView;
use crate::world::apply_view;
use crate::world::empty_record;
use crate::world::flush_view;

verus! {

/// Flushing a single command is applying it.
pub proof fn lemma_flush_one(rs: Seq<RecordView>, c: Command)
    ensures
        flush_view(rs, seq![c]) == apply_view(rs, c),
{
    reveal_with_fuel(flush_view, 2);
    assert(seq![c].drop_first() =~= Seq::<Command>::empty());
}

/// Flushing two commands applies them in order.
pub proof fn lemma_flush_two(rs: Seq<RecordView>, c1: Command, c2: Command)
    ensures
        flush_view(rs, seq![c1, c2]) == apply_view(apply_view(rs, c1), c2),
{
    assert(seq![c1, c2].drop_first() =~= seq![c2]);
    lemma_flush_one(apply_view(rs, c1), c2);
}

/// Single-reference despawn: an entity whose only claim is one handle under
/// one intent is despawned — and its tracking erased — by the reconciliation
/// cycle that follows the release of that handle.
pub proof fn lemma_single_reference_despawn(
    hv0: HandlerView,
    rs0: Seq<RecordView>,
    e: usize,
    i: u64,
)
    requires
        hv0.entity_refs.contains_key(e) && hv0.entity_refs[e] == 1,
        hv0.intent_refs.contains_key(intent_key(e, i)) && hv0.intent_refs[intent_key(e, i)] == 1,
        hv0.entity_events == Seq::<usize>::empty(),
        hv0.intent_events == Seq::<(usize, u64)>::empty(),
        e < rs0.len(),
        rs0[e as int].alive,
    ensures
        ({
            let hv1 = release_view(hv0, e, i);
            let (hv2, out) = execute_view(hv1, Seq::<Command>::empty());
            let rs1 = flush_view(rs0, out);
            &&& out == seq![
                Command::RemoveMarker { entity: e, marker: i },
                Command::Despawn { entity: e },
            ]
            &&& !hv2.entity_refs.contains_key(e)
            &&& !hv2.intent_refs.contains_key(intent_key(e, i))
            &&& rs1.len() == rs0.len()
            &&& !rs1[e as int].alive
        }),
{
    reveal_with_fuel(drain_intents, 3);
    reveal_with_fuel(drain_entities, 3);
    let k = intent_key(e, i);
    let hv1 = release_view(hv0, e, i);
    let c0 = Seq::<Command>::empty();
    let rm = Command::RemoveMarker { entity: e, marker: i };
    let dsp = Command::Despawn { entity: e };

    assert(hv1.intent_events =~= seq![(e, i)]);
    assert(hv1.entity_events =~= seq![e]);
    assert(hv1.intent_events.drop_first() =~= Seq::<(usize, u64)>::empty());
    assert(drain_intents(hv1.intent_refs, hv1.intent_events, c0) == (
        hv1.intent_refs.remove(k),
        c0.push(rm),
    ));
    assert(hv1.entity_events.drop_first() =~= Seq::<usize>::empty());
    assert(drain_entities(hv1.entity_refs, hv1.entity_events, c0.push(rm)) == (
        hv1.entity_refs.remove(e),
        c0.push(rm).push(dsp),
    ));
    let (hv2, out) = execute_view(hv1, c0);
    assert(out =~= seq![rm, dsp]);
    lemma_flush_two(rs0, rm, dsp);
    let rs_a = apply_view(rs0, rm);
    assert(rs_a[e as int].alive);
    let rs1 = apply_view(rs_a, dsp);
    assert(rs1[e as int] == empty_record());
}

/// Multi-intent independence: with live claims under two distinct intents,
/// releasing the handle of one intent and reconciling removes only that
/// intent's marker and keeps the entity alive; releasing the other handle and
/// reconciling again then despawns the entity.
pub proof fn lemma_multi_intent_independence(
    hv0: HandlerView,
    rs0: Seq<RecordView>,
    e: usize,
    ia: u64,
    ib: u64,
)
    requires
        ia != ib,
        hv0.entity_refs.contains_key(e) && hv0.entity_refs[e] == 2,
        hv0.intent_refs.contains_key(intent_key(e, ia)) && hv0.intent_refs[intent_key(e, ia)] == 1,
        hv0.intent_refs.contains_key(intent_key(e, ib)) && hv0.intent_refs[intent_key(e, ib)] == 1,
        hv0.entity_events == Seq::<usize>::empty(),
        hv0.intent_events == Seq::<(usize, u64)>::empty(),
        e < rs0.len(),
        rs0[e as int].alive,
        rs0[e as int].markers.contains(ia),
        rs0[e as int].markers.contains(ib),
    ensures
        ({
            let hv1 = release_view(hv0, e, ia);
            let (hv2, out1) = execute_view(hv1, Seq::<Command>::empty());
            let rs1 = flush_view(rs0, out1);
            let hv3 = release_view(hv2, e, ib);
            let (hv4, out2) = execute_view(hv3, Seq::<Command>::empty());
            let rs2 = flush_view(rs1, out2);
            &&& rs1[e as int].alive
            &&& !rs1[e as int].markers.contains(ia)
            &&& rs1[e as int].markers.contains(ib)
            &&& !rs2[e as int].alive
            &&& !hv4.entity_refs.contains_key(e)
            &&& !hv4.intent_refs.contains_key(intent_key(e, ib))
        }),
{
    reveal_with_fuel(drain_intents, 3);
    reveal_with_fuel(drain_entities, 3);
    let ka = intent_key(e, ia);
    let kb = intent_key(e, ib);
    lemma_intent_key_injective(e, ia, e, ib);
    let c0 = Seq::<Command>::empty();
    let rma = Command::RemoveMarker { entity: e, marker: ia };
    let rmb = Command::RemoveMarker { entity: e, marker: ib };
    let dsp = Command::Despawn { entity: e };

    // First cycle: only intent A's count reaches zero.
    let hv1 = release_view(hv0, e, ia);
    assert(hv1.intent_events =~= seq![(e, ia)]);
    assert(hv1.entity_events =~= Seq::<usize>::empty());
    assert(hv1.intent_events.drop_first() =~= Seq::<(usize, u64)>::empty());
    assert(drain_intents(hv1.intent_refs, hv1.intent_events, c0) == (
        hv1.intent_refs.remove(ka),
        c0.push(rma),
    ));
    assert(drain_entities(hv1.entity_refs, hv1.entity_events, c0.push(rma)) == (
        hv1.entity_refs,
        c0.push(rma),
    ));
    let (hv2, out1) = execute_view(hv1, c0);
    assert(out1 =~= seq![rma]);
    lemma_flush_one(rs0, rma);
    let rs1 = flush_view(rs0, out1);
    assert(rs1[e as int].markers == rs0[e as int].markers.remove(ia));

    // Second cycle: intent B's count and the entity count reach zero.
    assert(hv2.entity_refs[e] == 1);
    assert(hv2.intent_refs.contains_key(kb) && hv2.intent_refs[kb] == 1);
    let hv3 = release_view(hv2, e, ib);
    assert(hv3.intent_events =~= seq![(e, ib)]);
    assert(hv3.entity_events =~= seq![e]);
    assert(hv3.intent_events.drop_first() =~= Seq::<(usize, u64)>::empty());
    assert(drain_intents(hv3.intent_refs, hv3.intent_events, c0) == (
        hv3.intent_refs.remove(kb),
        c0.push(rmb),
    ));
    assert(hv3.entity_events.drop_first() =~= Seq::<usize>::empty());
    assert(drain_entities(hv3.entity_refs, hv3.entity_events, c0.push(rmb)) == (
        hv3.entity_refs.remove(e),
        c0.push(rmb).push(dsp),
    ));
    let (hv4, out2) = execute_view(hv3, c0);
    assert(out2 =~= seq![rmb, dsp]);
    lemma_flush_two(rs1, rmb, dsp);
    let rs_b = apply_view(rs1, rmb);
    assert(rs_b[e as int].alive);
    let rs2 = apply_view(rs_b, dsp);
    assert(rs2[e as int] == empty_record());
}

/// Reacquire-before-reconcile race safety: if the last handle for an intent
/// is released and a new handle for the same (entity, intent) pair is
/// acquired before the next reconciliation, the cycle leaves the marker, the
/// entity and the substrate unchanged — even though drop notifications were
/// already enqueued.
pub proof fn lemma_reacquire_before_reconcile(
    hv0: HandlerView,
    rs0: Seq<RecordView>,
    e: usize,
    i: u64,
)
    requires
        hv0.entity_refs.contains_key(e) && 1 <= hv0.entity_refs[e] < u64::MAX,
        hv0.intent_refs.contains_key(intent_key(e, i)) && hv0.intent_refs[intent_key(e, i)] == 1,
        hv0.entity_events == Seq::<usize>::empty(),
        hv0.intent_events == Seq::<(usize, u64)>::empty(),
        e < rs0.len(),
        rs0[e as int].alive,
        rs0[e as int].markers.contains(i),
    ensures
        ({
            let k = intent_key(e, i);
            let hv1 = release_view(hv0, e, i);
            // Reacquiring before reconciliation revives both counts and, the
            // intent claim being stale, queues a (redundant) marker insertion.
            let hv2 = HandlerView {
                entity_refs: bump(hv1.entity_refs, e),
                intent_refs: bump(hv1.intent_refs, k),
                entity_events: hv1.entity_events,
                intent_events: hv1.intent_events,
            };
            let (hv3, out) = execute_view(
                hv2,
                seq![Command::InsertMarker { entity: e, marker: i }],
            );
            let rs1 = flush_view(rs0, out);
            &&& hv3.intent_refs.contains_key(k) && hv3.intent_refs[k] == 1
            &&& hv3.entity_refs.contains_key(e) && hv3.entity_refs[e] == hv0.entity_refs[e]
            &&& rs1 == rs0
        }),
{
    reveal_with_fuel(drain_intents, 3);
    reveal_with_fuel(drain_entities, 3);
    let k = intent_key(e, i);
    let hv1 = release_view(hv0, e, i);
    let hv2 = HandlerView {
        entity_refs: bump(hv1.entity_refs, e),
        intent_refs: bump(hv1.intent_refs, k),
        entity_events: hv1.entity_events,
        intent_events: hv1.intent_events,
    };
    let ins = Command::InsertMarker { entity: e, marker: i };
    let c1 = seq![ins];

    assert(hv2.intent_events =~= seq![(e, i)]);
    assert(hv2.intent_refs[k] == 1);
    assert(hv2.intent_events.drop_first() =~= Seq::<(usize, u64)>::empty());
    assert(drain_intents(hv2.intent_refs, hv2.intent_events, c1) == (hv2.intent_refs, c1));
    if hv0.entity_refs[e] == 1 {
        assert(hv2.entity_events =~= seq![e]);
        assert(hv2.entity_refs[e] == 1);
        assert(hv2.entity_events.drop_first() =~= Seq::<usize>::empty());
        assert(drain_entities(hv2.entity_refs, hv2.entity_events, c1) == (hv2.entity_refs, c1));
    } else {
        assert(hv2.entity_events =~= Seq::<usize>::empty());
        assert(drain_entities(hv2.entity_refs, hv2.entity_events, c1) == (hv2.entity_refs, c1));
        assert(hv2.entity_refs[e] == hv0.entity_refs[e]);
    }
    let (hv3, out) = execute_view(hv2, c1);
    assert(out =~= seq![ins]);
    lemma_flush_one(rs0, ins);
    let rs1 = flush_view(rs0, out);
    assert(rs0[e as int].markers.insert(i) =~= rs0[e as int].markers);
    assert(rs1[e as int] == rs0[e as int]);
    assert(rs1 =~= rs0);
}

/// Reconciliation never removes a live intent claim: an (entity, intent)
/// entry whose strong count is above zero survives the drain unchanged,
/// whatever notifications are pending.
pub proof fn lemma_drain_keeps_live_intents(
    refs: Map<u128, u64>,
    events: Seq<(usize, u64)>,
    cmds: Seq<Command>,
    k: u128,
)
    requires
        refs.contains_key(k),
        refs[k] >= 1,
    ensures
        drain_intents(refs, events, cmds).0.contains_key(k),
        drain_intents(refs, events, cmds).0[k] == refs[k],
    decreases events.len(),
{
    if events.len() > 0 {
        let e = events[0].0;
        let i = events[0].1;
        let k0 = intent_key(e, i);
        if refs.contains_key(k0) && refs[k0] == 0 {
            lemma_drain_keeps_live_intents(
                refs.remove(k0),
                events.drop_first(),
                cmds.push(Command::RemoveMarker { entity: e, marker: i }),
                k,
            );
        } else {
            lemma_drain_keeps_live_intents(refs, events.drop_first(), cmds, k);
        }
    }
}

/// Reconciliation never despawns a live entity: an entity whose strong count
/// is above zero survives the drain unchanged, whatever notifications are
/// pending.
pub proof fn lemma_drain_keeps_live_entities(
    refs: Map<usize, u64>,
    events: Seq<usize>,
    cmds: Seq<Command>,
    e: usize,
)
    requires
        refs.contains_key(e),
        refs[e] >= 1,
    ensures
        drain_entities(refs, events, cmds).0.contains_key(e),
        drain_entities(refs, events, cmds).0[e] == refs[e],
    decreases events.len(),
{
    if events.len() > 0 {
        let e0 = events[0];
        if refs.contains_key(e0) && refs[e0] == 0 {
            lemma_drain_keeps_live_entities(
                refs.remove(e0),
                events.drop_first(),
                cmds.push(Command::Despawn { entity: e0 }),
                e,
            );
        } else {
            lemma_drain_keeps_live_entities(refs, events.drop_first(), cmds, e);
        }
    }
}

/// Identity dedup: under the registry invariant, two keys resolve to the same
/// entity exactly when they are the same key.
pub proof fn lemma_identity_dedup(rv: RegistryView, wv: WorldView, k1: u64, k2: u64)
    requires
        registry_inv(rv, wv),
        rv.map.contains_key(k1),
        rv.map.contains_key(k2),
    ensures
        (rv.map[k1] == rv.map[k2]) <==> (k1 == k2),
{
}

/// Duplicate drop notifications are idempotent: once a stale claim's first
/// notification commits its removal, a second notification for the same pair
/// in the same cycle is a no-op.
pub proof fn lemma_duplicate_drop_events_idempotent(
    refs: Map<u128, u64>,
    e: usize,
    i: u64,
    cmds: Seq<Command>,
)
    requires
        refs.contains_key(intent_key(e, i)),
        refs[intent_key(e, i)] == 0,
    ensures
        drain_intents(refs, seq![(e, i), (e, i)], cmds) == drain_intents(refs, seq![(e, i)], cmds),
        drain_intents(refs, seq![(e, i)], cmds) == (
            refs.remove(intent_key(e, i)),
            cmds.push(Command::RemoveMarker { entity: e, marker: i }),
        ),
{
    reveal_with_fuel(drain_intents, 3);
    let k = intent_key(e, i);
    let rm = Command::RemoveMarker { entity: e, marker: i };
    assert(seq![(e, i)].drop_first() =~= Seq::<(usize, u64)>::empty());
    assert(drain_intents(refs, seq![(e, i)], cmds) == (refs.remove(k), cmds.push(rm)));
    assert(seq![(e, i), (e, i)].drop_first() =~= seq![(e, i)]);
    assert(!refs.remove(k).contains_key(k));
    assert(drain_intents(refs.remove(k), seq![(e, i)], cmds.push(rm)) == (
        refs.remove(k),
        cmds.push(rm),
    ));
}

/// End-to-end lifecycle: spawn an entity under intent A, also claim it under
/// intent B, flush; releasing A's handle and reconciling keeps the entity
/// with only B's marker; releasing B's handle and reconciling despawns it.
pub proof fn lemma_end_to_end_lifecycle(
    hv0: HandlerView,
    rs0: Seq<RecordView>,
    ia: u64,
    ib: u64,
)
    requires
        ia != ib,
        rs0.len() < usize::MAX,
        hv0.entity_events == Seq::<usize>::empty(),
        hv0.intent_events == Seq::<(usize, u64)>::empty(),
        !hv0.entity_refs.contains_key(rs0.len() as usize),
        !hv0.intent_refs.contains_key(intent_key(rs0.len() as usize, ia)),
        !hv0.intent_refs.contains_key(intent_key(rs0.len() as usize, ib)),
    ensures
        ({
            let e = rs0.len() as usize;
            // spawn under A: fresh counts and the structural spawn command
            let hv1 = HandlerView {
                entity_refs: hv0.entity_refs.insert(e, 1),
                intent_refs: hv0.intent_refs.insert(intent_key(e, ia), 1),
                entity_events: hv0.entity_events,
                intent_events: hv0.intent_events,
            };
            // claim under B: counts bumped, marker insertion queued
            let hv2 = HandlerView {
                entity_refs: bump(hv1.entity_refs, e),
                intent_refs: bump(hv1.intent_refs, intent_key(e, ib)),
                entity_events: hv1.entity_events,
                intent_events: hv1.intent_events,
            };
            let rs_flushed = flush_view(
                rs0.push(empty_record()),
                seq![
                    Command::Spawn { entity: e, intent: ia, id_marker: None },
                    Command::InsertMarker { entity: e, marker: ib },
                ],
            );
            let hv3 = release_view(hv2, e, ia);
            let (hv4, out1) = execute_view(hv3, Seq::<Command>::empty());
            let rs_after_a = flush_view(rs_flushed, out1);
            let hv5 = release_view(hv4, e, ib);
            let (hv6, out2) = execute_view(hv5, Seq::<Command>::empty());
            let rs_final = flush_view(rs_after_a, out2);
            &&& rs_flushed[e as int].alive
            &&& rs_flushed[e as int].markers.contains(ia)
            &&& rs_flushed[e as int].markers.contains(ib)
            &&& rs_after_a[e as int].alive
            &&& !rs_after_a[e as int].markers.contains(ia)
            &&& rs_after_a[e as int].markers.contains(ib)
            &&& !rs_final[e as int].alive
            &&& !hv6.entity_refs.contains_key(e)
        }),
{
    let e = rs0.len() as usize;
    let ka = intent_key(e, ia);
    let kb = intent_key(e, ib);
    lemma_intent_key_injective(e, ia, e, ib);
    let sp = Command::Spawn { entity: e, intent: ia, id_marker: None };
    let insb = Command::InsertMarker { entity: e, marker: ib };

    let hv1 = HandlerView {
        entity_refs: hv0.entity_refs.insert(e, 1),
        intent_refs: hv0.intent_refs.insert(ka, 1),
        entity_events: hv0.entity_events,
        intent_events: hv0.intent_events,
    };
    let hv2 = HandlerView {
        entity_refs: bump(hv1.entity_refs, e),
        intent_refs: bump(hv1.intent_refs, kb),
        entity_events: hv1.entity_events,
        intent_events: hv1.intent_events,
    };
    assert(hv2.entity_refs[e] == 2);
    assert(hv2.intent_refs[ka] == 1);
    assert(hv2.intent_refs[kb] == 1);

    // flush of the issuance commands
    let rs_base = rs0.push(empty_record());
    lemma_flush_two(rs_base, sp, insb);
    let rs_sp = apply_view(rs_base, sp);
    assert(!rs_base[e as int].alive);
    assert(rs_sp[e as int].alive && rs_sp[e as int].markers.contains(ia));
    let rs_flushed = apply_view(rs_sp, insb);
    assert(rs_flushed[e as int].alive);
    assert(rs_flushed[e as int].markers.contains(ia));
    assert(rs_flushed[e as int].markers.contains(ib));

    lemma_multi_intent_independence(hv2, rs_flushed, e, ia, ib);
}

} // verus!

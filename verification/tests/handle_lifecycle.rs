use entity_handle::commands::Command;
use entity_handle::commands::CommandQueue;
use entity_handle::server::EntityServer;
use entity_handle::world::World;

const INTENT_A: u64 = 1;
const INTENT_B: u64 = 2;

#[test]
fn spawn_despawns_when_last_handle_dropped() {
    let mut world = World::new();
    let mut cmds = CommandQueue::new();
    let mut server = EntityServer::new();

    // register intent we will use
    let marker_a = server.register_intent(&mut world, INTENT_A);
    let test_comp = world.register_component();

    let bundle = vec![(test_comp, 7)];
    let handle = server.spawn(&mut world, &mut cmds, INTENT_A, &bundle);
    let entity = handle.entity();
    world.flush(&mut cmds);

    assert!(world.is_alive(entity));
    assert!(world.get_comp(entity, test_comp).is_some());
    assert!(world.has_marker(entity, marker_a));

    // dropping last handle queues entity drop
    server.release(handle);

    // cleanup runs at the late reconciliation point of the cycle
    server.execute(&mut cmds);
    world.flush(&mut cmds);

    assert!(!world.is_alive(entity));
}

#[test]
fn dropping_last_intent_handle_removes_only_that_marker() {
    let mut world = World::new();
    let mut cmds = CommandQueue::new();
    let mut server = EntityServer::new();

    let marker_a = server.register_intent(&mut world, INTENT_A);
    let marker_b = server.register_intent(&mut world, INTENT_B);
    let test_comp = world.register_component();

    // Spawn with intent A
    let bundle = vec![(test_comp, 7)];
    let ha = server.spawn(&mut world, &mut cmds, INTENT_A, &bundle);
    let entity = ha.entity();

    // Also request intent B for the SAME entity
    let hb = server.to_managed(&mut cmds, entity, INTENT_B);
    assert_eq!(hb.entity(), entity);
    world.flush(&mut cmds);

    assert!(world.is_alive(entity));
    assert!(world.has_marker(entity, marker_a));
    assert!(world.has_marker(entity, marker_b));

    // Drop only intent A handle: should remove marker A but keep entity + marker B
    server.release(ha);
    server.execute(&mut cmds);
    world.flush(&mut cmds);

    assert!(world.is_alive(entity));
    assert!(!world.has_marker(entity, marker_a));
    assert!(world.has_marker(entity, marker_b));

    // Drop intent B handle too: now entity should despawn (no handles left)
    server.release(hb);
    server.execute(&mut cmds);
    world.flush(&mut cmds);

    assert!(!world.is_alive(entity));
}

#[test]
fn to_managed_wraps_existing_entity_and_cleans_up() {
    let mut world = World::new();
    let mut cmds = CommandQueue::new();
    let mut server = EntityServer::new();

    let marker_a = server.register_intent(&mut world, INTENT_A);
    let existing = world.register_component();

    // Spawn an entity normally (not via EntityServer)
    let entity = world.reserve_entity();
    cmds.push(Command::Spawn { entity, intent: existing, id_marker: None });
    world.flush(&mut cmds);
    assert!(world.is_alive(entity));

    // Convert it to managed + request intent
    let handle = server.to_managed(&mut cmds, entity, INTENT_A);
    world.flush(&mut cmds);

    assert_eq!(handle.entity(), entity);
    assert!(world.has_marker(entity, marker_a));

    // Drop the only handle => should despawn the existing entity too
    server.release(handle);
    server.execute(&mut cmds);
    world.flush(&mut cmds);

    assert!(!world.is_alive(entity));
}

#[test]
fn reacquire_before_update_prevents_cleanup() {
    let mut world = World::new();
    let mut cmds = CommandQueue::new();
    let mut server = EntityServer::new();

    let marker_a = server.register_intent(&mut world, INTENT_A);
    let marker_b = server.register_intent(&mut world, INTENT_B);

    // create entity with intent A and also intent B so entity stays alive
    let ha = server.spawn_empty(&mut world, &mut cmds, INTENT_A);
    let entity = ha.entity();
    let hb = server.to_managed(&mut cmds, entity, INTENT_B);
    world.flush(&mut cmds);

    assert!(world.has_marker(entity, marker_a));
    assert!(world.has_marker(entity, marker_b));

    // Drop last A-handle, but do NOT reconcile yet
    server.release(ha);

    // Reacquire intent A BEFORE the reconciliation cycle
    let ha2 = server.to_managed(&mut cmds, entity, INTENT_A);

    // Now cleanup runs; should NOT remove the intent A marker
    server.execute(&mut cmds);
    world.flush(&mut cmds);

    assert!(world.is_alive(entity));
    assert!(world.has_marker(entity, marker_a));
    assert!(world.has_marker(entity, marker_b));

    // Drop everything; entity should despawn
    server.release(ha2);
    server.release(hb);
    server.execute(&mut cmds);
    world.flush(&mut cmds);

    assert!(!world.is_alive(entity));
}

#[test]
fn duplicate_drop_events_are_reconciled_once() {
    let mut world = World::new();
    let mut cmds = CommandQueue::new();
    let mut server = EntityServer::new();

    let marker_a = server.register_intent(&mut world, INTENT_A);

    let ha = server.spawn_empty(&mut world, &mut cmds, INTENT_A);
    let entity = ha.entity();
    world.flush(&mut cmds);
    assert!(world.has_marker(entity, marker_a));

    // Two stale zero-events for the same (entity, intent) pair: release,
    // reacquire before reconciliation, release again.
    server.release(ha);
    let ha2 = server.to_managed(&mut cmds, entity, INTENT_A);
    server.release(ha2);

    server.execute(&mut cmds);
    // One redundant marker insertion from the reacquire, then exactly one
    // marker removal and one despawn: the second pair of events is a no-op.
    assert_eq!(cmds.len(), 3);
    world.flush(&mut cmds);

    assert!(!world.is_alive(entity));
    assert!(!world.has_marker(entity, marker_a));
}

#[test]
fn clone_keeps_entity_alive_until_all_handles_released() {
    let mut world = World::new();
    let mut cmds = CommandQueue::new();
    let mut server = EntityServer::new();

    server.register_intent(&mut world, INTENT_A);

    let h1 = server.spawn_empty(&mut world, &mut cmds, INTENT_A);
    let entity = h1.entity();
    let h2 = server.clone_handle(&h1);
    world.flush(&mut cmds);

    server.release(h1);
    server.execute(&mut cmds);
    world.flush(&mut cmds);
    assert!(world.is_alive(entity));

    server.release(h2);
    server.execute(&mut cmds);
    world.flush(&mut cmds);
    assert!(!world.is_alive(entity));
}

#[test]
fn registering_an_intent_twice_keeps_its_marker() {
    let mut world = World::new();
    let mut server = EntityServer::new();

    let first = server.register_intent(&mut world, INTENT_A);
    let second = server.register_intent(&mut world, INTENT_A);
    let other = server.register_intent(&mut world, INTENT_B);

    assert_eq!(first, second);
    assert_ne!(first, other);
}

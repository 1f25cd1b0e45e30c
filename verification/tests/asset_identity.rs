use entity_handle::asset_server::EntityAssetServer;
use entity_handle::asset_server::PrunePolicy;
use entity_handle::commands::CommandQueue;
use entity_handle::query::EntityAssetQuery;
use entity_handle::query::QueryEntityError;
use entity_handle::server::EntityServer;
use entity_handle::world::World;

const INTENT_A: u64 = 1;
const INTENT_B: u64 = 2;

#[test]
fn singletons_are_stable_per_id_and_query_works() {
    let mut world = World::new();
    let mut cmds = CommandQueue::new();
    let mut server = EntityServer::new();

    let mut assets = EntityAssetServer::new(&mut world);
    server.register_intent(&mut world, INTENT_A);
    server.register_intent(&mut world, INTENT_B);

    // IMPORTANT: keep handles alive so they do NOT drop before the first flush.
    let h1a = assets.get_asset(&mut server, &mut world, &mut cmds, 1, INTENT_A);
    let h1b = assets.get_asset(&mut server, &mut world, &mut cmds, 1, INTENT_B);
    let h2 = assets.get_asset(&mut server, &mut world, &mut cmds, 2, INTENT_A);

    let e1a = h1a.entity();
    let e1b = h1b.entity();
    let e2 = h2.entity();

    // Flush the spawn/insert commands while handles are still alive.
    world.flush(&mut cmds);

    assert_eq!(e1a, e1b);
    assert_ne!(e1a, e2);

    // Now entities definitely exist in the world; safe to mutate directly.
    let value = world.register_component();
    world.insert_comp(e1a, value, 10);
    world.insert_comp(e2, value, 20);

    // Validate iter_mut can mutate
    let q = EntityAssetQuery::new(assets.id_component(), value);
    q.iter_mut(&mut world, &|v: i64| v + 1);

    assert_eq!(world.get_comp(e1a, value).unwrap(), 11);
    assert_eq!(world.get_comp(e2, value).unwrap(), 21);

    // Validate iter count
    let count = q.iter(&world).len();
    assert_eq!(count, 2);

    // Optional: show cleanup works too
    server.release_asset(h1a);
    server.release_asset(h1b);
    server.release_asset(h2);

    server.execute(&mut cmds);
    world.flush(&mut cmds);
    assert!(!world.is_alive(e1a));
    assert!(!world.is_alive(e2));
}

#[test]
fn query_mutation_is_visible_through_query_and_substrate() {
    let mut world = World::new();
    let mut cmds = CommandQueue::new();
    let mut server = EntityServer::new();
    let mut assets = EntityAssetServer::new(&mut world);
    server.register_intent(&mut world, INTENT_A);

    let h = assets.get_asset(&mut server, &mut world, &mut cmds, 9, INTENT_A);
    world.flush(&mut cmds);

    let value = world.register_component();
    world.insert_comp(h.entity(), value, 5);

    let q = EntityAssetQuery::new(assets.id_component(), value);
    assert_eq!(q.get(&world, &h), Ok(5));

    let previous = q.get_mut(&mut world, &h, 42);
    assert_eq!(previous, Ok(5));

    // visible through the query's own subsequent read...
    assert_eq!(q.get(&world, &h), Ok(42));
    // ...and through direct substrate lookup.
    assert_eq!(world.get_comp(h.entity(), value), Some(42));

    server.release_asset(h);
}

#[test]
fn query_misses_are_reported_as_errors() {
    let mut world = World::new();
    let mut cmds = CommandQueue::new();
    let mut server = EntityServer::new();
    let mut assets = EntityAssetServer::new(&mut world);
    server.register_intent(&mut world, INTENT_A);

    let value = world.register_component();
    let q = EntityAssetQuery::new(assets.id_component(), value);

    // Entity without the data component: alive, tagged, but no match.
    let h = assets.get_asset(&mut server, &mut world, &mut cmds, 3, INTENT_A);
    world.flush(&mut cmds);
    assert_eq!(q.get(&world, &h), Err(QueryEntityError::QueryDoesNotMatch));
    assert_eq!(q.get_mut(&mut world, &h, 1), Err(QueryEntityError::QueryDoesNotMatch));

    // Entity spawned outside the registry: alive but untagged.
    let plain = server.spawn_empty(&mut world, &mut cmds, INTENT_A);
    world.flush(&mut cmds);
    world.insert_comp(plain.entity(), value, 1);
    assert_eq!(q.get_at(&world, plain.entity()), Err(QueryEntityError::QueryDoesNotMatch));

    // Despawned entity: no such entity.
    let e = h.entity();
    server.release_asset(h);
    server.execute(&mut cmds);
    world.flush(&mut cmds);
    assert_eq!(q.get_at(&world, e), Err(QueryEntityError::NoSuchEntity));

    server.release(plain);
}

#[test]
fn registry_entries_survive_despawn_and_point_at_the_dead_entity() {
    // Never-prune policy: the identity map keeps its entry after the entity
    // despawns, and a later request under the same key shares the stale entry.
    let mut world = World::new();
    let mut cmds = CommandQueue::new();
    let mut server = EntityServer::new();
    let mut assets = EntityAssetServer::new(&mut world);
    server.register_intent(&mut world, INTENT_A);

    let h = assets.get_asset(&mut server, &mut world, &mut cmds, 4, INTENT_A);
    let e = h.entity();
    world.flush(&mut cmds);

    server.release_asset(h);
    server.execute(&mut cmds);
    world.flush(&mut cmds);
    assert!(!world.is_alive(e));
    assert_eq!(assets.lookup(4), Some(e));

    // A second request yields the same (now dead) entity: the accepted
    // design limitation of the never-prune policy.
    let h2 = assets.get_asset(&mut server, &mut world, &mut cmds, 4, INTENT_A);
    assert_eq!(h2.entity(), e);
    server.release_asset(h2);
}

#[test]
fn prune_on_despawn_respawns_under_the_same_key() {
    let mut world = World::new();
    let mut cmds = CommandQueue::new();
    let mut server = EntityServer::new();
    let mut assets = EntityAssetServer::with_policy(&mut world, PrunePolicy::PruneOnDespawn);
    server.register_intent(&mut world, INTENT_A);

    let h = assets.get_asset(&mut server, &mut world, &mut cmds, 4, INTENT_A);
    let e = h.entity();
    world.flush(&mut cmds);

    // While the entity is alive, the key still dedups.
    let h_same = assets.get_asset(&mut server, &mut world, &mut cmds, 4, INTENT_A);
    assert_eq!(h_same.entity(), e);
    server.release_asset(h_same);

    server.release_asset(h);
    server.execute(&mut cmds);
    world.flush(&mut cmds);
    assert!(!world.is_alive(e));

    // The stale entry no longer dedups: the key gets a fresh entity.
    let h2 = assets.get_asset(&mut server, &mut world, &mut cmds, 4, INTENT_A);
    world.flush(&mut cmds);
    assert_ne!(h2.entity(), e);
    assert!(world.is_alive(h2.entity()));
    assert_eq!(assets.lookup(4), Some(h2.entity()));
    server.release_asset(h2);
}

#[test]
fn to_untyped_shares_the_claim() {
    let mut world = World::new();
    let mut cmds = CommandQueue::new();
    let mut server = EntityServer::new();
    let mut assets = EntityAssetServer::new(&mut world);
    server.register_intent(&mut world, INTENT_A);

    let h = assets.get_asset(&mut server, &mut world, &mut cmds, 8, INTENT_A);
    let e = h.entity();
    let untyped = h.to_untyped(&mut server);
    assert_eq!(untyped.entity(), e);
    world.flush(&mut cmds);

    server.release_asset(h);
    server.execute(&mut cmds);
    world.flush(&mut cmds);
    assert!(world.is_alive(e));

    server.release(untyped);
    server.execute(&mut cmds);
    world.flush(&mut cmds);
    assert!(!world.is_alive(e));
}

use entity_handle::commands::CommandQueue;
use entity_handle::server::EntityHandlePlugin;
use entity_handle::server::UNIT_INTENT;
use entity_handle::spawner::BundleSpawner;
use entity_handle::spawner::IntoSpawner;
use entity_handle::spawner::Spawner;
use entity_handle::world::World;

#[test]
fn bundle_spawner_spawns_through_the_command_queue() {
    let mut world = World::new();
    let mut cmds = CommandQueue::new();
    let marker = world.register_component();
    let param_comp = world.register_component();

    let spawner = BundleSpawner { marker, param_comp }.into_spawner();
    let e = spawner.spawn(&mut world, &mut cmds, 64);

    // Structural creation is deferred until the flush.
    assert!(!world.is_alive(e));
    world.flush(&mut cmds);
    assert!(world.is_alive(e));
    assert!(world.has_marker(e, marker));
    assert_eq!(world.get_comp(e, param_comp), Some(64));
}

#[test]
fn plugin_build_registers_the_unit_intent() {
    let mut world = World::new();
    let mut cmds = CommandQueue::new();
    let mut server = EntityHandlePlugin.build(&mut world);

    // The unit intent is usable without further registration.
    let h = server.spawn_empty(&mut world, &mut cmds, UNIT_INTENT);
    let e = h.entity();
    world.flush(&mut cmds);
    assert!(world.is_alive(e));

    server.release(h);
    server.execute(&mut cmds);
    world.flush(&mut cmds);
    assert!(!world.is_alive(e));
}

use entity_handle::commands::Command;
use entity_handle::commands::CommandQueue;
use entity_handle::query::QueryEntityError;
use entity_handle::registry::Registry;
use entity_handle::registry::RegistryQuery;
use entity_handle::registry::RegistryQueryError;
use entity_handle::world::World;

fn spawn_plain(world: &mut World, cmds: &mut CommandQueue, marker: u64) -> usize {
    let e = world.reserve_entity();
    cmds.push(Command::Spawn { entity: e, intent: marker, id_marker: None });
    world.flush(cmds);
    e
}

#[test]
fn registry_tracks_component_insertion_and_removal() {
    let mut world = World::new();
    let mut cmds = CommandQueue::new();
    let marker = world.register_component();
    let key_comp = world.register_component();

    let mut registry = Registry::new(key_comp);

    let e = spawn_plain(&mut world, &mut cmds, marker);
    world.insert_comp(e, key_comp, 77);
    registry.on_component_inserted(&world, e);
    assert_eq!(registry.get(77), Some(e));
    assert_eq!(registry.get(78), None);

    // The remove hook runs while the value is still readable.
    registry.on_component_removed(&world, e);
    assert_eq!(registry.get(77), None);
}

#[test]
fn registry_query_resolves_keys_and_reports_misses() {
    let mut world = World::new();
    let mut cmds = CommandQueue::new();
    let marker = world.register_component();
    let key_comp = world.register_component();
    let data_comp = world.register_component();

    let mut registry = Registry::new(key_comp);
    let q = RegistryQuery::new(key_comp, data_comp);

    // No entity registered for the key.
    assert!(matches!(q.get(&registry, &world, 5), Err(RegistryQueryError::NoSuchEntity)));

    let e = spawn_plain(&mut world, &mut cmds, marker);
    world.insert_comp(e, key_comp, 5);
    registry.on_component_inserted(&world, e);

    // Registered, but the data component is missing.
    assert!(matches!(
        q.get(&registry, &world, 5),
        Err(RegistryQueryError::QueryEntityError(QueryEntityError::QueryDoesNotMatch))
    ));

    world.insert_comp(e, data_comp, 500);
    assert_eq!(q.get(&registry, &world, 5), Ok(500));

    // Mutation through the query is visible to later reads.
    assert_eq!(q.get_mut(&registry, &mut world, 5, 501), Ok(500));
    assert_eq!(q.get(&registry, &world, 5), Ok(501));
    assert_eq!(world.get_comp(e, data_comp), Some(501));

    // A despawned entity behind a stale entry is an underlying query miss.
    cmds.push(Command::Despawn { entity: e });
    world.flush(&mut cmds);
    assert!(matches!(
        q.get(&registry, &world, 5),
        Err(RegistryQueryError::QueryEntityError(QueryEntityError::NoSuchEntity))
    ));
}

use entity_handle::bridge::AsyncService;
use entity_handle::dyn_node::DynNodeResolver;
use entity_handle::node::Node;
use entity_handle::pipeline::Assets;
use entity_handle::pipeline::HandleTransformer;
use entity_handle::yml::AdvancedYamlAssetPlugin;
use entity_handle::yml::AdvancedYamlAssetLoader;
use entity_handle::yml::LoadContext;
use entity_handle::yml::YamlLoaderError;
use entity_handle::yml::YamlLoaderState;
use entity_handle::yml::extract_requested_node_as;

const ASSET_A: u64 = 1;
const ASSET_B: u64 = 2;

#[test]
fn yaml_plugins_wire_one_loader_with_first_extensions() {
    let mut state = YamlLoaderState::new();
    let exts_a = vec![b"yml".to_vec(), b"yaml".to_vec()];
    let exts_b = vec![b"other".to_vec()];

    AdvancedYamlAssetPlugin::new(ASSET_A, exts_a.clone()).build(&mut state);
    AdvancedYamlAssetPlugin::new(ASSET_B, exts_b).build(&mut state);

    // First plugin's extensions win; the single loader is added once; both
    // extractors are registered in order.
    assert_eq!(state.extensions, Some(exts_a));
    assert!(state.loader_added);
    assert_eq!(state.registry.extractors(), &vec![ASSET_A, ASSET_B]);
}

#[test]
fn yaml_loader_selects_the_labeled_node_or_errs() {
    let root = Node::Mapping(vec![(
        b"entries".to_vec(),
        Node::Mapping(vec![(b"goblin".to_vec(), Node::Int(42))]),
    )]);
    let loader = AdvancedYamlAssetLoader::new(vec![b"yml".to_vec()]);

    // No label: only the root file asset.
    assert!(matches!(loader.load(&root, None), Ok(None)));

    // A label addressing a node selects it.
    let label = b"entries/goblin".to_vec();
    match loader.load(&root, Some(&label)) {
        Ok(Some(Node::Int(42))) => {},
        _ => panic!("expected the goblin node"),
    }

    // A label addressing nothing names itself in the error.
    let missing = b"entries/troll".to_vec();
    match loader.load(&root, Some(&missing)) {
        Err(YamlLoaderError::PathNotFound(p)) => assert_eq!(p, missing),
        _ => panic!("expected a path-not-found error"),
    }
}

#[test]
fn extractors_claim_labels_first_wins() {
    let mut ctx = LoadContext::new();
    let label = b"entries/goblin".to_vec();

    // A failed decode claims nothing.
    extract_requested_node_as(&mut ctx, &label, ASSET_A, None);
    assert!(!ctx.has_labeled_asset(&label));

    // The first successful decode claims the label.
    extract_requested_node_as(&mut ctx, &label, ASSET_A, Some(42));
    assert_eq!(ctx.get_labeled_asset(&label), Some((ASSET_A, 42)));

    // A later extractor must not overwrite it.
    extract_requested_node_as(&mut ctx, &label, ASSET_B, Some(7));
    assert_eq!(ctx.get_labeled_asset(&label), Some((ASSET_A, 42)));
}

#[test]
fn transform_requests_wait_for_their_input_asset() {
    let mut assets = Assets::new();
    let mut transformer = HandleTransformer::new();

    let input = assets.reserve_handle();
    let output = transformer.transform_with_params(&mut assets, input, 3, 7);
    assert_ne!(input, output);

    // Input not loaded yet: nothing ready, but the processor keeps running.
    let (ready, rerun) = transformer.take_ready(&assets);
    assert!(ready.is_empty());
    assert!(rerun);

    // Load the input; the request becomes ready and is handed out once.
    assets.insert(input, 5);
    let (ready, rerun) = transformer.take_ready(&assets);
    assert_eq!(ready.len(), 1);
    assert!(rerun);
    let req = ready[0];
    let inp = req.input_for(&assets).expect("ready request has an input");
    assert_eq!(inp.asset, 5);
    assert_eq!(inp.params, 3);

    // The host runs the transformer system and completes the transfer.
    assets.insert(req.handle_out, inp.asset + inp.params);
    assert_eq!(assets.get(output), Some(8));

    // Queue drained: the processor may stop.
    let (ready, rerun) = transformer.take_ready(&assets);
    assert!(ready.is_empty());
    assert!(!rerun);
}

#[test]
fn bridge_registers_before_serving_requests() {
    let mut service = AsyncService::new();
    let pair: u64 = 11;
    let system: u64 = 4;

    // Async side: ask for the pair to be set up; not acknowledged yet.
    service.request_registration(pair, system);
    assert!(!service.is_registered(pair));

    // Sync side, next cycle: drain registrations; now the ack holds.
    service.drain_registrations();
    assert!(service.is_registered(pair));

    // A second registration of the same pair is reused, not duplicated.
    service.request_registration(pair, system);
    service.drain_registrations();
    assert!(service.is_registered(pair));

    // Async side: submit the request; sync side serves it and responds.
    service.submit(pair, system, 21);
    let (p, s, input) = service.take_request().expect("one pending request");
    assert_eq!((p, s, input), (pair, system, 21));
    service.respond(pair, input * 2);

    // Async side: the await completes with the output.
    assert_eq!(service.try_take_response(), Some((pair, 42)));
    assert_eq!(service.try_take_response(), None);
}

#[test]
fn resolver_caches_one_handle_per_triple() {
    let mut resolver = DynNodeResolver::new();
    resolver.init_dyn_asset(ASSET_A);
    resolver.init_dyn_asset(ASSET_B);

    let config: u64 = 3;
    let path = b"/enemies/aligator".to_vec();

    let h1 = resolver.resolve(config, &path, ASSET_A);
    let h2 = resolver.resolve(config, &path, ASSET_A);
    assert_eq!(h1, h2);

    // A different path, type or config resolves to its own handle.
    let other_path = resolver.resolve(config, &b"/enemies/troll".to_vec(), ASSET_A);
    assert_ne!(h1, other_path);
    let other_cfg = resolver.resolve(4, &path, ASSET_A);
    assert_ne!(other_path, other_cfg);

    // Exactly one extraction was queued per fresh resolution.
    let pending = resolver.take_pending();
    assert_eq!(pending.len(), 3);
    assert_eq!(pending[0].handle, h1);
    assert_eq!(pending[0].path, path);
    assert!(resolver.take_pending().is_empty());
}

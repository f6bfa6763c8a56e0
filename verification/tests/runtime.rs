use jackdaw::runtime::{GameApp, GameBookkeeping, GamePlugin, GameRegistry};

#[test]
fn registrations_are_recorded_once_each() {
    let mut registry = GameRegistry::new();
    let app = GameApp::new("my_game");
    assert_eq!(app.name(), "my_game");
    assert!(!registry.contains("my_game"));
    app.add_systems(&mut registry, 1);
    app.add_systems(&mut registry, 2);
    app.add_systems(&mut registry, 1);
    app.insert_resource(&mut registry, 100);
    app.init_resource(&mut registry, 100);
    app.init_resource(&mut registry, 101);
    app.register_type(&mut registry, 500);
    assert!(registry.contains("my_game"));
    let book: GameBookkeeping = registry.take("my_game").expect("bookkeeping");
    assert_eq!(book.schedules, vec![1, 2]);
    assert_eq!(book.resources, vec![100, 101]);
    assert_eq!(book.reflect_types, vec![500]);
    assert!(!registry.contains("my_game"));
}

#[test]
fn games_are_kept_apart() {
    let mut registry = GameRegistry::new();
    GameApp::new("a").insert_resource(&mut registry, 1);
    GameApp::new("b").insert_resource(&mut registry, 2);
    assert_eq!(registry.take("a").unwrap().resources, vec![1]);
    assert_eq!(registry.take("b").unwrap().resources, vec![2]);
}

#[test]
fn entry_creates_empty_bookkeeping() {
    let mut registry = GameRegistry::new();
    registry.entry("g");
    assert!(registry.contains("g"));
    let book = registry.take("g").unwrap();
    assert!(book.schedules.is_empty() && book.resources.is_empty() && book.reflect_types.is_empty());
}

#[test]
fn teardown_despawns_tagged_entities_and_removes_resources() {
    let mut registry = GameRegistry::new();
    let app = GameApp::new("my_game");
    app.add_systems(&mut registry, 1);
    app.insert_resource(&mut registry, 100);
    app.insert_resource(&mut registry, 101);
    let tagged = vec![(10, "my_game".to_string()), (11, "other".to_string()), (12, "my_game".to_string())];
    app.register_type(&mut registry, 500);
    let plan = app.teardown_tracked(&mut registry, &tagged);
    assert_eq!(plan.despawn, vec![10, 12]);
    assert_eq!(plan.resources, vec![100, 101]);
    assert_eq!(plan.schedules, vec![1]);
    assert_eq!(plan.reflect_types, vec![500]);
    assert!(!registry.contains("my_game"));
    let again = app.teardown_tracked(&mut registry, &tagged);
    assert_eq!(again.despawn, vec![10, 12]);
    assert!(again.resources.is_empty() && again.schedules.is_empty() && again.reflect_types.is_empty());
}

#[test]
fn the_system_set_and_tag_carry_the_game_name() {
    let app = GameApp::new("g");
    assert_eq!(app.system_set().0, "g");
    assert_eq!(app.tag().0, "g");
}

struct Spinner;

impl GamePlugin for Spinner {
    fn build(&self, ctx: &GameApp, registry: &mut GameRegistry) {
        ctx.add_systems(registry, 7);
        ctx.insert_resource(registry, 70);
    }
}

#[test]
fn a_game_tears_down_what_its_build_recorded() {
    let mut registry = GameRegistry::new();
    let ctx = GameApp::new("spinner");
    Spinner.build(&ctx, &mut registry);
    assert!(registry.contains("spinner"));
    let tagged = vec![(3, "spinner".to_string()), (4, "other".to_string())];
    let plan = Spinner.teardown(&ctx, &mut registry, &tagged);
    assert_eq!(plan.despawn, vec![3]);
    assert_eq!(plan.resources, vec![70]);
    assert_eq!(plan.schedules, vec![7]);
    assert!(!registry.contains("spinner"));
}

#[test]
fn a_game_without_bookkeeping_still_loses_its_tagged_entities() {
    let mut registry = GameRegistry::new();
    let app = GameApp::new("observer_only");
    let tagged = vec![(5, "observer_only".to_string()), (6, "other".to_string())];
    let plan = app.teardown_tracked(&mut registry, &tagged);
    assert_eq!(plan.despawn, vec![5]);
    assert!(plan.resources.is_empty());
}

use ai_native_engine::commands::{
    create_entity, delete_entity, find_attack_pair, find_target, list_entities, AttackLookup, DeleteOutcome,
};
use ai_native_engine::entity_registry::{EntityId, EntityRegistry};

fn id(bits: u64) -> EntityId {
    EntityId { bits }
}

#[test]
fn register_get_remove() {
    let mut registry = EntityRegistry::default();
    assert_eq!(registry.register("cube".to_string(), id(7)), Ok(()));
    assert!(registry.contains("cube"));
    assert_eq!(registry.get("cube"), Some(id(7)));
    assert_eq!(registry.get("light"), None);
    assert_eq!(registry.remove("cube"), Some(id(7)));
    assert_eq!(registry.remove("cube"), None);
    assert!(!registry.contains("cube"));
}

#[test]
fn duplicate_name_is_refused() {
    let mut registry = EntityRegistry::new();
    registry.register("player".to_string(), id(1)).unwrap();
    let err = registry.register("player".to_string(), id(2)).unwrap_err();
    assert_eq!(err, "Entity 'player' already exists");
    assert_eq!(registry.get("player"), Some(id(1)));
}

#[test]
fn list_holds_every_name_once() {
    let mut registry = EntityRegistry::new();
    for (i, n) in ["a", "b", "c"].iter().enumerate() {
        registry.register(n.to_string(), id(i as u64)).unwrap();
    }
    registry.remove("a");
    let mut names = registry.list();
    names.sort();
    assert_eq!(names, vec!["b".to_string(), "c".to_string()]);
    assert_eq!(registry.get("c"), Some(id(2)));
}

#[test]
fn command_answers() {
    let mut registry = EntityRegistry::new();
    assert_eq!(list_entities(&registry), "No entities in scene");
    assert_eq!(create_entity(&mut registry, "box".to_string(), id(4)), "Entity 'box' created");
    assert_eq!(create_entity(&mut registry, "box".to_string(), id(5)), "Entity 'box' already exists");
    assert_eq!(list_entities(&registry), "Entities: box");
    create_entity(&mut registry, "lamp".to_string(), id(6));
    let listing = list_entities(&registry);
    assert!(listing == "Entities: box, lamp" || listing == "Entities: lamp, box");
    assert_eq!(find_target(&registry, "lamp"), Ok(id(6)));
    assert_eq!(find_target(&registry, "ghost"), Err("Entity 'ghost' not found".to_string()));
    match delete_entity(&mut registry, "box") {
        DeleteOutcome::Deleted(e, msg) => {
            assert_eq!(e, id(4));
            assert_eq!(msg, "Entity 'box' deleted");
        }
        DeleteOutcome::NotFound(_) => panic!("box was registered"),
    }
    match delete_entity(&mut registry, "box") {
        DeleteOutcome::NotFound(msg) => assert_eq!(msg, "Entity 'box' not found"),
        DeleteOutcome::Deleted(..) => panic!("box was removed"),
    }
}

#[test]
fn attack_resolution() {
    let mut registry = EntityRegistry::new();
    registry.register("player".to_string(), id(1)).unwrap();
    registry.register("enemy".to_string(), id(2)).unwrap();
    match find_attack_pair(&registry, "player", "enemy") {
        AttackLookup::Found(a, t) => assert_eq!((a, t), (id(1), id(2))),
        _ => panic!("both are registered"),
    }
    match find_attack_pair(&registry, "nobody", "nothing") {
        AttackLookup::AttackerMissing(msg) => assert_eq!(msg, "Attacker 'nobody' not found"),
        _ => panic!("attacker is missing"),
    }
    match find_attack_pair(&registry, "player", "nothing") {
        AttackLookup::TargetMissing(msg) => assert_eq!(msg, "Target 'nothing' not found"),
        _ => panic!("target is missing"),
    }
}

use ai_native_engine::gameplay_tags::{register_common_tags, GameplayTags, GameplayTagsBuilder, TagRegistry};
use ai_native_engine::tags;

#[test]
fn test_register_and_get_id() {
    let mut registry = TagRegistry::default();
    let id = registry.register("Damage.Type.Fire", Some("Damage.Type"));
    assert_eq!(registry.get_id("Damage.Type.Fire"), Some(id));
    assert_eq!(registry.get_name(id), Some("Damage.Type.Fire"));
}

#[test]
fn test_duplicate_registration() {
    let mut registry = TagRegistry::default();
    let id1 = registry.register("Damage.Type.Fire", None);
    let id2 = registry.register("Damage.Type.Fire", None);
    assert_eq!(id1, id2);
}

#[test]
fn test_parent_hierarchy() {
    let mut registry = TagRegistry::default();
    let parent = registry.register("Damage.Type", None);
    let child = registry.register("Damage.Type.Fire", Some("Damage.Type"));

    assert!(registry.has_ancestor(child, parent));
    assert_eq!(registry.get_parent(child), Some(parent));
}

#[test]
fn test_grandparent_hierarchy() {
    let mut registry = TagRegistry::default();
    let grandparent = registry.register("Damage", None);
    let parent = registry.register("Damage.Type", Some("Damage"));
    let child = registry.register("Damage.Type.Fire", Some("Damage.Type"));

    assert!(registry.has_ancestor(child, parent));
    assert!(registry.has_ancestor(child, grandparent));
    assert!(!registry.has_ancestor(parent, child));
}

#[test]
fn test_gameplay_tags_add_remove() {
    let mut registry = TagRegistry::default();
    let id = registry.register("Damage.Type.Fire", None);

    let mut tags = GameplayTags::new();
    tags.add(id);
    assert!(tags.has_tag(id));

    tags.remove(id);
    assert!(!tags.has_tag(id));
}

#[test]
fn test_has_any_and_has_all() {
    let mut registry = TagRegistry::default();
    let id1 = registry.register("Damage.Type.Fire", None);
    let id2 = registry.register("Status.Burning", None);

    let mut tags = GameplayTags::new();
    tags.add(id1);

    assert!(tags.has_any_tag(&[id1, id2]));
    assert!(!tags.has_all_tags(&[id1, id2]));
    assert!(tags.has_all_tags(&[id1]));
}

#[test]
fn test_has_parent_tag() {
    let mut registry = TagRegistry::default();
    let parent = registry.register("Damage.Type", None);
    let child = registry.register("Damage.Type.Fire", Some("Damage.Type"));

    let mut tags = GameplayTags::new();
    tags.add(child);

    assert!(tags.has_tag(child));
    assert!(!tags.has_tag(parent));
    assert!(tags.has_parent_tag(&registry, parent));
}

#[test]
fn test_tag_names() {
    let mut registry = TagRegistry::default();
    let id1 = registry.register("Damage.Type.Fire", None);
    let id2 = registry.register("Status.Burning", None);

    let mut tags = GameplayTags::new();
    tags.add(id1);
    tags.add(id2);

    let names = tags.tag_names(&registry);
    assert_eq!(names.len(), 2);
    assert!(names.contains(&"Damage.Type.Fire".to_string()));
    assert!(names.contains(&"Status.Burning".to_string()));
}

#[test]
fn ids_are_handed_out_in_order() {
    let mut registry = TagRegistry::new();
    assert!(registry.is_empty());
    assert_eq!(registry.register("A", None), 0);
    assert_eq!(registry.register("B", None), 1);
    assert_eq!(registry.register("A", Some("B")), 0);
    assert_eq!(registry.register("C", Some("A")), 2);
    assert_eq!(registry.len(), 3);
    assert!(!registry.is_empty());
    // Registering a known tag again does not relink it.
    assert_eq!(registry.get_parent(0), None);
    assert_eq!(registry.get_parent(2), Some(0));
}

#[test]
fn unknown_parent_links_nothing() {
    let mut registry = TagRegistry::new();
    let id = registry.register("Status.Frozen", Some("Status"));
    assert_eq!(registry.get_parent(id), None);
    assert_eq!(registry.get_id("Status"), None);
    assert_eq!(registry.get_name(7), None);
}

#[test]
fn tag_named_as_its_own_parent_is_linked_to_itself() {
    let mut registry = TagRegistry::new();
    let id = registry.register("Loop", Some("Loop"));
    assert_eq!(registry.get_parent(id), Some(id));
    assert!(registry.has_ancestor(id, id));
}

#[test]
fn ancestors_nearest_first() {
    let mut registry = TagRegistry::new();
    let a = registry.register("Damage", None);
    let b = registry.register("Damage.Type", Some("Damage"));
    let c = registry.register("Damage.Type.Ice", Some("Damage.Type"));
    assert_eq!(registry.get_ancestors(c), vec![b, a]);
    assert_eq!(registry.get_ancestors(a), Vec::<u32>::new());
    assert!(!registry.has_ancestor(a, c));
    assert!(!registry.has_ancestor(99, a));
}

#[test]
fn all_tags_in_id_order() {
    let mut registry = TagRegistry::new();
    registry.register("X", None);
    registry.register("Y", Some("X"));
    assert_eq!(registry.all_tags(), vec!["X", "Y"]);
}

#[test]
fn common_tags_hierarchy() {
    let mut registry = TagRegistry::new();
    register_common_tags(&mut registry);
    assert_eq!(registry.len(), 26);
    let fire = registry.get_id(tags::DAMAGE_TYPE_FIRE).unwrap();
    let damage = registry.get_id(tags::DAMAGE).unwrap();
    let damage_type = registry.get_id(tags::DAMAGE_TYPE).unwrap();
    assert_eq!(damage, 0);
    assert_eq!(registry.get_parent(fire), Some(damage_type));
    assert!(registry.has_ancestor(fire, damage));
    let player = registry.get_id(tags::FACTION_PLAYER).unwrap();
    let faction = registry.get_id(tags::FACTION).unwrap();
    assert_eq!(registry.get_ancestors(player), vec![faction]);
    assert_eq!(registry.get_parent(registry.get_id(tags::RESISTANCE).unwrap()), None);
    // A second run changes nothing.
    register_common_tags(&mut registry);
    assert_eq!(registry.len(), 26);
}

#[test]
fn has_parent_tag_matches_the_tag_itself_and_ancestors_only() {
    let mut registry = TagRegistry::new();
    let damage = registry.register("Damage", None);
    let dtype = registry.register("Damage.Type", Some("Damage"));
    let fire = registry.register("Damage.Type.Fire", Some("Damage.Type"));
    let status = registry.register("Status", None);

    let tags = GameplayTags::from_ids(&[fire]);
    assert!(tags.has_parent_tag(&registry, fire));
    assert!(tags.has_parent_tag(&registry, dtype));
    assert!(tags.has_parent_tag(&registry, damage));
    assert!(!tags.has_parent_tag(&registry, status));
    assert!(tags.has_any_parent_tag(&registry, &[status, damage]));
    assert!(!tags.has_any_parent_tag(&registry, &[status]));
    assert!(!tags.has_any_parent_tag(&registry, &[]));
}

#[test]
fn empty_queries() {
    let tags = GameplayTags::default();
    assert!(tags.is_empty());
    assert_eq!(tags.len(), 0);
    assert!(!tags.has_any_tag(&[]));
    assert!(tags.has_all_tags(&[]));
}

#[test]
fn builder_and_clone() {
    let tags = GameplayTagsBuilder::new().with_tag(3).with_tag(5).with_tag(3).build();
    assert_eq!(tags.len(), 2);
    assert!(tags.has_tag(3) && tags.has_tag(5));
    let copy = tags.clone();
    assert_eq!(copy.tag_ids(), tags.tag_ids());
    let from = GameplayTags::from_ids(&[5, 3, 5]);
    assert_eq!(from.tag_ids(), tags.tag_ids());
}

#[test]
fn tag_names_skip_unregistered_ids() {
    let mut registry = TagRegistry::new();
    let a = registry.register("Ability.Magic", None);
    let tags = GameplayTags::from_ids(&[a, 40]);
    assert_eq!(tags.tag_names(&registry), vec!["Ability.Magic".to_string()]);
}

#[test]
fn adding_counts_new_tags_once() {
    let mut tags = GameplayTags::new();
    tags.add(4);
    assert_eq!(tags.len(), 1);
    tags.add(4);
    assert_eq!(tags.len(), 1);
    tags.add(9);
    assert_eq!(tags.len(), 2);
    tags.remove(4);
    assert_eq!(tags.len(), 1);
    assert!(!tags.is_empty());
}

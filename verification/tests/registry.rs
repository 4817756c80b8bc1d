use enemy_ai_engine::core_types::id::{EntityId, HierarchyLevel};
use enemy_ai_engine::core_types::math::{Scalar, Vec3};
use enemy_ai_engine::registry::soa::{SoARegistry, MAX_ENTITIES};

fn v(x: f32, y: f32, z: f32) -> Vec3 {
    Vec3::new(Scalar(x.to_bits()), Scalar(y.to_bits()), Scalar(z.to_bits()))
}

#[test]
fn test_spawn_and_despawn() {
    let mut reg = SoARegistry::new();
    assert_eq!(reg.entity_count(), 0);
    let id1 = reg.spawn(v(1.0, 2.0, 3.0));
    let id2 = reg.spawn(Vec3::zero());
    assert_eq!(reg.entity_count(), 2);
    assert!(reg.active.contains(id1.index()));
    assert!(reg.active.contains(id2.index()));

    reg.despawn(id1);
    assert_eq!(reg.entity_count(), 1);
    assert!(!reg.active.contains(id1.index()));
    assert!(reg.active.contains(id2.index()));
}

#[test]
fn test_hierarchy() {
    let mut reg = SoARegistry::new();
    let p = reg.spawn_with_role(Vec3::zero(), HierarchyLevel::SquadLeader);
    let c1 = reg.spawn(Vec3::zero());
    let c2 = reg.spawn(Vec3::zero());

    reg.set_parent(c1, p);
    reg.set_parent(c2, p);

    assert_eq!(reg.parent_ids[c1.index()], Some(p));
    assert_eq!(reg.parent_ids[c2.index()], Some(p));
    assert!(reg.children_ids[p.index()].contains(&c1));
    assert!(reg.children_ids[p.index()].contains(&c2));
}

#[test]
fn spawn_takes_lowest_free_slot_and_resets_it() {
    let mut reg = SoARegistry::new();
    let a = reg.spawn(v(1.0, 0.0, 0.0));
    let b = reg.spawn(v(2.0, 0.0, 0.0));
    let c = reg.spawn(v(3.0, 0.0, 0.0));
    assert_eq!((a.0, b.0, c.0), (0, 1, 2));
    reg.health[1] = Scalar(0.25f32.to_bits());
    reg.hierarchy_level[1] = HierarchyLevel::PlatoonCommander;
    reg.despawn(b);
    assert!(!reg.active.contains(1));
    // the columns of a despawned slot keep their values
    assert_eq!(f32::from_bits(reg.health[1].0), 0.25);
    let d = reg.spawn(v(9.0, 8.0, 7.0));
    assert_eq!(d.0, 1);
    assert_eq!(f32::from_bits(reg.positions[1].x.0), 9.0);
    assert_eq!(f32::from_bits(reg.health[1].0), 1.0);
    assert_eq!(f32::from_bits(reg.curiosity[1].0), 0.5);
    assert_eq!(f32::from_bits(reg.hunger[1].0), 0.0);
    assert_eq!(reg.hierarchy_level[1], HierarchyLevel::Soldier);
    assert!(reg.dirty_flag.contains(1));
    assert_eq!(reg.entity_count(), 3);
}

#[test]
fn spawn_on_a_full_registry_returns_none() {
    let mut reg = SoARegistry::new();
    for _ in 0..MAX_ENTITIES {
        let id = reg.spawn(Vec3::zero());
        assert_ne!(id.0, EntityId::none().0);
    }
    assert_eq!(reg.entity_count(), MAX_ENTITIES);
    let id = reg.spawn(Vec3::zero());
    assert_eq!(id.0, u32::MAX);
    assert_eq!(reg.entity_count(), MAX_ENTITIES);
    let id = reg.spawn_with_role(Vec3::zero(), HierarchyLevel::SquadLeader);
    assert_eq!(id.0, u32::MAX);
}

#[test]
fn despawn_of_unknown_or_free_ids_changes_nothing() {
    let mut reg = SoARegistry::new();
    let a = reg.spawn(Vec3::zero());
    reg.despawn(EntityId(5));
    reg.despawn(EntityId(u32::MAX));
    reg.despawn(EntityId(MAX_ENTITIES as u32));
    assert_eq!(reg.entity_count(), 1);
    assert!(reg.active.contains(a.index()));
}

#[test]
fn set_parent_lists_a_child_once_and_ignores_out_of_range() {
    let mut reg = SoARegistry::new();
    let p = reg.spawn_with_role(Vec3::zero(), HierarchyLevel::PlatoonCommander);
    let c = reg.spawn(Vec3::zero());
    assert_eq!(reg.hierarchy_level[p.index()], HierarchyLevel::PlatoonCommander);
    reg.set_parent(c, p);
    reg.set_parent(c, p);
    assert_eq!(reg.children_ids[p.index()], vec![c]);
    reg.set_parent(EntityId(u32::MAX), p);
    assert_eq!(reg.children_ids[p.index()], vec![c, EntityId(u32::MAX)]);
    reg.set_parent(c, EntityId(u32::MAX));
    assert_eq!(reg.parent_ids[c.index()], Some(EntityId(u32::MAX)));
}

#[test]
fn new_registry_is_reset_everywhere() {
    let reg = SoARegistry::new();
    assert_eq!(reg.entity_count(), 0);
    assert_eq!(reg.dirty_flag.count_ones(..), 0);
    assert_eq!(reg.positions.len(), MAX_ENTITIES);
    assert_eq!(reg.rng[7].seed_value(), 7);
    assert!(reg.candidates[3].iter().all(|c| c.is_none()));
    assert!(reg.beliefs[3].iter().is_empty());
    assert_eq!(f32::from_bits(reg.self_preservation[3].0), 0.5);
    assert_eq!(f32::from_bits(reg.ammo[3].0), 1.0);
}

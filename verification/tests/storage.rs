use probable_spork::components::{
    ComponentKind, ComponentValue, MeshInstance, QuatBits, Transform, Vec3Bits, ONE_BITS,
};
use probable_spork::storage::{AccessError, BorrowState, ComponentStorage, Entity, Slot};

fn transform_at(x: f32, y: f32, z: f32) -> Transform {
    Transform {
        position: Vec3Bits { x: x.to_bits(), y: y.to_bits(), z: z.to_bits() },
        rotation: Transform::default().rotation,
    }
}

fn mesh(index: usize, instance: usize) -> MeshInstance {
    MeshInstance { mesh_index: index, mesh_instance_index: instance, local_transform: Transform::default() }
}

#[test]
fn default_transform_is_the_identity() {
    let t = Transform::default();
    assert_eq!(t.position, Vec3Bits { x: 0, y: 0, z: 0 });
    assert_eq!(t.rotation, QuatBits { s: ONE_BITS, v: Vec3Bits { x: 0, y: 0, z: 0 } });
    assert_eq!(f32::from_bits(t.rotation.s), 1.0);
    assert_eq!(f32::from_bits(t.position.x), 0.0);
    let m = MeshInstance::default();
    assert_eq!(m.mesh_index, 0);
    assert_eq!(m.mesh_instance_index, 0);
    assert_eq!(m.local_transform, t);
}

#[test]
fn kind_follows_the_variant() {
    assert_eq!(ComponentValue::Transform(Transform::default()).kind(), ComponentKind::Transform);
    assert_eq!(ComponentValue::MeshInstance(mesh(1, 2)).kind(), ComponentKind::MeshInstance);
}

#[test]
fn entities_are_numbered_in_order_and_never_reused() {
    let mut store = ComponentStorage::new();
    assert_eq!(store.entity_count(), 0);
    let a = store.create_entity();
    let b = store.create_entity();
    let c = store.create_entity();
    assert_eq!(a, Entity(0));
    assert_eq!(b, Entity(1));
    assert_eq!(c, Entity(2));
    assert_eq!(store.entity_count(), 3);
}

#[test]
fn absent_component_is_not_found() {
    let mut store = ComponentStorage::new();
    let e = store.create_entity();
    let r = store.get_entity_component(&e, ComponentKind::Transform);
    assert_eq!(r.err(), Some(AccessError::NotFound));
    let r = store.get_entity_component_mut(&e, ComponentKind::Transform);
    assert_eq!(r.err(), Some(AccessError::NotFound));
    assert_eq!(store.peek(&e, ComponentKind::Transform), Err(AccessError::NotFound));
}

#[test]
fn unknown_entity_is_not_found() {
    let mut store = ComponentStorage::new();
    let e = store.create_entity();
    store.register_component(&e, ComponentValue::Transform(Transform::default()));
    let stranger = Entity(7);
    assert_eq!(store.peek(&stranger, ComponentKind::Transform), Err(AccessError::NotFound));
    assert_eq!(
        store.get_entity_component(&stranger, ComponentKind::Transform).err(),
        Some(AccessError::NotFound)
    );
}

#[test]
fn registered_component_is_read_back() {
    let mut store = ComponentStorage::new();
    let e = store.create_entity();
    let t = transform_at(1.0, 2.0, 3.0);
    store.register_component(&e, ComponentValue::Transform(t));
    let guard = store.get_entity_component(&e, ComponentKind::Transform).unwrap();
    assert_eq!(guard.entity(), e);
    assert_eq!(guard.value(), ComponentValue::Transform(t));
    store.release(guard);
    assert_eq!(store.peek(&e, ComponentKind::Transform), Ok(ComponentValue::Transform(t)));
}

#[test]
fn second_registration_replaces_the_first() {
    let mut store = ComponentStorage::new();
    let e = store.create_entity();
    let v1 = ComponentValue::Transform(transform_at(1.0, 0.0, 0.0));
    let v2 = ComponentValue::Transform(transform_at(2.0, 0.0, 0.0));
    store.register_component(&e, v1);
    store.register_component(&e, v2);
    let guard = store.get_entity_component(&e, ComponentKind::Transform).unwrap();
    assert_eq!(guard.value(), v2);
    store.release(guard);
    let column = store.get_component_vec(ComponentKind::Transform).unwrap();
    assert_eq!(column, vec![Some(Slot { value: v2, borrow: BorrowState::Free })]);
    assert_eq!(store.get_component_vec(ComponentKind::MeshInstance), None);
}

#[test]
fn absence_and_conflict_are_told_apart() {
    let mut store = ComponentStorage::new();
    let bare = store.create_entity();
    let held = store.create_entity();
    store.register_component(&held, ComponentValue::Transform(Transform::default()));
    let writer = store.get_entity_component_mut(&held, ComponentKind::Transform).unwrap();
    let on_bare = store.get_entity_component(&bare, ComponentKind::Transform).err();
    let on_held = store.get_entity_component(&held, ComponentKind::Transform).err();
    assert_eq!(on_bare, Some(AccessError::NotFound));
    assert_eq!(on_held, Some(AccessError::BorrowConflict));
    assert_ne!(on_bare, on_held);
    assert_eq!(store.peek(&held, ComponentKind::Transform), Err(AccessError::BorrowConflict));
    store.release_mut(writer);
    assert!(store.get_entity_component(&held, ComponentKind::Transform).is_ok());
}

#[test]
fn absent_slot_differs_from_default_slot() {
    let mut store = ComponentStorage::new();
    let with_default = store.create_entity();
    let without = store.create_entity();
    store.register_component(&with_default, ComponentValue::Transform(Transform::default()));
    assert_eq!(
        store.peek(&with_default, ComponentKind::Transform),
        Ok(ComponentValue::Transform(Transform::default()))
    );
    assert_eq!(store.peek(&without, ComponentKind::Transform), Err(AccessError::NotFound));
    let column = store.get_component_vec(ComponentKind::Transform).unwrap();
    assert_eq!(column.len(), 2);
    assert!(column[0].is_some());
    assert!(column[1].is_none());
}

#[test]
fn many_readers_are_admitted_and_counted() {
    let mut store = ComponentStorage::new();
    let e = store.create_entity();
    let v = ComponentValue::MeshInstance(mesh(3, 4));
    store.register_component(&e, v);
    let r1 = store.get_entity_component(&e, ComponentKind::MeshInstance).unwrap();
    let r2 = store.get_entity_component(&e, ComponentKind::MeshInstance).unwrap();
    let r3 = store.get_entity_component(&e, ComponentKind::MeshInstance).unwrap();
    assert_eq!(r1.value(), v);
    assert_eq!(r2.value(), v);
    assert_eq!(r3.value(), v);
    let column = store.get_component_vec(ComponentKind::MeshInstance).unwrap();
    assert_eq!(column[0], Some(Slot { value: v, borrow: BorrowState::Shared(3) }));
    store.release(r1);
    store.release(r2);
    let column = store.get_component_vec(ComponentKind::MeshInstance).unwrap();
    assert_eq!(column[0], Some(Slot { value: v, borrow: BorrowState::Shared(1) }));
    store.release(r3);
    let column = store.get_component_vec(ComponentKind::MeshInstance).unwrap();
    assert_eq!(column[0], Some(Slot { value: v, borrow: BorrowState::Free }));
}

#[test]
fn writer_is_refused_while_readers_hold_the_slot() {
    let mut store = ComponentStorage::new();
    let e = store.create_entity();
    store.register_component(&e, ComponentValue::Transform(Transform::default()));
    let reader = store.get_entity_component(&e, ComponentKind::Transform).unwrap();
    assert_eq!(
        store.get_entity_component_mut(&e, ComponentKind::Transform).err(),
        Some(AccessError::BorrowConflict)
    );
    store.release(reader);
    let writer = store.get_entity_component_mut(&e, ComponentKind::Transform).unwrap();
    assert_eq!(
        store.get_entity_component_mut(&e, ComponentKind::Transform).err(),
        Some(AccessError::BorrowConflict)
    );
    store.release_mut(writer);
}

#[test]
fn borrows_of_other_slots_do_not_conflict() {
    let mut store = ComponentStorage::new();
    let a = store.create_entity();
    let b = store.create_entity();
    store.register_component(&a, ComponentValue::Transform(Transform::default()));
    store.register_component(&a, ComponentValue::MeshInstance(mesh(0, 0)));
    store.register_component(&b, ComponentValue::Transform(Transform::default()));
    let w = store.get_entity_component_mut(&a, ComponentKind::Transform).unwrap();
    assert!(store.get_entity_component_mut(&a, ComponentKind::MeshInstance).is_ok());
    assert!(store.get_entity_component_mut(&b, ComponentKind::Transform).is_ok());
    store.release_mut(w);
}

#[test]
fn exclusive_borrow_stores_its_value_on_release() {
    let mut store = ComponentStorage::new();
    let e = store.create_entity();
    store.register_component(&e, ComponentValue::Transform(transform_at(0.0, 0.0, 0.0)));
    let mut writer = store.get_entity_component_mut(&e, ComponentKind::Transform).unwrap();
    assert_eq!(writer.entity(), e);
    assert_eq!(writer.value(), ComponentValue::Transform(transform_at(0.0, 0.0, 0.0)));
    let next = ComponentValue::Transform(transform_at(9.0, 8.0, 7.0));
    assert!(writer.set(next));
    assert_eq!(writer.value(), next);
    store.release_mut(writer);
    assert_eq!(store.peek(&e, ComponentKind::Transform), Ok(next));
}

#[test]
fn exclusive_borrow_refuses_a_value_of_another_kind() {
    let mut store = ComponentStorage::new();
    let e = store.create_entity();
    let t = ComponentValue::Transform(transform_at(1.0, 1.0, 1.0));
    store.register_component(&e, t);
    let mut writer = store.get_entity_component_mut(&e, ComponentKind::Transform).unwrap();
    assert!(!writer.set(ComponentValue::MeshInstance(mesh(1, 1))));
    assert_eq!(writer.value(), t);
    store.release_mut(writer);
    assert_eq!(store.peek(&e, ComponentKind::Transform), Ok(t));
    assert_eq!(store.peek(&e, ComponentKind::MeshInstance), Err(AccessError::NotFound));
}

#[test]
fn component_vec_is_unknown_until_first_registration() {
    let mut store = ComponentStorage::new();
    let a = store.create_entity();
    let _b = store.create_entity();
    assert_eq!(store.get_component_vec(ComponentKind::MeshInstance), None);
    let v = ComponentValue::MeshInstance(mesh(5, 6));
    store.register_component(&a, v);
    assert_eq!(
        store.get_component_vec(ComponentKind::MeshInstance),
        Some(vec![Some(Slot { value: v, borrow: BorrowState::Free }), None])
    );
}

#[test]
fn new_entity_extends_every_known_column() {
    let mut store = ComponentStorage::new();
    let a = store.create_entity();
    store.register_component(&a, ComponentValue::Transform(Transform::default()));
    store.register_component(&a, ComponentValue::MeshInstance(mesh(0, 0)));
    let b = store.create_entity();
    assert_eq!(store.get_component_vec(ComponentKind::Transform).unwrap().len(), 2);
    assert_eq!(store.get_component_vec(ComponentKind::MeshInstance).unwrap().len(), 2);
    assert_eq!(store.peek(&b, ComponentKind::Transform), Err(AccessError::NotFound));
    assert_eq!(store.peek(&b, ComponentKind::MeshInstance), Err(AccessError::NotFound));
    assert!(store.peek(&a, ComponentKind::Transform).is_ok());
}

#[test]
fn registration_for_an_unknown_entity_changes_nothing() {
    let mut store = ComponentStorage::new();
    let _a = store.create_entity();
    store.register_component(&Entity(3), ComponentValue::Transform(Transform::default()));
    assert_eq!(store.get_component_vec(ComponentKind::Transform), None);
    assert_eq!(store.entity_count(), 1);
}

#[test]
fn registration_keeps_the_access_state_of_the_slot() {
    let mut store = ComponentStorage::new();
    let e = store.create_entity();
    store.register_component(&e, ComponentValue::Transform(transform_at(1.0, 0.0, 0.0)));
    let reader = store.get_entity_component(&e, ComponentKind::Transform).unwrap();
    let v2 = ComponentValue::Transform(transform_at(2.0, 0.0, 0.0));
    store.register_component(&e, v2);
    let column = store.get_component_vec(ComponentKind::Transform).unwrap();
    assert_eq!(column[0], Some(Slot { value: v2, borrow: BorrowState::Shared(1) }));
    store.release(reader);
    let column = store.get_component_vec(ComponentKind::Transform).unwrap();
    assert_eq!(column[0], Some(Slot { value: v2, borrow: BorrowState::Free }));
}

#[test]
fn releasing_into_a_slot_that_is_not_held_changes_nothing() {
    let mut store = ComponentStorage::new();
    let mut other = ComponentStorage::new();
    let e = store.create_entity();
    let f = other.create_entity();
    let kept = ComponentValue::Transform(transform_at(1.0, 1.0, 1.0));
    store.register_component(&e, kept);
    other.register_component(&f, ComponentValue::Transform(transform_at(2.0, 2.0, 2.0)));
    let foreign = other.get_entity_component_mut(&f, ComponentKind::Transform).unwrap();
    store.release_mut(foreign);
    assert_eq!(store.peek(&e, ComponentKind::Transform), Ok(kept));
}

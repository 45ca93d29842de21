use std::cell::RefCell;
use std::rc::Rc;

use probable_spork::components::{ComponentKind, ComponentValue, MeshInstance, Transform, Vec3Bits};
use probable_spork::scene::Scene;
use probable_spork::script::{
    accepted, copy_fields, same_descriptor, BoxedScript, Script, ScriptComponentUpdater, ScriptInstance,
};
use probable_spork::storage::{AccessError, BorrowState, Component, ComponentStorage, Entity, Slot};

fn transform_at(x: f32, y: f32, z: f32) -> Transform {
    Transform {
        position: Vec3Bits { x: x.to_bits(), y: y.to_bits(), z: z.to_bits() },
        rotation: Transform::default().rotation,
    }
}

fn position_of(value: &ComponentValue) -> (f32, f32, f32) {
    match value {
        ComponentValue::Transform(t) => (
            f32::from_bits(t.position.x),
            f32::from_bits(t.position.y),
            f32::from_bits(t.position.z),
        ),
        ComponentValue::MeshInstance(_) => panic!("not a transform"),
    }
}

fn boxed<S: Script + 'static>(script: S) -> BoxedScript {
    BoxedScript { script: Box::new(script) }
}

/// Does nothing at all.
struct Idle;

impl Script for Idle {
    fn script_setup(&mut self, _fields: &mut Vec<ComponentValue>) {}

    fn script_update(&mut self, _fields: &mut Vec<ComponentValue>) {}
}

/// Sets the x coordinate of its first field in the frames listed.
struct SetX {
    frame: u32,
    on_frames: Vec<u32>,
    x: f32,
}

impl Script for SetX {
    fn script_setup(&mut self, _fields: &mut Vec<ComponentValue>) {}

    fn script_update(&mut self, fields: &mut Vec<ComponentValue>) {
        self.frame += 1;
        if self.on_frames.contains(&self.frame) {
            if let ComponentValue::Transform(t) = &mut fields[0] {
                t.position.x = self.x.to_bits();
            }
        }
    }
}

/// Moves in setup, and notes every call.
struct Noting {
    name: u32,
    log: Rc<RefCell<Vec<(u32, &'static str)>>>,
}

impl Script for Noting {
    fn script_setup(&mut self, fields: &mut Vec<ComponentValue>) {
        self.log.borrow_mut().push((self.name, "setup"));
        if let Some(ComponentValue::Transform(t)) = fields.get_mut(0) {
            t.position.x = 4.5f32.to_bits();
        }
    }

    fn script_update(&mut self, _fields: &mut Vec<ComponentValue>) {
        self.log.borrow_mut().push((self.name, "update"));
    }
}

/// Hands back fields of another descriptor.
struct Reshaper;

impl Script for Reshaper {
    fn script_setup(&mut self, fields: &mut Vec<ComponentValue>) {
        fields.clear();
    }

    fn script_update(&mut self, fields: &mut Vec<ComponentValue>) {
        fields[0] = ComponentValue::MeshInstance(MeshInstance::default());
    }
}

fn one_transform(x: f32, y: f32, z: f32) -> Vec<ComponentValue> {
    vec![ComponentValue::Transform(transform_at(x, y, z))]
}

#[test]
fn pre_setup_binds_the_script_and_seeds_the_store() {
    let mut store = ComponentStorage::new();
    let _first = store.create_entity();
    let e = store.create_entity();
    let fields = vec![
        ComponentValue::Transform(transform_at(1.0, 2.0, 3.0)),
        ComponentValue::MeshInstance(MeshInstance::default()),
    ];
    let mut script = ScriptInstance::new(fields.clone(), boxed(Idle));
    assert_eq!(script.entity(), Entity(0));
    script.pre_setup(e, &mut store);
    assert_eq!(script.entity(), e);
    assert_eq!(script.fields(), &fields);
    assert_eq!(store.peek(&e, ComponentKind::Transform), Ok(fields[0]));
    assert_eq!(store.peek(&e, ComponentKind::MeshInstance), Ok(fields[1]));
    assert_eq!(store.peek(&Entity(0), ComponentKind::Transform), Err(AccessError::NotFound));
    assert_eq!(script.descriptor(), vec![ComponentKind::Transform, ComponentKind::MeshInstance]);
}

#[test]
fn sync_of_equal_values_writes_nothing() {
    let mut store = ComponentStorage::new();
    let e = store.create_entity();
    let mut script = ScriptInstance::new(one_transform(1.0, 2.0, 3.0), boxed(Idle));
    script.pre_setup(e, &mut store);
    let before = store.get_component_vec(ComponentKind::Transform);
    let pulled = script.pre_user_update(&store);
    let written = script.post_user_update(&mut store);
    assert_eq!(pulled, 0);
    assert_eq!(written, 0);
    assert_eq!(store.get_component_vec(ComponentKind::Transform), before);
    assert_eq!(script.fields(), &one_transform(1.0, 2.0, 3.0));
}

#[test]
fn outside_write_reaches_the_script_on_pull() {
    let mut scene = Scene::new();
    let e = scene.create_entity();
    let mut script = ScriptInstance::new(one_transform(0.0, 0.0, 0.0), boxed(Idle));
    script.pre_setup(e, &mut scene.component_storage);
    let x = ComponentValue::Transform(transform_at(7.0, 8.0, 9.0));
    assert_eq!(scene.update_entity_component(&e, x), Ok(()));
    let pulled = script.pre_user_update(&scene.component_storage);
    assert_eq!(pulled, 1);
    assert_eq!(script.fields(), &vec![x]);
    assert_eq!(script.post_user_update(&mut scene.component_storage), 0);
}

#[test]
fn changed_field_is_published() {
    let mut store = ComponentStorage::new();
    let e = store.create_entity();
    let mut script = ScriptInstance::new(one_transform(0.0, 0.0, 0.0), boxed(Idle));
    script.pre_setup(e, &mut store);
    let y = one_transform(3.0, 2.0, 1.0);
    let mut authored = ScriptInstance::new(y.clone(), boxed(Idle));
    authored.pre_setup(e, &mut ComponentStorage::new());
    let written = authored.post_user_update(&mut store);
    assert_eq!(written, 1);
    assert_eq!(store.peek(&e, ComponentKind::Transform), Ok(y[0]));
}

#[test]
fn missing_component_on_pull_leaves_the_field() {
    let mut store = ComponentStorage::new();
    let e = store.create_entity();
    let mut script = ScriptInstance::new(one_transform(1.0, 1.0, 1.0), boxed(Idle));
    script.pre_setup(e, &mut ComponentStorage::new());
    assert_eq!(store.peek(&e, ComponentKind::Transform), Err(AccessError::NotFound));
    assert_eq!(script.pre_user_update(&store), 0);
    assert_eq!(script.fields(), &one_transform(1.0, 1.0, 1.0));
    assert_eq!(script.post_user_update(&mut store), 0);
    assert_eq!(store.get_component_vec(ComponentKind::Transform), None);
}

#[test]
fn held_slot_is_skipped_by_the_publish() {
    let mut store = ComponentStorage::new();
    let e = store.create_entity();
    let old = ComponentValue::Transform(transform_at(0.0, 0.0, 0.0));
    store.register_component(&e, old);
    let mut script = ScriptInstance::new(one_transform(5.0, 5.0, 5.0), boxed(Idle));
    script.pre_setup(e, &mut ComponentStorage::new());
    let script_entity = script.entity();
    assert_eq!(script_entity, e);
    let reader = store.get_entity_component(&e, ComponentKind::Transform).unwrap();
    assert_eq!(script.post_user_update(&mut store), 0);
    let column = store.get_component_vec(ComponentKind::Transform).unwrap();
    assert_eq!(column[0], Some(Slot { value: old, borrow: BorrowState::Shared(1) }));
    store.release(reader);
    assert_eq!(script.post_user_update(&mut store), 1);
    assert_eq!(store.peek(&e, ComponentKind::Transform), Ok(one_transform(5.0, 5.0, 5.0)[0]));
}

#[test]
fn exclusively_held_slot_is_skipped_by_the_pull() {
    let mut store = ComponentStorage::new();
    let e = store.create_entity();
    store.register_component(&e, ComponentValue::Transform(transform_at(9.0, 9.0, 9.0)));
    let mut script = ScriptInstance::new(one_transform(1.0, 1.0, 1.0), boxed(Idle));
    script.pre_setup(e, &mut ComponentStorage::new());
    let writer = store.get_entity_component_mut(&e, ComponentKind::Transform).unwrap();
    assert_eq!(script.pre_user_update(&store), 0);
    assert_eq!(script.fields(), &one_transform(1.0, 1.0, 1.0));
    store.release_mut(writer);
    assert_eq!(script.pre_user_update(&store), 1);
    assert_eq!(script.fields(), &one_transform(9.0, 9.0, 9.0));
}

#[test]
fn of_two_fields_of_one_kind_the_last_is_published() {
    let mut store = ComponentStorage::new();
    let e = store.create_entity();
    let fields = vec![
        ComponentValue::Transform(transform_at(1.0, 0.0, 0.0)),
        ComponentValue::Transform(transform_at(2.0, 0.0, 0.0)),
    ];
    let mut script = ScriptInstance::new(fields.clone(), boxed(Idle));
    script.pre_setup(e, &mut store);
    assert_eq!(store.peek(&e, ComponentKind::Transform), Ok(fields[1]));
    assert_eq!(script.post_user_update(&mut store), 2);
    assert_eq!(store.peek(&e, ComponentKind::Transform), Ok(fields[1]));
    assert_eq!(script.pre_user_update(&store), 1);
    assert_eq!(script.fields(), &vec![fields[1], fields[1]]);
    assert_eq!(script.post_user_update(&mut store), 0);
}

#[test]
fn unchanged_script_writes_nothing_over_two_frames() {
    let mut scene = Scene::new();
    let e = scene.create_entity();
    let script = ScriptInstance::new(
        one_transform(0.0, 0.0, 0.0),
        boxed(SetX { frame: 0, on_frames: vec![1], x: 2.5 }),
    );
    scene.add_script_to_entity(&e, script);
    scene.setup_components();
    scene.update_components();
    let after_first = scene.component_storage.get_component_vec(ComponentKind::Transform);
    assert_eq!(
        scene.component_storage.peek(&e, ComponentKind::Transform),
        Ok(one_transform(2.5, 0.0, 0.0)[0])
    );
    scene.update_components();
    assert_eq!(scene.component_storage.get_component_vec(ComponentKind::Transform), after_first);
    scene.update_components();
    assert_eq!(scene.component_storage.get_component_vec(ComponentKind::Transform), after_first);
    let mut probe = ScriptInstance::new(
        scene.component_storage.script_fields(&e).unwrap(),
        boxed(Idle),
    );
    probe.pre_setup(e, &mut ComponentStorage::new());
    assert_eq!(probe.pre_user_update(&scene.component_storage), 0);
    assert_eq!(probe.post_user_update(&mut scene.component_storage), 0);
}

#[test]
fn end_to_end_position_scenario() {
    let mut scene = Scene::new();
    let e = scene.create_entity();
    let script = ScriptInstance::new(
        one_transform(0.0, 0.0, 0.0),
        boxed(SetX { frame: 0, on_frames: vec![1], x: 5.0 }),
    );
    scene.add_script_to_entity(&e, script);
    let seeded = scene.component_storage.peek(&e, ComponentKind::Transform).unwrap();
    assert_eq!(position_of(&seeded), (0.0, 0.0, 0.0));

    scene.update_components();
    let after_first = scene.component_storage.peek(&e, ComponentKind::Transform).unwrap();
    assert_eq!(position_of(&after_first), (5.0, 0.0, 0.0));

    let outside = ComponentValue::Transform(transform_at(5.0, 1.0, 0.0));
    assert_eq!(scene.update_entity_component(&e, outside), Ok(()));
    let mut probe = ScriptInstance::new(
        scene.component_storage.script_fields(&e).unwrap(),
        boxed(Idle),
    );
    probe.pre_setup(e, &mut ComponentStorage::new());
    assert_eq!(probe.pre_user_update(&scene.component_storage), 1);
    assert_eq!(position_of(&probe.fields()[0]), (5.0, 1.0, 0.0));
    assert_eq!(probe.post_user_update(&mut scene.component_storage), 0);

    let before_second = scene.component_storage.get_component_vec(ComponentKind::Transform);
    scene.update_components();
    assert_eq!(scene.component_storage.get_component_vec(ComponentKind::Transform), before_second);
    let private = scene.component_storage.script_fields(&e).unwrap();
    assert_eq!(position_of(&private[0]), (5.0, 1.0, 0.0));
    let stored = scene.component_storage.peek(&e, ComponentKind::Transform).unwrap();
    assert_eq!(position_of(&stored), (5.0, 1.0, 0.0));
}

#[test]
fn setup_runs_user_setup_and_publishes() {
    let log = Rc::new(RefCell::new(Vec::new()));
    let mut scene = Scene::new();
    let e = scene.create_entity();
    let script = ScriptInstance::new(
        one_transform(0.0, 0.0, 0.0),
        boxed(Noting { name: 1, log: log.clone() }),
    );
    scene.add_script_to_entity(&e, script);
    assert!(scene.component_storage.has_script(&e));
    scene.setup_components();
    assert_eq!(*log.borrow(), vec![(1, "setup")]);
    assert_eq!(
        scene.component_storage.peek(&e, ComponentKind::Transform),
        Ok(one_transform(4.5, 0.0, 0.0)[0])
    );
    scene.update_components();
    assert_eq!(*log.borrow(), vec![(1, "setup"), (1, "update")]);
}

#[test]
fn hooks_run_once_per_script_in_entity_order() {
    let log = Rc::new(RefCell::new(Vec::new()));
    let mut scene = Scene::new();
    let a = scene.create_entity();
    let b = scene.create_entity();
    let c = scene.create_entity();
    scene.add_script_to_entity(&c, ScriptInstance::new(vec![], boxed(Noting { name: 3, log: log.clone() })));
    scene.add_script_to_entity(&a, ScriptInstance::new(vec![], boxed(Noting { name: 1, log: log.clone() })));
    assert!(!scene.component_storage.has_script(&b));
    scene.setup_components();
    scene.update_components();
    scene.update_components();
    assert_eq!(
        *log.borrow(),
        vec![(1, "setup"), (3, "setup"), (1, "update"), (3, "update"), (1, "update"), (3, "update")]
    );
}

#[test]
fn fields_of_another_descriptor_are_discarded() {
    let mut scene = Scene::new();
    let e = scene.create_entity();
    let fields = one_transform(1.0, 2.0, 3.0);
    scene.add_script_to_entity(&e, ScriptInstance::new(fields.clone(), boxed(Reshaper)));
    scene.setup_components();
    assert_eq!(scene.component_storage.script_fields(&e), Some(fields.clone()));
    scene.update_components();
    assert_eq!(scene.component_storage.script_fields(&e), Some(fields.clone()));
    assert_eq!(scene.component_storage.peek(&e, ComponentKind::Transform), Ok(fields[0]));
    assert_eq!(scene.component_storage.peek(&e, ComponentKind::MeshInstance), Err(AccessError::NotFound));
}

#[test]
fn script_hooks_frame_the_user_code() {
    let mut store = ComponentStorage::new();
    let e = store.create_entity();
    let mut script = ScriptInstance::new(
        one_transform(0.0, 0.0, 0.0),
        boxed(SetX { frame: 0, on_frames: vec![2], x: 6.0 }),
    );
    script.pre_setup(e, &mut store);
    script.setup(&mut store);
    script.update(&mut store);
    assert_eq!(store.peek(&e, ComponentKind::Transform), Ok(one_transform(0.0, 0.0, 0.0)[0]));
    store.register_component(&e, ComponentValue::Transform(transform_at(0.0, 3.0, 0.0)));
    script.update(&mut store);
    assert_eq!(store.peek(&e, ComponentKind::Transform), Ok(one_transform(6.0, 3.0, 0.0)[0]));
    assert_eq!(script.fields(), &one_transform(6.0, 3.0, 0.0));
}

#[test]
fn data_components_have_idle_hooks() {
    let mut store = ComponentStorage::new();
    let e = store.create_entity();
    let mut t = transform_at(1.0, 2.0, 3.0);
    store.register_component(&e, ComponentValue::Transform(t));
    t.setup(&mut store);
    t.update(&mut store);
    assert_eq!(t, transform_at(1.0, 2.0, 3.0));
    let mut m = MeshInstance::default();
    m.setup(&mut store);
    m.update(&mut store);
    assert_eq!(m, MeshInstance::default());
    assert_eq!(store.peek(&e, ComponentKind::Transform), Ok(ComponentValue::Transform(t)));
    assert_eq!(store.entity_count(), 1);
}

#[test]
fn script_registered_for_another_entity_is_not_stored() {
    let mut store = ComponentStorage::new();
    let a = store.create_entity();
    let b = store.create_entity();
    let mut script = ScriptInstance::new(vec![], boxed(Idle));
    script.pre_setup(a, &mut store);
    store.register_script(&b, script);
    assert!(!store.has_script(&a));
    assert!(!store.has_script(&b));
    let mut script = ScriptInstance::new(vec![], boxed(Idle));
    script.pre_setup(b, &mut store);
    store.register_script(&b, script);
    assert!(store.has_script(&b));
    assert_eq!(store.script_fields(&b), Some(vec![]));
    assert_eq!(store.script_fields(&a), None);
    assert!(!store.has_script(&Entity(9)));
}

#[test]
fn field_helpers_copy_and_compare_descriptors() {
    let a = vec![
        ComponentValue::Transform(transform_at(1.0, 0.0, 0.0)),
        ComponentValue::MeshInstance(MeshInstance::default()),
    ];
    let b = vec![
        ComponentValue::Transform(transform_at(2.0, 0.0, 0.0)),
        ComponentValue::MeshInstance(MeshInstance::default()),
    ];
    let c = vec![ComponentValue::Transform(transform_at(1.0, 0.0, 0.0))];
    let d = vec![
        ComponentValue::MeshInstance(MeshInstance::default()),
        ComponentValue::Transform(transform_at(1.0, 0.0, 0.0)),
    ];
    assert_eq!(copy_fields(&a), a);
    assert!(same_descriptor(&a, &b));
    assert!(!same_descriptor(&a, &c));
    assert!(!same_descriptor(&a, &d));
}

#[test]
fn frame_skips_a_held_component_and_catches_up_later() {
    let mut scene = Scene::new();
    let e = scene.create_entity();
    let script = ScriptInstance::new(
        one_transform(0.0, 0.0, 0.0),
        boxed(SetX { frame: 0, on_frames: vec![1], x: 8.0 }),
    );
    scene.add_script_to_entity(&e, script);
    let writer = scene.component_storage.get_entity_component_mut(&e, ComponentKind::Transform).unwrap();
    scene.update_components();
    let column = scene.component_storage.get_component_vec(ComponentKind::Transform).unwrap();
    assert_eq!(
        column[0],
        Some(Slot { value: one_transform(0.0, 0.0, 0.0)[0], borrow: BorrowState::Exclusive })
    );
    assert_eq!(scene.component_storage.script_fields(&e), Some(one_transform(8.0, 0.0, 0.0)));
    scene.component_storage.release_mut(writer);
    scene.update_components();
    assert_eq!(
        scene.component_storage.peek(&e, ComponentKind::Transform),
        Ok(one_transform(0.0, 0.0, 0.0)[0])
    );
    assert_eq!(scene.component_storage.script_fields(&e), Some(one_transform(0.0, 0.0, 0.0)));
}

#[test]
fn setup_pulls_an_outside_write_before_user_setup_runs() {
    let mut scene = Scene::new();
    let e = scene.create_entity();
    scene.add_script_to_entity(&e, ScriptInstance::new(one_transform(0.0, 0.0, 0.0), boxed(Idle)));
    let x = ComponentValue::Transform(transform_at(7.0, 8.0, 9.0));
    assert_eq!(scene.update_entity_component(&e, x), Ok(()));
    scene.setup_components();
    assert_eq!(scene.component_storage.script_fields(&e), Some(vec![x]));
    assert_eq!(scene.component_storage.peek(&e, ComponentKind::Transform), Ok(x));
}

#[test]
fn user_setup_works_on_the_pulled_fields() {
    let log = Rc::new(RefCell::new(Vec::new()));
    let mut store = ComponentStorage::new();
    let e = store.create_entity();
    let mut script = ScriptInstance::new(one_transform(0.0, 0.0, 0.0), boxed(Noting { name: 1, log }));
    script.pre_setup(e, &mut store);
    store.register_component(&e, ComponentValue::Transform(transform_at(1.0, 2.0, 3.0)));
    script.setup(&mut store);
    assert_eq!(script.fields(), &one_transform(4.5, 2.0, 3.0));
    assert_eq!(store.peek(&e, ComponentKind::Transform), Ok(one_transform(4.5, 2.0, 3.0)[0]));
}

#[test]
fn edited_fields_are_kept_unless_their_descriptor_changed() {
    let handed = vec![
        ComponentValue::Transform(transform_at(1.0, 0.0, 0.0)),
        ComponentValue::MeshInstance(MeshInstance::default()),
    ];
    let edited = vec![
        ComponentValue::Transform(transform_at(2.0, 0.0, 0.0)),
        ComponentValue::MeshInstance(MeshInstance::default()),
    ];
    let shorter = one_transform(2.0, 0.0, 0.0);
    let swapped = vec![edited[1], edited[0]];
    assert_eq!(accepted(handed.clone(), edited.clone()), edited);
    assert_eq!(accepted(handed.clone(), shorter), handed);
    assert_eq!(accepted(handed.clone(), swapped), handed);
    assert_eq!(accepted(handed.clone(), vec![]), handed);
    assert_eq!(accepted(vec![], vec![]), vec![]);
}

#[test]
fn stored_script_is_the_one_given_last() {
    let log = Rc::new(RefCell::new(Vec::new()));
    let mut scene = Scene::new();
    let e = scene.create_entity();
    scene.add_script_to_entity(
        &e,
        ScriptInstance::new(one_transform(1.0, 0.0, 0.0), boxed(Noting { name: 1, log: log.clone() })),
    );
    scene.add_script_to_entity(
        &e,
        ScriptInstance::new(one_transform(2.0, 0.0, 0.0), boxed(Noting { name: 2, log: log.clone() })),
    );
    assert_eq!(scene.component_storage.script_fields(&e), Some(one_transform(2.0, 0.0, 0.0)));
    scene.update_components();
    assert_eq!(*log.borrow(), vec![(2, "update")]);
}

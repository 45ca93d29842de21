//! The scene: owner of the component store and driver of the frame lifecycle.
use vstd::prelude::*;
use crate::components::{ComponentKind, ComponentValue, MeshInstance, Transform};
use crate::script::{
    framed, lemma_published_shape, lemma_registered_shape, published, registered, same_descriptors,
    ScriptComponentUpdater, ScriptInstance,
};
use crate::model::{lemma_with_slot_reads, lemma_with_slot_twice, StorageView};
use crate::storage::{AccessError, BorrowState, ComponentStorage, Entity, Slot};

verus! {

/// A mesh instance together with the transform of the entity it belongs to,
/// where that entity has one that can be read.
#[derive(Clone, Copy, PartialEq, Eq, Structural, Debug)]
pub struct MeshPlacement {
    pub entity: Entity,
    pub instance: MeshInstance,
    pub parent: Option<Transform>,
}

/// The transform of `entity`, where it has one and a reader is admitted to it.
pub open spec fn parent_of(v: StorageView, entity: int) -> Option<Transform> {
    match v.read(ComponentKind::Transform, entity) {
        Ok(ComponentValue::Transform(t)) => Some(t),
        _ => None,
    }
}

/// The placements of the readable mesh instances of the first `upto` entities,
/// in the order of the entities.
pub open spec fn placements(v: StorageView, upto: int) -> Seq<MeshPlacement>
    decreases upto,
{
    if upto <= 0 {
        Seq::empty()
    } else {
        let before = placements(v, upto - 1);
        match v.read(ComponentKind::MeshInstance, upto - 1) {
            Ok(ComponentValue::MeshInstance(m)) => before.push(
                MeshPlacement {
                    entity: Entity((upto - 1) as u32),
                    instance: m,
                    parent: parent_of(v, upto - 1),
                },
            ),
            _ => before,
        }
    }
}

/// The scene: the component store, the entities in it and their scripts.
pub struct Scene {
    pub component_storage: ComponentStorage,
}

impl Scene {
    /// The scene's invariant is that of its store.
    pub open spec fn wf(&self) -> bool {
        self.component_storage.wf()
    }

    /// A scene without entities.
    pub fn new() -> (r: Scene)
        ensures
            r.wf(),
            r.component_storage@ == StorageView::empty(),
            r.component_storage.scripts() == Seq::<Option<Seq<ComponentValue>>>::empty(),
    {
        Scene { component_storage: ComponentStorage::new() }
    }

    /// Runs every script's setup hook once.
    pub fn setup_components(&mut self)
        requires
            old(self).wf(),
        ensures
            final(self).wf(),
            final(self).component_storage@ == framed(
                old(self).component_storage@,
                final(self).component_storage.scripts(),
                old(self).component_storage@.entities as int,
            ),
            final(self).component_storage@.entities == old(self).component_storage@.entities,
            same_descriptors(
                final(self).component_storage.scripts(),
                old(self).component_storage.scripts(),
            ),
    {
        self.component_storage.setup_components();
    }

    /// Runs one frame: every script's update hook.
    pub fn update_components(&mut self)
        requires
            old(self).wf(),
        ensures
            final(self).wf(),
            final(self).component_storage@ == framed(
                old(self).component_storage@,
                final(self).component_storage.scripts(),
                old(self).component_storage@.entities as int,
            ),
            final(self).component_storage@.entities == old(self).component_storage@.entities,
            same_descriptors(
                final(self).component_storage.scripts(),
                old(self).component_storage.scripts(),
            ),
    {
        self.component_storage.update_components();
    }

    /// Creates an entity.
    pub fn create_entity(&mut self) -> (e: Entity)
        requires
            old(self).wf(),
            old(self).component_storage@.entities < u32::MAX,
        ensures
            final(self).wf(),
            final(self).component_storage@ == old(self).component_storage@.spawn(),
            final(self).component_storage.script_column() == old(self).component_storage.script_column().push(None),
            final(self).component_storage.scripts() == old(self).component_storage.scripts().push(None),
            e.0 == old(self).component_storage@.entities,
    {
        self.component_storage.create_entity()
    }

    /// Registers `component` for `entity`, in place of one of its kind already
    /// there.
    pub fn add_component_to_entity(&mut self, entity: &Entity, component: ComponentValue)
        requires
            old(self).wf(),
        ensures
            final(self).wf(),
            final(self).component_storage@ == old(self).component_storage@.register(
                entity.0 as int,
                component,
            ),
            final(self).component_storage.script_column() == old(self).component_storage.script_column(),
    {
        self.component_storage.register_component(entity, component);
    }

    /// Overwrites the component of `entity` of the kind of `component`, as an
    /// outside writer does. The write needs exclusive access: where the entity
    /// has no such component, or the slot is held, nothing changes and the
    /// answer says which.
    pub fn update_entity_component(&mut self, entity: &Entity, component: ComponentValue) -> (r: Result<
        (),
        AccessError,
    >)
        requires
            old(self).wf(),
        ensures
            final(self).wf(),
            final(self).component_storage@ == old(self).component_storage@.write(
                entity.0 as int,
                component,
            ),
            final(self).component_storage.script_column() == old(self).component_storage.script_column(),
            match old(self).component_storage@.claim(component.kind(), entity.0 as int) {
                Ok(_) => r == Ok::<(), AccessError>(()),
                Err(e) => r == Err::<(), AccessError>(e),
            },
    {
        let ghost v = self.component_storage@;
        proof {
            self.component_storage.lemma_wf_model();
        }
        match self.component_storage.get_entity_component_mut(entity, component.kind()) {
            Ok(mut guard) => {
                proof {
                    let s = v.slot(component.kind(), entity.0 as int).unwrap();
                    let held = Some(Slot { value: s.value, borrow: BorrowState::Exclusive });
                    lemma_with_slot_reads(
                        v,
                        component.kind(),
                        entity.0 as int,
                        held,
                        component.kind(),
                        entity.0 as int,
                    );
                    lemma_with_slot_twice(
                        v,
                        component.kind(),
                        entity.0 as int,
                        held,
                        Some(Slot { value: component, borrow: BorrowState::Free }),
                    );
                }
                guard.set(component);
                self.component_storage.release_mut(guard);
                Ok(())
            },
            Err(e) => Err(e),
        }
    }

    /// The readable mesh instances of the scene, each with the transform of its
    /// entity where that can be read, in the order of the entities. A mesh
    /// instance without such a transform is placed by its own.
    pub fn get_mesh_instances(&self) -> (r: Vec<MeshPlacement>)
        requires
            self.wf(),
        ensures
            r@ == placements(self.component_storage@, self.component_storage@.entities as int),
    {
        let mut out: Vec<MeshPlacement> = Vec::new();
        let n: u32 = self.component_storage.entity_count();
        let mut e: u32 = 0;
        while e < n
            invariant
                self.wf(),
                e <= n,
                n == self.component_storage@.entities,
                out@ == placements(self.component_storage@, e as int),
            decreases n - e,
        {
            let entity = Entity(e);
            match self.component_storage.peek(&entity, ComponentKind::MeshInstance) {
                Ok(ComponentValue::MeshInstance(m)) => {
                    let parent = match self.component_storage.peek(&entity, ComponentKind::Transform) {
                        Ok(ComponentValue::Transform(t)) => Some(t),
                        _ => None,
                    };
                    out.push(MeshPlacement { entity, instance: m, parent });
                },
                _ => {},
            }
            e += 1;
        }
        out
    }

    /// Attaches `script` to `entity`: the script is bound to the entity, its
    /// fields seed the store and are published once, and the script, with its
    /// fields and behaviour as given, is stored as the entity's script.
    pub fn add_script_to_entity(&mut self, entity: &Entity, script: ScriptInstance)
        requires
            old(self).wf(),
        ensures
            final(self).wf(),
            final(self).component_storage@ == published(
                script.spec_fields(),
                entity.0 as int,
                registered(script.spec_fields(), entity.0 as int, old(self).component_storage@),
            ),
            final(self).component_storage.script_column() == if entity.0 < old(self).component_storage@.entities {
                old(self).component_storage.script_column().update(
                    entity.0 as int,
                    Some(script.bound_to(*entity)),
                )
            } else {
                old(self).component_storage.script_column()
            },
            final(self).component_storage.scripts() == if entity.0 < old(self).component_storage@.entities {
                old(self).component_storage.scripts().update(entity.0 as int, Some(script.spec_fields()))
            } else {
                old(self).component_storage.scripts()
            },
    {
        proof {
            self.component_storage.lemma_wf_model();
            script.lemma_bound_to(*entity);
        }
        let mut script = script;
        script.pre_setup(*entity, &mut self.component_storage);
        script.post_user_update(&mut self.component_storage);
        proof {
            let seeded = registered(script.spec_fields(), entity.0 as int, old(self).component_storage@);
            lemma_registered_shape(script.spec_fields(), entity.0 as int, old(self).component_storage@);
            lemma_published_shape(script.spec_fields(), entity.0 as int, seeded);
        }
        self.component_storage.register_script(entity, script);
    }
}

} // verus!

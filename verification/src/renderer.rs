//! What the renderer keeps of its meshes apart from the GPU: for every mesh the
//! transform of each of its instances, refreshed once per frame from the scene.
use vstd::prelude::*;
use crate::components::{MeshInstance, Transform};
use crate::errors::MeshRendererError;

verus! {

/// The transforms of the instances of one mesh.
pub struct InstancedMesh {
    instances: Vec<Transform>,
}

impl View for InstancedMesh {
    type V = Seq<Transform>;

    closed spec fn view(&self) -> Seq<Transform> {
        self.instances@
    }
}

impl InstancedMesh {
    /// A mesh without instances.
    pub fn new() -> (r: InstancedMesh)
        ensures
            r@.len() == 0,
    {
        InstancedMesh { instances: Vec::new() }
    }

    /// Adds an instance at the identity transform and returns its index.
    pub fn create_instance(&mut self) -> (index: usize)
        ensures
            index == old(self)@.len(),
            final(self)@ == old(self)@.push(Transform::identity()),
    {
        let index = self.instances.len();
        self.instances.push(Transform::default());
        index
    }

    /// Replaces the transform of one instance. An index without instance is an
    /// error and changes nothing.
    pub fn update_instance_data(&mut self, instance_index: usize, transform: Transform) -> (r: Result<
        (),
        MeshRendererError,
    >)
        ensures
            instance_index < old(self)@.len() ==> r == Ok::<(), MeshRendererError>(()) && final(self)@ == old(self)@.update(instance_index as int, transform),
            instance_index >= old(self)@.len() ==> r == Err::<(), MeshRendererError>(
                MeshRendererError::InstanceNotFound,
            ) && final(self)@ == old(self)@,
    {
        if instance_index < self.instances.len() {
            self.instances[instance_index] = transform;
            Ok(())
        } else {
            Err(MeshRendererError::InstanceNotFound)
        }
    }

    /// The transform of every instance.
    pub fn instances(&self) -> (r: &Vec<Transform>)
        ensures
            r@ == self@,
    {
        &self.instances
    }
}

/// How the refresh of one mesh instance ended.
#[derive(Clone, Copy, PartialEq, Eq, Structural, Debug)]
pub enum MeshUpdate {
    /// The instance took the transform.
    Updated,
    /// The mesh has no such instance.
    Failed(MeshRendererError),
    /// There is no such mesh.
    MeshNotFound,
}

/// How the refresh of `instance` ends on the given meshes.
pub open spec fn update_outcome(meshes: Seq<Seq<Transform>>, instance: MeshInstance) -> MeshUpdate {
    if instance.mesh_index >= meshes.len() {
        MeshUpdate::MeshNotFound
    } else if instance.mesh_instance_index >= meshes[instance.mesh_index as int].len() {
        MeshUpdate::Failed(MeshRendererError::InstanceNotFound)
    } else {
        MeshUpdate::Updated
    }
}

/// The meshes after the refresh of `instance`.
pub open spec fn updated_one(meshes: Seq<Seq<Transform>>, instance: MeshInstance) -> Seq<Seq<Transform>> {
    if update_outcome(meshes, instance) == MeshUpdate::Updated {
        meshes.update(
            instance.mesh_index as int,
            meshes[instance.mesh_index as int].update(
                instance.mesh_instance_index as int,
                instance.local_transform,
            ),
        )
    } else {
        meshes
    }
}

/// The meshes after the refresh of every instance, first instance first.
pub open spec fn updated(meshes: Seq<Seq<Transform>>, instances: Seq<MeshInstance>) -> Seq<Seq<Transform>>
    decreases instances.len(),
{
    if instances.len() == 0 {
        meshes
    } else {
        updated_one(updated(meshes, instances.drop_last()), instances.last())
    }
}

/// A refresh changes no mesh's number of instances, so how the refresh of an
/// instance ends does not depend on the refreshes before it.
pub proof fn lemma_updated_keeps_sizes(meshes: Seq<Seq<Transform>>, instances: Seq<MeshInstance>)
    ensures
        updated(meshes, instances).len() == meshes.len(),
        forall|m: int|
            0 <= m < meshes.len() ==> (#[trigger] updated(meshes, instances)[m]).len() == meshes[m].len(),
        forall|i: MeshInstance| #[trigger]
            update_outcome(updated(meshes, instances), i) == update_outcome(meshes, i),
    decreases instances.len(),
{
    if instances.len() > 0 {
        lemma_updated_keeps_sizes(meshes, instances.drop_last());
    }
}

/// The meshes of the renderer, found by their index.
pub struct MeshManager {
    meshes: Vec<InstancedMesh>,
}

impl View for MeshManager {
    type V = Seq<Seq<Transform>>;

    closed spec fn view(&self) -> Seq<Seq<Transform>> {
        Seq::new(self.meshes.len() as nat, |m: int| self.meshes[m]@)
    }
}

impl MeshManager {
    /// The meshes themselves, in the order they were added.
    pub closed spec fn meshes(&self) -> Seq<InstancedMesh> {
        self.meshes@
    }

    /// The model lists the instances of every mesh.
    pub proof fn lemma_view_lists_meshes(&self)
        ensures
            self@.len() == self.meshes().len(),
            forall|m: int| 0 <= m < self@.len() ==> #[trigger] self@[m] == self.meshes()[m]@,
    {
    }

    /// A manager without meshes.
    pub fn new() -> (r: MeshManager)
        ensures
            r@.len() == 0,
    {
        MeshManager { meshes: Vec::new() }
    }

    /// The mesh at `mesh_index`, if there is one.
    pub fn get_mesh(&self, mesh_index: usize) -> (r: Option<&InstancedMesh>)
        ensures
            match r {
                Some(mesh) => mesh_index < self@.len() && mesh@ == self@[mesh_index as int],
                None => mesh_index >= self@.len(),
            },
    {
        if mesh_index < self.meshes.len() {
            Some(&self.meshes[mesh_index])
        } else {
            None
        }
    }

    /// Adds an instance to the mesh at `mesh_index` and returns the instance's
    /// index; without such a mesh nothing changes and there is no index.
    pub fn create_mesh_instance(&mut self, mesh_index: usize) -> (r: Option<usize>)
        ensures
            match r {
                Some(index) => mesh_index < old(self)@.len() && index == old(self)@[mesh_index as int].len()
                    && final(self)@ == old(self)@.update(
                    mesh_index as int,
                    old(self)@[mesh_index as int].push(Transform::identity()),
                ),
                None => mesh_index >= old(self)@.len() && final(self)@ == old(self)@,
            },
    {
        if mesh_index < self.meshes.len() {
            let index = self.meshes[mesh_index].create_instance();
            proof {
                assert(self@ =~= old(self)@.update(
                    mesh_index as int,
                    old(self)@[mesh_index as int].push(Transform::identity()),
                ));
            }
            Some(index)
        } else {
            None
        }
    }

    /// Adds a mesh behind the others.
    pub fn add_mesh(&mut self, mesh: InstancedMesh)
        ensures
            final(self)@ == old(self)@.push(mesh@),
    {
        self.meshes.push(mesh);
        proof {
            assert(self@ =~= old(self)@.push(mesh@));
        }
    }

    /// The meshes, in the order they were added.
    pub fn get_meshes(&self) -> (r: &Vec<InstancedMesh>)
        ensures
            r@.len() == self@.len(),
            forall|m: int| 0 <= m < r@.len() ==> (#[trigger] r@[m])@ == self@[m],
    {
        &self.meshes
    }

    /// The meshes, for changing them in place.
    pub fn get_meshes_mut(&mut self) -> (r: &mut Vec<InstancedMesh>)
        ensures
            r@ == old(self).meshes(),
            final(self).meshes() == final(r)@,
    {
        &mut self.meshes
    }

    /// Gives every mesh instance of the scene to the mesh it names, first
    /// instance first, and says of each how that ended: an instance that names
    /// no mesh, or no instance of its mesh, is passed over.
    pub fn update_meshes(&mut self, mesh_instances: &Vec<MeshInstance>) -> (r: Vec<MeshUpdate>)
        ensures
            final(self)@ == updated(old(self)@, mesh_instances@),
            r@.len() == mesh_instances@.len(),
            forall|i: int|
                0 <= i < r@.len() ==> #[trigger] r@[i] == update_outcome(old(self)@, mesh_instances@[i]),
    {
        let mut outcomes: Vec<MeshUpdate> = Vec::new();
        let mut i: usize = 0;
        while i < mesh_instances.len()
            invariant
                i <= mesh_instances.len(),
                self@ == updated(old(self)@, mesh_instances@.take(i as int)),
                outcomes@.len() == i,
                forall|j: int|
                    0 <= j < i ==> #[trigger] outcomes@[j] == update_outcome(old(self)@, mesh_instances@[j]),
            decreases mesh_instances.len() - i,
        {
            let instance = mesh_instances[i];
            let ghost before = self@;
            proof {
                assert(mesh_instances@.take(i + 1).drop_last() =~= mesh_instances@.take(i as int));
                lemma_updated_keeps_sizes(old(self)@, mesh_instances@.take(i as int));
            }
            let outcome = if instance.mesh_index < self.meshes.len() {
                match self.meshes[instance.mesh_index].update_instance_data(
                    instance.mesh_instance_index,
                    instance.local_transform,
                ) {
                    Ok(()) => MeshUpdate::Updated,
                    Err(e) => MeshUpdate::Failed(e),
                }
            } else {
                MeshUpdate::MeshNotFound
            };
            proof {
                assert(self@ =~= updated_one(before, instance));
            }
            outcomes.push(outcome);
            i += 1;
        }
        proof {
            assert(mesh_instances@.take(i as int) =~= mesh_instances@);
        }
        outcomes
    }
}

} // verus!

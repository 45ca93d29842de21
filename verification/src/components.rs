//! The closed set of data components and the tags that index them.
//!
//! Coordinates are carried as the raw bit patterns of single-precision numbers:
//! the runtime only ever copies and compares them, it never does arithmetic on
//! them, so the caller converts at the boundary.
use vstd::prelude::*;
use crate::storage::{Component, ComponentStorage};

verus! {

/// Bit pattern of the single-precision number one.
pub const ONE_BITS: u32 = 0x3F80_0000;

/// Three coordinates, each the bit pattern of a single-precision number.
#[derive(Clone, Copy, PartialEq, Eq, Structural, Debug)]
pub struct Vec3Bits {
    pub x: u32,
    pub y: u32,
    pub z: u32,
}

/// A rotation quaternion: scalar part and vector part, as bit patterns.
#[derive(Clone, Copy, PartialEq, Eq, Structural, Debug)]
pub struct QuatBits {
    pub s: u32,
    pub v: Vec3Bits,
}

/// Position and orientation of an entity.
#[derive(Clone, Copy, PartialEq, Eq, Structural, Debug)]
pub struct Transform {
    pub position: Vec3Bits,
    pub rotation: QuatBits,
}

/// One drawn instance of a mesh, placed relative to its entity.
#[derive(Clone, Copy, PartialEq, Eq, Structural, Debug)]
pub struct MeshInstance {
    pub mesh_index: usize,
    pub mesh_instance_index: usize,
    pub local_transform: Transform,
}

/// The tag under which a component is stored.
#[derive(Clone, Copy, PartialEq, Eq, Structural, Debug)]
pub enum ComponentKind {
    Transform,
    MeshInstance,
}

/// A component value of any kind.
#[derive(Clone, Copy, PartialEq, Eq, Structural, Debug)]
pub enum ComponentValue {
    Transform(Transform),
    MeshInstance(MeshInstance),
}

impl Transform {
    /// The transform at the origin with the identity rotation.
    pub open spec fn identity() -> Transform {
        Transform {
            position: Vec3Bits { x: 0, y: 0, z: 0 },
            rotation: QuatBits { s: ONE_BITS, v: Vec3Bits { x: 0, y: 0, z: 0 } },
        }
    }
}

impl Default for Transform {
    /// The identity transform.
    fn default() -> (r: Transform)
        ensures
            r == Transform::identity(),
    {
        Transform {
            position: Vec3Bits { x: 0, y: 0, z: 0 },
            rotation: QuatBits { s: ONE_BITS, v: Vec3Bits { x: 0, y: 0, z: 0 } },
        }
    }
}

impl Default for MeshInstance {
    /// The first instance of the first mesh, at the identity transform.
    fn default() -> (r: MeshInstance)
        ensures
            r == (MeshInstance {
                mesh_index: 0,
                mesh_instance_index: 0,
                local_transform: Transform::identity(),
            }),
    {
        MeshInstance {
            mesh_index: 0,
            mesh_instance_index: 0,
            local_transform: Transform::default(),
        }
    }
}

impl ComponentValue {
    /// The tag of this value.
    pub open spec fn spec_kind(self) -> ComponentKind {
        match self {
            ComponentValue::Transform(_) => ComponentKind::Transform,
            ComponentValue::MeshInstance(_) => ComponentKind::MeshInstance,
        }
    }

    /// The tag of this value.
    #[verifier::when_used_as_spec(spec_kind)]
    pub fn kind(self) -> (k: ComponentKind)
        ensures
            k == self.spec_kind(),
    {
        match self {
            ComponentValue::Transform(_) => ComponentKind::Transform,
            ComponentValue::MeshInstance(_) => ComponentKind::MeshInstance,
        }
    }
}

impl Component for Transform {
    /// A transform has no behaviour of its own.
    fn setup(&mut self, world: &mut ComponentStorage)
        ensures
            *final(self) == *old(self),
            *final(world) == *old(world),
    {
    }

    fn update(&mut self, world: &mut ComponentStorage)
        ensures
            *final(self) == *old(self),
            *final(world) == *old(world),
    {
    }
}

impl Component for MeshInstance {
    /// A mesh instance has no behaviour of its own.
    fn setup(&mut self, world: &mut ComponentStorage)
        ensures
            *final(self) == *old(self),
            *final(world) == *old(world),
    {
    }

    fn update(&mut self, world: &mut ComponentStorage)
        ensures
            *final(self) == *old(self),
            *final(world) == *old(world),
    {
    }
}

} // verus!

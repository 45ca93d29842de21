//! Entities as objects: a labelled node with an optional script, components and
//! child entities.
use vstd::prelude::*;
use crate::components::{ComponentKind, ComponentValue};

verus! {

/// Behaviour attached to an entity object. Nothing is assumed of what an
/// implementation does.
pub trait Script {
    /// Runs once, before the first update.
    fn setup(&mut self);

    /// Runs every frame.
    fn update(&mut self);
}

/// A script behind a box, as an entity object holds it.
pub struct BoxedScript {
    pub script: Box<dyn Script>,
}

/// An entity object: identifier, label, optional script, components and
/// children.
pub struct Entity {
    id: u32,
    label: String,
    script: Option<BoxedScript>,
    children: Vec<Entity>,
    components: Vec<ComponentValue>,
}

/// The first value of `kind` in `components`, if there is one.
pub open spec fn first_of_kind(components: Seq<ComponentValue>, kind: ComponentKind) -> Option<ComponentValue>
    decreases components.len(),
{
    if components.len() == 0 {
        None
    } else if components[0].kind() == kind {
        Some(components[0])
    } else {
        first_of_kind(components.drop_first(), kind)
    }
}

impl Entity {
    /// The identifier.
    pub closed spec fn spec_id(&self) -> u32 {
        self.id
    }

    /// The label.
    pub closed spec fn spec_label(&self) -> Seq<char> {
        self.label@
    }

    /// The attached script, if there is one.
    pub closed spec fn script(&self) -> Option<BoxedScript> {
        self.script
    }

    /// Whether a script is attached.
    pub open spec fn has_script(&self) -> bool {
        self.script().is_some()
    }

    /// The components, in the order they were added.
    pub closed spec fn components(&self) -> Seq<ComponentValue> {
        self.components@
    }

    /// How many child entities there are.
    pub closed spec fn child_count(&self) -> nat {
        self.children.len() as nat
    }

    /// Whether two entities agree in everything but what their scripts hold:
    /// identifier, label, components, whether a script is attached, and the
    /// same of their children, child by child.
    pub closed spec fn same_outline(&self, other: &Entity) -> bool
        decreases self,
    {
        &&& self.id == other.id
        &&& self.label@ == other.label@
        &&& self.script.is_some() == other.script.is_some()
        &&& self.components@ == other.components@
        &&& self.children.len() == other.children.len()
        &&& forall|i: int|
            0 <= i < self.children.len() ==> (#[trigger] self.children[i]).same_outline(&other.children[i])
    }

    /// Entities of one outline agree in identifier, label, components, number of
    /// children and in whether a script is attached.
    pub proof fn lemma_same_outline(&self, other: &Entity)
        requires
            self.same_outline(other),
        ensures
            self.spec_id() == other.spec_id(),
            self.spec_label() == other.spec_label(),
            self.has_script() == other.has_script(),
            self.components() == other.components(),
            self.child_count() == other.child_count(),
    {
    }

    /// An entity without script, children or components.
    pub fn new(id: u32, label: String) -> (r: Entity)
        ensures
            r.spec_id() == id,
            r.spec_label() == label@,
            !r.has_script(),
            r.components() == Seq::<ComponentValue>::empty(),
            r.child_count() == 0,
    {
        Entity { id, label, script: None, children: Vec::new(), components: Vec::new() }
    }

    /// Runs the setup code of the entity's script, then that of its children,
    /// first child first, each child with its own children. What the scripts do
    /// is their own affair: the entity and all below it keep their identifiers,
    /// labels, components and children, and every script stays attached.
    pub fn call_script_setup(&mut self)
        ensures
            final(self).same_outline(old(self)),
        decreases *old(self),
    {
        let taken = self.script.take();
        match taken {
            Some(mut script) => {
                script.script.setup();
                self.script = Some(script);
            },
            None => {},
        }
        let mut i: usize = 0;
        while i < self.children.len()
            invariant
                i <= self.children.len(),
                self.id == old(self).id,
                self.label == old(self).label,
                self.script.is_some() == old(self).script.is_some(),
                self.components == old(self).components,
                self.children.len() == old(self).children.len(),
                forall|j: int|
                    0 <= j < i ==> (#[trigger] self.children[j]).same_outline(&old(self).children[j]),
                forall|j: int| i <= j < self.children.len() ==> self.children[j] == old(self).children[j],
            decreases self.children.len() - i,
        {
            proof {
                broadcast use vstd::std_specs::vec::axiom_vec_index_decreases;
                assert(decreases_to!(old(self).children => old(self).children[i as int]));
            }
            self.children[i].call_script_setup();
            i += 1;
        }
    }

    /// Runs the update code of the entity's script, then that of its children,
    /// first child first, each child with its own children. What the scripts do
    /// is their own affair: the entity and all below it keep their identifiers,
    /// labels, components and children, and every script stays attached.
    pub fn call_script_update(&mut self)
        ensures
            final(self).same_outline(old(self)),
        decreases *old(self),
    {
        let taken = self.script.take();
        match taken {
            Some(mut script) => {
                script.script.update();
                self.script = Some(script);
            },
            None => {},
        }
        let mut i: usize = 0;
        while i < self.children.len()
            invariant
                i <= self.children.len(),
                self.id == old(self).id,
                self.label == old(self).label,
                self.script.is_some() == old(self).script.is_some(),
                self.components == old(self).components,
                self.children.len() == old(self).children.len(),
                forall|j: int|
                    0 <= j < i ==> (#[trigger] self.children[j]).same_outline(&old(self).children[j]),
                forall|j: int| i <= j < self.children.len() ==> self.children[j] == old(self).children[j],
            decreases self.children.len() - i,
        {
            proof {
                broadcast use vstd::std_specs::vec::axiom_vec_index_decreases;
                assert(decreases_to!(old(self).children => old(self).children[i as int]));
            }
            self.children[i].call_script_update();
            i += 1;
        }
    }

    /// The first component of the given kind, in the order the components were
    /// added.
    pub fn get_component(&self, kind: ComponentKind) -> (r: Option<ComponentValue>)
        ensures
            r == first_of_kind(self.components(), kind),
    {
        let mut i: usize = 0;
        proof {
            assert(self.components@.skip(0) =~= self.components@);
        }
        while i < self.components.len()
            invariant
                i <= self.components.len(),
                first_of_kind(self.components@, kind) == first_of_kind(
                    self.components@.skip(i as int),
                    kind,
                ),
            decreases self.components.len() - i,
        {
            let c = self.components[i];
            proof {
                assert(self.components@.skip(i as int)[0] == c);
                assert(self.components@.skip(i as int).drop_first() =~= self.components@.skip(i + 1));
            }
            if c.kind() == kind {
                return Some(c);
            }
            i += 1;
        }
        None
    }

    /// Adds a component behind those already there.
    pub fn add_component(&mut self, component: ComponentValue)
        ensures
            final(self).components() == old(self).components().push(component),
            final(self).spec_id() == old(self).spec_id(),
            final(self).spec_label() == old(self).spec_label(),
            final(self).has_script() == old(self).has_script(),
            final(self).child_count() == old(self).child_count(),
    {
        self.components.push(component);
    }

    /// Attaches `script` in place of a script already attached, and hands the
    /// entity back for further calls.
    pub fn add_script(&mut self, script: BoxedScript) -> (r: &mut Entity)
        ensures
            r.script() == Some(script),
            r.components() == old(self).components(),
            r.spec_id() == old(self).spec_id(),
            r.spec_label() == old(self).spec_label(),
            r.child_count() == old(self).child_count(),
            *final(self) == *final(r),
    {
        self.script = Some(script);
        self
    }

    /// The entity's identifier.
    #[verifier::when_used_as_spec(spec_id)]
    pub fn id(&self) -> (r: u32)
        ensures
            r == self.spec_id(),
    {
        self.id
    }

    /// The entity's label.
    pub fn label(&self) -> (r: &String)
        ensures
            r@ == self.spec_label(),
    {
        &self.label
    }
}

} // verus!

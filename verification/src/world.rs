//! A scene of entity objects, kept in the order they were added.
use vstd::prelude::*;
use vstd::string::StringExecFns;
use crate::components::{ComponentKind, ComponentValue, MeshInstance};
use crate::entities::{first_of_kind, Entity};

verus! {

/// The text of one decimal digit.
pub open spec fn digit_text(d: nat) -> Seq<char> {
    if d == 0 {
        "0"@
    } else if d == 1 {
        "1"@
    } else if d == 2 {
        "2"@
    } else if d == 3 {
        "3"@
    } else if d == 4 {
        "4"@
    } else if d == 5 {
        "5"@
    } else if d == 6 {
        "6"@
    } else if d == 7 {
        "7"@
    } else if d == 8 {
        "8"@
    } else {
        "9"@
    }
}

/// The decimal text of a number, without leading zeros.
pub open spec fn decimal_text(n: nat) -> Seq<char>
    decreases n,
{
    if n < 10 {
        digit_text(n)
    } else {
        decimal_text(n / 10) + digit_text(n % 10)
    }
}

/// The label that the `n`-th empty entity gets.
pub open spec fn empty_label(n: nat) -> Seq<char> {
    "EmptyEntity"@ + decimal_text(n)
}

/// The text of one decimal digit.
fn digit_str(d: u32) -> (r: &'static str)
    requires
        d < 10,
    ensures
        r@ == digit_text(d as nat),
{
    if d == 0 {
        "0"
    } else if d == 1 {
        "1"
    } else if d == 2 {
        "2"
    } else if d == 3 {
        "3"
    } else if d == 4 {
        "4"
    } else if d == 5 {
        "5"
    } else if d == 6 {
        "6"
    } else if d == 7 {
        "7"
    } else if d == 8 {
        "8"
    } else {
        "9"
    }
}

/// Appends the decimal text of `n` to `prefix`.
fn append_decimal(prefix: String, n: u32) -> (r: String)
    ensures
        r@ == prefix@ + decimal_text(n as nat),
    decreases n,
{
    if n < 10 {
        prefix.concat(digit_str(n))
    } else {
        let front = append_decimal(prefix, n / 10);
        proof {
            assert(prefix@ + (decimal_text((n / 10) as nat) + digit_text((n % 10) as nat)) =~= (prefix@
                + decimal_text((n / 10) as nat)) + digit_text((n % 10) as nat));
        }
        front.concat(digit_str(n % 10))
    }
}

/// The mesh instances that the first `upto` entities show: of each entity its
/// first mesh-instance component, where it has one.
pub open spec fn renderables(entities: Seq<Entity>, upto: int) -> Seq<MeshInstance>
    decreases upto,
{
    if upto <= 0 {
        Seq::empty()
    } else {
        let before = renderables(entities, upto - 1);
        match first_of_kind(entities[upto - 1].components(), ComponentKind::MeshInstance) {
            Some(ComponentValue::MeshInstance(m)) => before.push(m),
            _ => before,
        }
    }
}

/// A scene of entity objects.
pub struct Scene {
    entity_count: u32,
    entities: Vec<Entity>,
}

impl Scene {
    /// The entities, in the order they were added.
    pub closed spec fn entities(&self) -> Seq<Entity> {
        self.entities@
    }

    /// The scene counts exactly the entities it holds.
    pub closed spec fn wf(&self) -> bool {
        self.entity_count == self.entities.len()
    }

    /// A scene without entities.
    pub fn new() -> (r: Scene)
        ensures
            r.wf(),
            r.entities().len() == 0,
    {
        Scene { entity_count: 0, entities: Vec::new() }
    }

    /// The entity at position `id`, if there is one.
    pub fn get_entity(&self, id: u32) -> (r: Option<&Entity>)
        ensures
            match r {
                Some(e) => id < self.entities().len() && *e == self.entities()[id as int],
                None => id >= self.entities().len(),
            },
    {
        if (id as usize) < self.entities.len() {
            Some(&self.entities[id as usize])
        } else {
            None
        }
    }

    /// The entity at position `id`, for changing it in place. No other entity
    /// changes.
    pub fn get_entity_mut(&mut self, id: u32) -> (r: Option<&mut Entity>)
        requires
            old(self).wf(),
        ensures
            match r {
                Some(e) => id < old(self).entities().len() && *e == old(self).entities()[id as int]
                    && final(self).entities() == old(self).entities().update(id as int, *final(e)),
                None => id >= old(self).entities().len() && final(self).entities() == old(self).entities(),
            },
            final(self).wf(),
    {
        if (id as usize) < self.entities.len() {
            Some(&mut self.entities[id as usize])
        } else {
            None
        }
    }

    /// Adds an entity without script, children or components behind the others.
    /// Its identifier is the number of entities before it, and its label the
    /// word `EmptyEntity` followed by that number.
    pub fn add_empty_entity(&mut self) -> (r: &mut Entity)
        requires
            old(self).wf(),
            old(self).entities().len() < u32::MAX,
        ensures
            r.spec_id() == old(self).entities().len(),
            r.spec_label() == empty_label(old(self).entities().len()),
            !r.has_script(),
            r.components() == Seq::<ComponentValue>::empty(),
            r.child_count() == 0,
            final(self).entities() == old(self).entities().push(*final(r)),
            final(self).wf(),
    {
        let label = append_decimal("EmptyEntity".to_owned(), self.entity_count);
        self.entities.push(Entity::new(self.entity_count, label));
        self.entity_count += 1;
        let last: usize = self.entities.len() - 1;
        &mut self.entities[last]
    }

    /// The mesh instances that the entities show, in the order of the entities.
    pub fn get_renderables(&self) -> (r: Vec<MeshInstance>)
        ensures
            r@ == renderables(self.entities(), self.entities().len() as int),
    {
        let mut out: Vec<MeshInstance> = Vec::new();
        let mut i: usize = 0;
        while i < self.entities.len()
            invariant
                i <= self.entities.len(),
                out@ == renderables(self.entities@, i as int),
            decreases self.entities.len() - i,
        {
            match self.entities[i].get_component(ComponentKind::MeshInstance) {
                Some(ComponentValue::MeshInstance(m)) => {
                    out.push(m);
                },
                _ => {},
            }
            i += 1;
        }
        out
    }

    /// Runs the setup code of every entity's script, first entity first. Every
    /// entity keeps its outline.
    pub fn call_user_script_setups(&mut self)
        requires
            old(self).wf(),
        ensures
            final(self).wf(),
            final(self).entities().len() == old(self).entities().len(),
            forall|i: int|
                0 <= i < old(self).entities().len() ==> (#[trigger] final(self).entities()[i]).same_outline(
                    &old(self).entities()[i],
                ),
    {
        let mut i: usize = 0;
        while i < self.entities.len()
            invariant
                i <= self.entities.len(),
                self.entity_count == old(self).entity_count,
                self.entities.len() == old(self).entities.len(),
                forall|j: int|
                    0 <= j < i ==> (#[trigger] self.entities[j]).same_outline(&old(self).entities[j]),
                forall|j: int| i <= j < self.entities.len() ==> self.entities[j] == old(self).entities[j],
            decreases self.entities.len() - i,
        {
            self.entities[i].call_script_setup();
            i += 1;
        }
    }

    /// Runs the update code of every entity's script, first entity first. Every
    /// entity keeps its outline.
    pub fn call_user_script_updates(&mut self)
        requires
            old(self).wf(),
        ensures
            final(self).wf(),
            final(self).entities().len() == old(self).entities().len(),
            forall|i: int|
                0 <= i < old(self).entities().len() ==> (#[trigger] final(self).entities()[i]).same_outline(
                    &old(self).entities()[i],
                ),
    {
        let mut i: usize = 0;
        while i < self.entities.len()
            invariant
                i <= self.entities.len(),
                self.entity_count == old(self).entity_count,
                self.entities.len() == old(self).entities.len(),
                forall|j: int|
                    0 <= j < i ==> (#[trigger] self.entities[j]).same_outline(&old(self).entities[j]),
                forall|j: int| i <= j < self.entities.len() ==> self.entities[j] == old(self).entities[j],
            decreases self.entities.len() - i,
        {
            self.entities[i].call_script_update();
            i += 1;
        }
    }
}

} // verus!

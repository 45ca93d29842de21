//! Scripts and the protocol that keeps their private fields and the store coherent.
//!
//! A script never holds a reference into the store. Before user code runs its
//! fields are pulled from the store, afterwards they are published back, and
//! both steps copy a value only where the two sides differ.
use vstd::prelude::*;
use crate::components::{ComponentKind, ComponentValue};
use crate::model::{
    lemma_register_wf, lemma_slot_kind, lemma_with_slot_reads, lemma_with_slot_same,
    lemma_with_slot_twice, lemma_with_slot_wf, StorageView,
};
use crate::storage::{BorrowState, Component, ComponentStorage, Entity, Slot};

verus! {

/// The synchronization descriptor of a list of fields: the component kind that
/// each field mirrors, field by field.
pub open spec fn descriptor(fields: Seq<ComponentValue>) -> Seq<ComponentKind> {
    Seq::new(fields.len(), |i: int| fields[i].kind())
}

/// The store after every field was registered for `entity`, first field first.
pub open spec fn registered(fields: Seq<ComponentValue>, entity: int, v: StorageView) -> StorageView
    decreases fields.len(),
{
    if fields.len() == 0 {
        v
    } else {
        registered(fields.drop_last(), entity, v).register(entity, fields.last())
    }
}

/// The fields after a pull: each takes the store's value of its kind where a
/// reader is admitted to it, and stays as it is where the component is absent or
/// held exclusively.
pub open spec fn pulled(fields: Seq<ComponentValue>, entity: int, v: StorageView) -> Seq<ComponentValue> {
    Seq::new(
        fields.len(),
        |i: int|
            match v.read(fields[i].kind(), entity) {
                Ok(x) => x,
                Err(_) => fields[i],
            },
    )
}

/// At how many positions two sequences of one length differ.
pub open spec fn differing(a: Seq<ComponentValue>, b: Seq<ComponentValue>) -> nat
    decreases a.len(),
{
    if a.len() == 0 || b.len() == 0 {
        0
    } else {
        differing(a.drop_last(), b.drop_last()) + if a.last() != b.last() {
            1nat
        } else {
            0nat
        }
    }
}

/// Whether publishing `value` for `entity` writes to the store: the slot of its
/// kind is present, free, and holds another value.
pub open spec fn writes_one(value: ComponentValue, entity: int, v: StorageView) -> bool {
    match v.claim(value.kind(), entity) {
        Ok(x) => x != value,
        Err(_) => false,
    }
}

/// The store after `value` was published for `entity`.
pub open spec fn published_one(value: ComponentValue, entity: int, v: StorageView) -> StorageView {
    if writes_one(value, entity, v) {
        v.with_slot(value.kind(), entity, Some(Slot { value, borrow: BorrowState::Free }))
    } else {
        v
    }
}

/// The store after every field was published for `entity`, first field first.
pub open spec fn published(fields: Seq<ComponentValue>, entity: int, v: StorageView) -> StorageView
    decreases fields.len(),
{
    if fields.len() == 0 {
        v
    } else {
        published_one(fields.last(), entity, published(fields.drop_last(), entity, v))
    }
}

/// How many writes publishing the fields makes.
pub open spec fn writes(fields: Seq<ComponentValue>, entity: int, v: StorageView) -> nat
    decreases fields.len(),
{
    if fields.len() == 0 {
        0
    } else {
        writes(fields.drop_last(), entity, v) + if writes_one(
            fields.last(),
            entity,
            published(fields.drop_last(), entity, v),
        ) {
            1nat
        } else {
            0nat
        }
    }
}

/// A pull keeps the descriptor: a field only ever takes a value of its own kind.
pub proof fn lemma_pull_keeps_descriptor(fields: Seq<ComponentValue>, entity: int, v: StorageView)
    requires
        v.wf(),
    ensures
        descriptor(pulled(fields, entity, v)) == descriptor(fields),
{
    let got = pulled(fields, entity, v);
    assert forall|i: int| 0 <= i < fields.len() implies got[i].kind() == fields[i].kind() by {
        lemma_slot_kind(v, fields[i].kind(), entity);
    }
    assert(descriptor(got) =~= descriptor(fields));
}

/// Publishing one value keeps the store well formed.
pub proof fn lemma_published_one_wf(value: ComponentValue, entity: int, v: StorageView)
    requires
        v.wf(),
    ensures
        published_one(value, entity, v).wf(),
        published_one(value, entity, v).entities == v.entities,
{
    if writes_one(value, entity, v) {
        lemma_with_slot_wf(v, value.kind(), entity, Some(Slot { value, borrow: BorrowState::Free }));
    }
}

/// User-authored behaviour bound to one entity.
///
/// Both hooks receive the script's private copies of its synchronized fields.
/// They may change the values freely; they never see the store. Nothing is
/// assumed of what an implementation does: a hook that hands back fields of
/// another descriptor has its changes discarded.
pub trait Script {
    /// Runs once, before the first update.
    fn script_setup(&mut self, fields: &mut Vec<ComponentValue>);

    /// Runs every frame, between the pull and the publish.
    fn script_update(&mut self, fields: &mut Vec<ComponentValue>);
}

/// User behaviour behind a box, as a script instance holds it.
pub struct BoxedScript {
    pub script: Box<dyn Script>,
}

/// The three synchronization steps of a script.
pub trait ScriptComponentUpdater {
    /// The entity the script is bound to.
    spec fn owner(&self) -> Entity;

    /// The private copies of the synchronized fields, in descriptor order.
    spec fn synced(&self) -> Seq<ComponentValue>;

    /// Binds the script to `entity` and seeds the store with its fields.
    fn pre_setup(&mut self, entity: Entity, world: &mut ComponentStorage)
        requires
            old(world).wf(),
        ensures
            final(world).wf(),
            final(world)@ == registered(old(self).synced(), entity.0 as int, old(world)@),
            final(world).script_column() == old(world).script_column(),
            final(self).owner() == entity,
            final(self).synced() == old(self).synced(),
    ;

    /// Pulls the store's values into the fields that differ from them, and says
    /// how many fields it overwrote.
    fn pre_user_update(&mut self, world: &ComponentStorage) -> (changed: usize)
        requires
            world.wf(),
        ensures
            final(self).owner() == old(self).owner(),
            final(self).synced() == pulled(old(self).synced(), old(self).owner().0 as int, world@),
            changed == differing(old(self).synced(), final(self).synced()),
    ;

    /// Publishes the fields into the store's slots that differ from them, and
    /// says how many slots it wrote.
    fn post_user_update(&mut self, world: &mut ComponentStorage) -> (written: usize)
        requires
            old(world).wf(),
        ensures
            final(world).wf(),
            final(world)@ == published(old(self).synced(), old(self).owner().0 as int, old(world)@),
            final(world).script_column() == old(world).script_column(),
            written == writes(old(self).synced(), old(self).owner().0 as int, old(world)@),
            final(self).owner() == old(self).owner(),
            final(self).synced() == old(self).synced(),
    ;
}

/// A copy of the fields.
pub fn copy_fields(fields: &Vec<ComponentValue>) -> (r: Vec<ComponentValue>)
    ensures
        r@ == fields@,
{
    let mut out: Vec<ComponentValue> = Vec::new();
    let mut i: usize = 0;
    while i < fields.len()
        invariant
            i <= fields.len(),
            out@ =~= fields@.take(i as int),
        decreases fields.len() - i,
    {
        out.push(fields[i]);
        i += 1;
    }
    proof {
        assert(fields@.take(i as int) =~= fields@);
    }
    out
}

/// Whether two lists of fields have one descriptor: the same length and, field
/// by field, the same kinds.
pub fn same_descriptor(a: &Vec<ComponentValue>, b: &Vec<ComponentValue>) -> (r: bool)
    ensures
        r == (descriptor(a@) == descriptor(b@)),
{
    if a.len() != b.len() {
        proof {
            assert(descriptor(a@).len() != descriptor(b@).len());
        }
        return false;
    }
    let mut i: usize = 0;
    while i < a.len()
        invariant
            i <= a.len(),
            a.len() == b.len(),
            forall|j: int| 0 <= j < i ==> a@[j].kind() == b@[j].kind(),
        decreases a.len() - i,
    {
        if a[i].kind() != b[i].kind() {
            proof {
                assert(descriptor(a@)[i as int] != descriptor(b@)[i as int]);
            }
            return false;
        }
        i += 1;
    }
    proof {
        assert(descriptor(a@) =~= descriptor(b@));
    }
    true
}

/// The fields that a script keeps after user code worked on the fields it was
/// handed: the edited fields where they still have the descriptor of the
/// fields handed out, else the fields as they were handed out.
pub open spec fn kept_fields(handed: Seq<ComponentValue>, edited: Seq<ComponentValue>) -> Seq<
    ComponentValue,
> {
    if descriptor(edited) == descriptor(handed) {
        edited
    } else {
        handed
    }
}

/// Decides which fields a script keeps after its user code ran: what the user
/// code left, unless that has another descriptor than the fields handed to it,
/// in which case the user's changes are discarded.
pub fn accepted(handed: Vec<ComponentValue>, edited: Vec<ComponentValue>) -> (kept: Vec<ComponentValue>)
    ensures
        kept@ == kept_fields(handed@, edited@),
{
    if same_descriptor(&edited, &handed) {
        edited
    } else {
        handed
    }
}

/// A script attached to an entity: its private copies of the synchronized
/// fields, one per entry of its descriptor and each of the kind the entry names,
/// and the user's behaviour.
pub struct ScriptInstance {
    pub(crate) entity: Entity,
    pub(crate) fields: Vec<ComponentValue>,
    pub(crate) behaviour: BoxedScript,
}

impl ScriptInstance {
    /// A script with the given initial fields, not yet bound to an entity of its
    /// own: until it is attached it names the first entity.
    pub fn new(fields: Vec<ComponentValue>, behaviour: BoxedScript) -> (r: ScriptInstance)
        ensures
            r.spec_entity() == Entity(0),
            r.spec_fields() == fields@,
            r.spec_behaviour() == behaviour,
    {
        ScriptInstance { entity: Entity(0), fields, behaviour }
    }

    /// The entity the script is bound to.
    pub closed spec fn spec_entity(&self) -> Entity {
        self.entity
    }

    /// The private copies of the synchronized fields, in descriptor order.
    pub closed spec fn spec_fields(&self) -> Seq<ComponentValue> {
        self.fields@
    }

    /// The user's behaviour.
    pub closed spec fn spec_behaviour(&self) -> BoxedScript {
        self.behaviour
    }

    /// The script as it is once bound to `entity`: the same fields and the
    /// same behaviour.
    pub closed spec fn bound_to(self, entity: Entity) -> ScriptInstance {
        ScriptInstance { entity, ..self }
    }

    /// Binding a script changes the entity it names and leaves its fields.
    pub proof fn lemma_bound_to(self, entity: Entity)
        ensures
            self.bound_to(entity).spec_entity() == entity,
            self.bound_to(entity).spec_fields() == self.spec_fields(),
            self.bound_to(entity).spec_behaviour() == self.spec_behaviour(),
            self.bound_to(self.spec_entity()) == self,
    {
    }

    /// The entity the script is bound to.
    #[verifier::when_used_as_spec(spec_entity)]
    pub fn entity(&self) -> (e: Entity)
        ensures
            e == self.spec_entity(),
    {
        self.entity
    }

    /// The synchronization descriptor: the kind of each field.
    pub fn descriptor(&self) -> (r: Vec<ComponentKind>)
        ensures
            r@ == descriptor(self.spec_fields()),
    {
        let mut out: Vec<ComponentKind> = Vec::new();
        let mut i: usize = 0;
        while i < self.fields.len()
            invariant
                i <= self.fields.len(),
                out@ =~= descriptor(self.fields@).take(i as int),
            decreases self.fields.len() - i,
        {
            out.push(self.fields[i].kind());
            i += 1;
        }
        proof {
            assert(descriptor(self.fields@).take(i as int) =~= descriptor(self.fields@));
        }
        out
    }

    /// The private copies of the synchronized fields, in descriptor order.
    pub fn fields(&self) -> (f: &Vec<ComponentValue>)
        ensures
            f@ == self.spec_fields(),
    {
        &self.fields
    }
}

impl Component for ScriptInstance {
    /// The setup of the script: the fields are pulled from the store, user
    /// setup code runs on them, then they are published. Whatever the user code
    /// did, the store ends as the store before the call with the script's
    /// fields published into it.
    fn setup(&mut self, world: &mut ComponentStorage)
        ensures
            final(world).script_column() == old(world).script_column(),
            final(self).spec_entity() == old(self).spec_entity(),
            descriptor(final(self).spec_fields()) == descriptor(old(self).spec_fields()),
            final(world)@ == published(
                final(self).spec_fields(),
                old(self).spec_entity().0 as int,
                old(world)@,
            ),
    {
        proof {
            world.lemma_wf_model();
            lemma_pull_keeps_descriptor(self.fields@, self.entity.0 as int, world@);
        }
        self.pre_user_update(world);
        let handed = copy_fields(&self.fields);
        self.behaviour.script.script_setup(&mut self.fields);
        let mut edited: Vec<ComponentValue> = Vec::new();
        std::mem::swap(&mut self.fields, &mut edited);
        self.fields = accepted(handed, edited);
        self.post_user_update(world);
    }

    /// One frame of the script: the fields are pulled from the store, user
    /// update code runs on them, then they are published. Whatever the user code
    /// did, the store ends as the store before the frame with the script's
    /// fields published into it.
    fn update(&mut self, world: &mut ComponentStorage)
        ensures
            final(world).script_column() == old(world).script_column(),
            final(self).spec_entity() == old(self).spec_entity(),
            descriptor(final(self).spec_fields()) == descriptor(old(self).spec_fields()),
            final(world)@ == published(
                final(self).spec_fields(),
                old(self).spec_entity().0 as int,
                old(world)@,
            ),
    {
        proof {
            world.lemma_wf_model();
            lemma_pull_keeps_descriptor(self.fields@, self.entity.0 as int, world@);
        }
        self.pre_user_update(world);
        let handed = copy_fields(&self.fields);
        self.behaviour.script.script_update(&mut self.fields);
        let mut edited: Vec<ComponentValue> = Vec::new();
        std::mem::swap(&mut self.fields, &mut edited);
        self.fields = accepted(handed, edited);
        self.post_user_update(world);
    }
}

impl ScriptComponentUpdater for ScriptInstance {
    open spec fn owner(&self) -> Entity {
        self.spec_entity()
    }

    open spec fn synced(&self) -> Seq<ComponentValue> {
        self.spec_fields()
    }

    fn pre_setup(&mut self, entity: Entity, world: &mut ComponentStorage)
        ensures
            *final(self) == old(self).bound_to(entity),
    {
        self.entity = entity;
        let mut i: usize = 0;
        while i < self.fields.len()
            invariant
                i <= self.fields.len(),
                self.fields == old(self).fields,
                self.entity == entity,
                world.wf(),
                world.script_column() == old(world).script_column(),
                world@ == registered(self.fields@.take(i as int), entity.0 as int, old(world)@),
            decreases self.fields.len() - i,
        {
            proof {
                assert(self.fields@.take(i + 1).drop_last() =~= self.fields@.take(i as int));
            }
            world.register_component(&entity, self.fields[i]);
            i += 1;
        }
        proof {
            assert(self.fields@.take(i as int) =~= self.fields@);
        }
    }

    fn pre_user_update(&mut self, world: &ComponentStorage) -> (changed: usize)
        ensures
            final(self).spec_behaviour() == old(self).spec_behaviour(),
    {
        let mut changed: usize = 0;
        let mut i: usize = 0;
        let ghost before = self.fields@;
        let ghost after = pulled(before, self.entity.0 as int, world@);
        while i < self.fields.len()
            invariant
                i <= self.fields.len(),
                self.fields.len() == before.len(),
                self.entity == old(self).entity,
                self.behaviour == old(self).behaviour,
                before == old(self).fields@,
                after == pulled(before, self.entity.0 as int, world@),
                world.wf(),
                changed <= i,
                changed == differing(before.take(i as int), after.take(i as int)),
                forall|j: int| 0 <= j < i ==> self.fields@[j] == after[j],
                forall|j: int| i <= j < before.len() ==> self.fields@[j] == before[j],
            decreases self.fields.len() - i,
        {
            proof {
                assert(before.take(i + 1).drop_last() =~= before.take(i as int));
                assert(after.take(i + 1).drop_last() =~= after.take(i as int));
            }
            let mine = self.fields[i];
            match world.peek(&self.entity, mine.kind()) {
                Ok(theirs) => {
                    if mine != theirs {
                        self.fields[i] = theirs;
                        changed += 1;
                    }
                },
                Err(_) => {},
            }
            i += 1;
        }
        proof {
            assert(before.take(i as int) =~= before);
            assert(after.take(i as int) =~= after);
            assert(self.fields@ =~= after);
        }
        changed
    }

    fn post_user_update(&mut self, world: &mut ComponentStorage) -> (written: usize)
        ensures
            *final(self) == *old(self),
    {
        let mut written: usize = 0;
        let mut i: usize = 0;
        let ghost e = self.entity.0 as int;
        while i < self.fields.len()
            invariant
                i <= self.fields.len(),
                e == self.entity.0 as int,
                world.wf(),
                world.script_column() == old(world).script_column(),
                world@ == published(self.fields@.take(i as int), e, old(world)@),
                written <= i,
                written == writes(self.fields@.take(i as int), e, old(world)@),
            decreases self.fields.len() - i,
        {
            proof {
                assert(self.fields@.take(i + 1).drop_last() =~= self.fields@.take(i as int));
            }
            let mine = self.fields[i];
            let ghost v = world@;
            proof {
                world.lemma_wf_model();
            }
            match world.get_entity_component_mut(&self.entity, mine.kind()) {
                Ok(mut guard) => {
                    let ghost held = world@;
                    let theirs = guard.value();
                    proof {
                        let s = v.slot(mine.kind(), e).unwrap();
                        lemma_with_slot_reads(
                            v,
                            mine.kind(),
                            e,
                            Some(Slot { value: s.value, borrow: BorrowState::Exclusive }),
                            mine.kind(),
                            e,
                        );
                        lemma_with_slot_twice(
                            v,
                            mine.kind(),
                            e,
                            Some(Slot { value: s.value, borrow: BorrowState::Exclusive }),
                            Some(Slot { value: mine, borrow: BorrowState::Free }),
                        );
                        lemma_with_slot_same(v, mine.kind(), e);
                    }
                    if theirs != mine {
                        guard.set(mine);
                        written += 1;
                    }
                    world.release_mut(guard);
                },
                Err(_) => {},
            }
            i += 1;
        }
        proof {
            assert(self.fields@.take(i as int) =~= self.fields@);
        }
        written
    }
}

/// The store after the scripts of the first `upto` entities, in the order of the
/// entities, each published its fields.
pub open spec fn framed(v: StorageView, scripts: Seq<Option<Seq<ComponentValue>>>, upto: int) -> StorageView
    decreases upto,
{
    if upto <= 0 {
        v
    } else {
        let before = framed(v, scripts, upto - 1);
        match scripts[upto - 1] {
            Some(fields) => published(fields, upto - 1, before),
            None => before,
        }
    }
}

/// The private fields of every script of a script column, entity by entity.
pub open spec fn fields_of(column: Seq<Option<ScriptInstance>>) -> Seq<Option<Seq<ComponentValue>>> {
    Seq::new(
        column.len(),
        |e: int|
            match column[e] {
                Some(s) => Some(s.spec_fields()),
                None => None,
            },
    )
}

/// Whether two script columns hold scripts for the same entities, with the same
/// descriptors.
pub open spec fn same_descriptors(
    a: Seq<Option<Seq<ComponentValue>>>,
    b: Seq<Option<Seq<ComponentValue>>>,
) -> bool {
    &&& a.len() == b.len()
    &&& forall|e: int|
        0 <= e < a.len() ==> match (#[trigger] a[e], b[e]) {
            (Some(x), Some(y)) => descriptor(x) == descriptor(y),
            (None, None) => true,
            _ => false,
        }
}

/// The store after the first `upto` scripts ran depends on those scripts only.
pub proof fn lemma_framed_prefix(
    v: StorageView,
    a: Seq<Option<Seq<ComponentValue>>>,
    b: Seq<Option<Seq<ComponentValue>>>,
    upto: int,
)
    requires
        forall|e: int| 0 <= e < upto ==> a[e] == b[e],
    ensures
        framed(v, a, upto) == framed(v, b, upto),
    decreases upto,
{
    if upto > 0 {
        lemma_framed_prefix(v, a, b, upto - 1);
    }
}

/// Registering keeps the store well formed and creates no entity.
pub proof fn lemma_registered_shape(fields: Seq<ComponentValue>, entity: int, v: StorageView)
    requires
        v.wf(),
    ensures
        registered(fields, entity, v).wf(),
        registered(fields, entity, v).entities == v.entities,
    decreases fields.len(),
{
    if fields.len() > 0 {
        lemma_registered_shape(fields.drop_last(), entity, v);
        lemma_register_wf(registered(fields.drop_last(), entity, v), entity, fields.last());
    }
}

/// Publishing keeps the store well formed, creates no entity and no column.
pub proof fn lemma_published_shape(fields: Seq<ComponentValue>, entity: int, v: StorageView)
    requires
        v.wf(),
    ensures
        published(fields, entity, v).wf(),
        published(fields, entity, v).entities == v.entities,
    decreases fields.len(),
{
    if fields.len() > 0 {
        lemma_published_shape(fields.drop_last(), entity, v);
        lemma_published_one_wf(fields.last(), entity, published(fields.drop_last(), entity, v));
    }
}

} // verus!

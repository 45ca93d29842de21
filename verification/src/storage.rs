//! The component store: entities, columns of components with their access
//! states, the scripts, and the frame driver.
use vstd::prelude::*;
use crate::components::{ComponentKind, ComponentValue};
use crate::model::{
    lemma_register_reads, lemma_register_wf, lemma_with_slot_same, lemma_with_slot_wf, ColumnView,
    StorageView,
};
use crate::script::{
    copy_fields, fields_of, framed, lemma_framed_prefix, same_descriptors, ScriptInstance,
};

verus! {

/// An opaque handle to an entity: the index of its slot in every column.
#[derive(Clone, Copy, PartialEq, Eq, Structural, Debug)]
pub struct Entity(pub u32);

/// The access state of one slot.
#[derive(Clone, Copy, PartialEq, Eq, Structural, Debug)]
pub enum BorrowState {
    Free,
    /// Held by this many readers; never zero.
    Shared(usize),
    Exclusive,
}

/// Why an access to a slot was refused.
#[derive(Clone, Copy, PartialEq, Eq, Structural, Debug)]
pub enum AccessError {
    /// The entity has no component of the requested kind.
    NotFound,
    /// The slot is held in a way that excludes the requested access.
    BorrowConflict,
}

/// A registered component together with its access state.
#[derive(Clone, Copy, PartialEq, Eq, Structural, Debug)]
pub struct Slot {
    pub value: ComponentValue,
    pub borrow: BorrowState,
}

impl BorrowState {
    /// A shared state always counts at least one reader.
    pub open spec fn wf(self) -> bool {
        match self {
            BorrowState::Shared(n) => n >= 1,
            _ => true,
        }
    }

    /// Whether one more reader may enter.
    pub open spec fn admits_reader(self) -> bool {
        match self {
            BorrowState::Free => true,
            BorrowState::Shared(n) => n < usize::MAX,
            BorrowState::Exclusive => false,
        }
    }

    /// The state after one more reader entered.
    pub open spec fn with_reader(self) -> BorrowState {
        match self {
            BorrowState::Shared(n) => BorrowState::Shared((n + 1) as usize),
            _ => BorrowState::Shared(1),
        }
    }

    /// The state after one reader left; states without readers stay as they are.
    pub open spec fn without_reader(self) -> BorrowState {
        match self {
            BorrowState::Shared(n) => if n <= 1 {
                BorrowState::Free
            } else {
                BorrowState::Shared((n - 1) as usize)
            },
            other => other,
        }
    }
}

/// What everything in the store is capable of: a setup hook that the frame
/// driver runs once, and an update hook that it runs every frame. Both are
/// given the store.
pub trait Component {
    /// Runs once, before the first update.
    fn setup(&mut self, world: &mut ComponentStorage)
        requires
            old(world).wf(),
        ensures
            final(world).wf(),
    ;

    /// Runs every frame.
    fn update(&mut self, world: &mut ComponentStorage)
        requires
            old(world).wf(),
        ensures
            final(world).wf(),
    ;
}

/// One column of the store.
struct Column {
    kind: ComponentKind,
    slots: Vec<Option<Slot>>,
}

impl View for Column {
    type V = ColumnView;

    closed spec fn view(&self) -> ColumnView {
        ColumnView { kind: self.kind, slots: self.slots@ }
    }
}

/// The component store: for every known component kind one column with a slot
/// per entity, and the column of the attached scripts.
pub struct ComponentStorage {
    entities: u32,
    columns: Vec<Column>,
    scripts: Vec<Option<ScriptInstance>>,
}

impl View for ComponentStorage {
    type V = StorageView;

    closed spec fn view(&self) -> StorageView {
        StorageView {
            entities: self.entities as nat,
            columns: Seq::new(self.columns.len() as nat, |c: int| self.columns[c]@),
        }
    }
}

impl ComponentStorage {
    /// For each entity, its script, if it has one.
    pub closed spec fn script_column(&self) -> Seq<Option<ScriptInstance>> {
        self.scripts@
    }

    /// The script of `entity`, if it has one.
    pub open spec fn script_at(&self, entity: int) -> Option<ScriptInstance> {
        if 0 <= entity < self.script_column().len() {
            self.script_column()[entity]
        } else {
            None
        }
    }

    /// For each entity, the private fields of its script, if it has one.
    pub open spec fn scripts(&self) -> Seq<Option<Seq<ComponentValue>>> {
        fields_of(self.script_column())
    }

    /// The store's invariant: the model is well formed and every script sits in
    /// the slot of the entity that owns it.
    pub closed spec fn wf(&self) -> bool {
        &&& self@.wf()
        &&& self.scripts.len() == self.entities
        &&& forall|e: int|
            0 <= e < self.scripts.len() ==> match #[trigger] self.scripts[e] {
                Some(s) => s.spec_entity().0 == e,
                None => true,
            }
    }

    /// A well-formed store has a well-formed model and one script slot per entity,
    /// and every script is bound to the entity whose slot it sits in.
    pub proof fn lemma_wf_model(&self)
        requires
            self.wf(),
        ensures
            self@.wf(),
            self.script_column().len() == self@.entities,
            forall|e: int|
                0 <= e < self@.entities ==> match #[trigger] self.script_column()[e] {
                    Some(s) => s.spec_entity().0 == e,
                    None => true,
                },
    {
    }

    /// An empty store: no entity and no known component kind.
    pub fn new() -> (r: ComponentStorage)
        ensures
            r.wf(),
            r@ == StorageView::empty(),
            r.scripts() == Seq::<Option<Seq<ComponentValue>>>::empty(),
    {
        let r = ComponentStorage { entities: 0, columns: Vec::new(), scripts: Vec::new() };
        proof {
            assert(r@.columns =~= StorageView::empty().columns);
            assert(r.scripts() =~= Seq::<Option<Seq<ComponentValue>>>::empty());
        }
        r
    }

    /// How many entities were created.
    pub fn entity_count(&self) -> (n: u32)
        ensures
            n == self@.entities,
    {
        self.entities
    }

    /// The position of the column of `kind`, if the kind is known.
    fn find_column(&self, kind: ComponentKind) -> (r: Option<usize>)
        requires
            self.wf(),
        ensures
            match r {
                Some(c) => c < self.columns.len() && self.columns[c as int].kind == kind
                    && self@.knows(kind) && self@.column_of(kind) == c,
                None => !self@.knows(kind),
            },
    {
        let mut c: usize = 0;
        while c < self.columns.len()
            invariant
                self.wf(),
                c <= self.columns.len(),
                forall|d: int| 0 <= d < c ==> self.columns[d].kind != kind,
            decreases self.columns.len() - c,
        {
            if self.columns[c].kind == kind {
                proof {
                    assert(self@.columns[c as int].kind == kind);
                    let k = self@.column_of(kind);
                    assert(self@.columns[k].kind == kind);
                }
                return Some(c);
            }
            c += 1;
        }
        assert forall|d: int| 0 <= d < self@.columns.len() implies (#[trigger] self@.columns[d]).kind
            != kind by {
            assert(self.columns[d].kind != kind);
        }
        None
    }

    /// Allocates a fresh entity. Every column grows by one empty slot.
    pub fn create_entity(&mut self) -> (e: Entity)
        requires
            old(self).wf(),
            old(self)@.entities < u32::MAX,
        ensures
            final(self).wf(),
            final(self)@ == old(self)@.spawn(),
            final(self).script_column() == old(self).script_column().push(None),
            final(self).scripts() == old(self).scripts().push(None),
            e.0 == old(self)@.entities,
    {
        let id: u32 = self.entities;
        let mut c: usize = 0;
        while c < self.columns.len()
            invariant
                c <= self.columns.len(),
                self.columns.len() == old(self).columns.len(),
                self.entities == old(self).entities,
                self.scripts == old(self).scripts,
                forall|d: int|
                    0 <= d < c ==> (#[trigger] self.columns[d]).kind == old(self).columns[d].kind
                        && self.columns[d].slots@ == old(self).columns[d].slots@.push(None),
                forall|d: int| c <= d < self.columns.len() ==> self.columns[d] == old(self).columns[d],
            decreases self.columns.len() - c,
        {
            self.columns[c].slots.push(None);
            c += 1;
        }
        self.scripts.push(None);
        self.entities = id + 1;
        proof {
            assert(self@.columns =~= old(self)@.spawn().columns);
            assert(self.scripts() =~= old(self).scripts().push(None));
        }
        Entity(id)
    }

    /// Stores `script` as the script of `entity`, in place of one already there.
    /// A script bound to another entity, or an entity that was never created,
    /// leaves the store as it is.
    pub fn register_script(&mut self, entity: &Entity, script: ScriptInstance)
        requires
            old(self).wf(),
        ensures
            final(self).wf(),
            final(self)@ == old(self)@,
            final(self).script_column() == if entity.0 < old(self)@.entities && script.spec_entity()
                == *entity {
                old(self).script_column().update(entity.0 as int, Some(script))
            } else {
                old(self).script_column()
            },
            final(self).scripts() == if entity.0 < old(self)@.entities && script.spec_entity() == *entity {
                old(self).scripts().update(entity.0 as int, Some(script.spec_fields()))
            } else {
                old(self).scripts()
            },
    {
        if entity.0 < self.entities && script.entity().0 == entity.0 {
            self.scripts[entity.0 as usize] = Some(script);
            proof {
                assert(self.scripts() =~= old(self).scripts().update(
                    entity.0 as int,
                    Some(script.spec_fields()),
                ));
            }
        }
    }

    /// Whether `entity` has a script.
    pub fn has_script(&self, entity: &Entity) -> (r: bool)
        requires
            self.wf(),
        ensures
            r == (entity.0 < self@.entities && self.scripts()[entity.0 as int].is_some()),
    {
        if entity.0 < self.entities {
            self.scripts[entity.0 as usize].is_some()
        } else {
            false
        }
    }

    /// A copy of the private fields of the script of `entity`, if it has one.
    pub fn script_fields(&self, entity: &Entity) -> (r: Option<Vec<ComponentValue>>)
        requires
            self.wf(),
        ensures
            match r {
                Some(f) => entity.0 < self@.entities && self.scripts()[entity.0 as int] == Some(f@),
                None => entity.0 >= self@.entities || self.scripts()[entity.0 as int].is_none(),
            },
    {
        if entity.0 < self.entities {
            match &self.scripts[entity.0 as usize] {
                Some(s) => Some(copy_fields(s.fields())),
                None => None,
            }
        } else {
            None
        }
    }

    /// Runs the setup hook (`first_time`) or the update hook of every data
    /// component whose slot is free, column by column in the order of first
    /// registration, and stores what the hook left.
    fn run_data_hooks(&mut self, first_time: bool)
        requires
            old(self).wf(),
        ensures
            final(self).wf(),
            final(self)@ == old(self)@,
            final(self).scripts == old(self).scripts,
            final(self).entities == old(self).entities,
    {
        let mut c: usize = 0;
        while c < self.columns.len()
            invariant
                self.wf(),
                self@ == old(self)@,
                self.scripts == old(self).scripts,
                self.entities == old(self).entities,
                self.columns.len() == old(self).columns.len(),
                c <= self.columns.len(),
            decreases self.columns.len() - c,
        {
            let kind = self.columns[c].kind;
            let mut e: usize = 0;
            while e < self.entities as usize
                invariant
                    self.wf(),
                    self@ == old(self)@,
                    self.scripts == old(self).scripts,
                    self.entities == old(self).entities,
                    self.columns.len() == old(self).columns.len(),
                    c < self.columns.len(),
                    self.columns[c as int].kind == kind,
                decreases self.entities - e,
            {
                proof {
                    assert(self@.columns[c as int].slots.len() == self.entities);
                    assert(self@.columns[c as int].slots[e as int] == self.columns[c as int].slots[e as int]);
                    assert(self@.columns[c as int].kind == kind);
                    let k = self@.column_of(kind);
                    assert(self@.columns[k].kind == kind);
                    assert(k == c);
                    lemma_with_slot_same(self@, kind, e as int);
                }
                match self.columns[c].slots[e] {
                    Some(Slot { value: ComponentValue::Transform(mut t), borrow: BorrowState::Free }) => {
                        if first_time {
                            t.setup(self);
                        } else {
                            t.update(self);
                        }
                        self.set_slot(
                            c,
                            e,
                            kind,
                            Some(Slot { value: ComponentValue::Transform(t), borrow: BorrowState::Free }),
                        );
                    },
                    Some(Slot { value: ComponentValue::MeshInstance(mut m), borrow: BorrowState::Free }) => {
                        if first_time {
                            m.setup(self);
                        } else {
                            m.update(self);
                        }
                        self.set_slot(
                            c,
                            e,
                            kind,
                            Some(Slot { value: ComponentValue::MeshInstance(m), borrow: BorrowState::Free }),
                        );
                    },
                    _ => {},
                }
                e += 1;
            }
            c += 1;
        }
    }

    /// Runs the setup hooks (`first_time`) or the update hooks of everything in
    /// the store: the data components first, then the scripts in the order of
    /// the entities.
    fn run_hooks(&mut self, first_time: bool)
        requires
            old(self).wf(),
        ensures
            final(self).wf(),
            final(self)@ == framed(old(self)@, final(self).scripts(), old(self)@.entities as int),
            final(self)@.entities == old(self)@.entities,
            same_descriptors(final(self).scripts(), old(self).scripts()),
    {
        self.run_data_hooks(first_time);
        let n: usize = self.scripts.len();
        let mut e: usize = 0;
        while e < n
            invariant
                self.wf(),
                e <= n,
                n == self.scripts.len(),
                n == old(self).scripts.len(),
                n == old(self).entities,
                self@ == framed(old(self)@, self.scripts(), e as int),
                same_descriptors(self.scripts(), old(self).scripts()),
            decreases n - e,
        {
            let ghost before = self.scripts();
            let taken = self.scripts[e].take();
            let ghost during = self.scripts();
            proof {
                assert(during =~= before.update(e as int, None));
            }
            match taken {
                Some(mut s) => {
                    if first_time {
                        s.setup(self);
                    } else {
                        s.update(self);
                    }
                    proof {
                        assert(self.scripts().len() == n);
                        assert(self.scripts() == during);
                    }
                    let ghost held = self.scripts;
                    let ghost authored = s.spec_fields();
                    self.scripts[e] = Some(s);
                    proof {
                        assert forall|j: int| 0 <= j < n && j != e implies self.scripts()[j]
                            == before[j] by {
                            assert(self.scripts[j] == held[j]);
                            assert(during[j] == before[j]);
                        }
                        assert(self.scripts()[e as int] == Some(authored));
                        assert(before[e as int] is Some);
                        assert forall|j: int| 0 <= j < n implies match (
                            #[trigger] self.scripts()[j],
                            old(self).scripts()[j],
                        ) {
                            (Some(x), Some(y)) => crate::script::descriptor(x) == crate::script::descriptor(y),
                            (None, None) => true,
                            _ => false,
                        } by {
                            if j != e {
                                assert(self.scripts()[j] == before[j]);
                            }
                        }
                        lemma_framed_prefix(old(self)@, before, self.scripts(), e as int);
                    }
                },
                None => {
                    proof {
                        assert(self.scripts() =~= before);
                        lemma_framed_prefix(old(self)@, before, self.scripts(), e as int);
                    }
                },
            }
            e += 1;
        }
    }

    /// Runs the setup hook of everything in the store once: first the data
    /// components, column by column in the order of first registration, whose
    /// hooks change nothing; then the scripts, in the order of the entities,
    /// each with the pull, its user setup code and the publish. Whatever the
    /// user code did, the store ends as the store before the call with every
    /// script's fields published into it in that order, and no script changed
    /// its descriptor.
    pub fn setup_components(&mut self)
        requires
            old(self).wf(),
        ensures
            final(self).wf(),
            final(self)@ == framed(old(self)@, final(self).scripts(), old(self)@.entities as int),
            final(self)@.entities == old(self)@.entities,
            same_descriptors(final(self).scripts(), old(self).scripts()),
    {
        self.run_hooks(true);
    }

    /// Runs one frame, the update hook of everything in the store: first the
    /// data components, column by column in the order of first registration,
    /// whose hooks change nothing; then the scripts, in the order of the
    /// entities. Each script pulls its fields from the store, runs its user
    /// update code and publishes its fields. Whatever the user code did, the
    /// store ends as the store before the frame with every script's fields
    /// published into it in that order, and no script changed its descriptor.
    pub fn update_components(&mut self)
        requires
            old(self).wf(),
        ensures
            final(self).wf(),
            final(self)@ == framed(old(self)@, final(self).scripts(), old(self)@.entities as int),
            final(self)@.entities == old(self)@.entities,
            same_descriptors(final(self).scripts(), old(self).scripts()),
    {
        self.run_hooks(false);
    }

    /// Replaces the slot at a known position and shows the model's change.
    fn set_slot(&mut self, c: usize, e: usize, kind: ComponentKind, slot: Option<Slot>)
        requires
            old(self).wf(),
            c < old(self).columns.len(),
            old(self).columns[c as int].kind == kind,
            e < old(self).entities,
            match slot {
                Some(s) => s.value.kind() == kind && s.borrow.wf(),
                None => true,
            },
        ensures
            final(self).wf(),
            final(self)@ == old(self)@.with_slot(kind, e as int, slot),
            final(self).scripts == old(self).scripts,
            final(self).columns.len() == old(self).columns.len(),
            final(self).entities == old(self).entities,
    {
        proof {
            assert(old(self)@.columns[c as int].kind == kind);
            let k = old(self)@.column_of(kind);
            assert(old(self)@.columns[k].kind == kind);
            assert(k == c);
            assert(old(self)@.columns[c as int].slots.len() == old(self).entities);
        }
        self.columns[c].slots[e] = slot;
        proof {
            let after = old(self)@.with_slot(kind, e as int, slot);
            assert(self@.columns =~= after.columns);
            lemma_with_slot_wf(old(self)@, kind, e as int, slot);
        }
    }

    /// Registers `value` for `entity` under the kind of the value. A component of
    /// that kind already there is replaced; nothing is merged.
    pub fn register_component(&mut self, entity: &Entity, value: ComponentValue)
        requires
            old(self).wf(),
        ensures
            final(self).wf(),
            final(self)@ == old(self)@.register(entity.0 as int, value),
            final(self).script_column() == old(self).script_column(),
            entity.0 < old(self)@.entities ==> (final(self)@.slot(value.kind(), entity.0 as int) matches Some(s)
                && s.value == value),
    {
        proof {
            if entity.0 < self.entities {
                lemma_register_reads(self@, entity.0 as int, value, value.kind(), entity.0 as int);
            }
        }
        if entity.0 >= self.entities {
            return ;
        }
        let e: usize = entity.0 as usize;
        let kind = value.kind();
        match self.find_column(kind) {
            Some(c) => {
                let borrow = match self.columns[c].slots[e] {
                    Some(s) => s.borrow,
                    None => BorrowState::Free,
                };
                proof {
                    assert(self@.columns[c as int].slots[e as int] == self.columns[c as int].slots[e as int]);
                }
                self.set_slot(c, e, kind, Some(Slot { value, borrow }));
            },
            None => {
                let mut slots: Vec<Option<Slot>> = Vec::new();
                let mut i: usize = 0;
                while i < self.entities as usize
                    invariant
                        i <= self.entities,
                        e < self.entities,
                        slots@ =~= Seq::new(
                            i as nat,
                            |f: int|
                                if f == e as int {
                                    Some(Slot { value, borrow: BorrowState::Free })
                                } else {
                                    None
                                },
                        ),
                    decreases self.entities - i,
                {
                    if i == e {
                        slots.push(Some(Slot { value, borrow: BorrowState::Free }));
                    } else {
                        slots.push(None);
                    }
                    i += 1;
                }
                self.columns.push(Column { kind, slots });
                proof {
                    let after = old(self)@.register(entity.0 as int, value);
                    let last = old(self)@.columns.len() as int;
                    assert(self@.columns[last].slots =~= after.columns[last].slots);
                    assert(self@.columns =~= after.columns);
                    lemma_register_wf(old(self)@, entity.0 as int, value);
                }
            },
        }
    }

    /// Looks at the slot of `entity` for `kind` without changing anything.
    fn slot_at(&self, entity: &Entity, kind: ComponentKind) -> (r: Option<(usize, Slot)>)
        requires
            self.wf(),
        ensures
            match r {
                Some((c, s)) => c < self.columns.len() && self.columns[c as int].kind == kind
                    && entity.0 < self.entities && self@.slot(kind, entity.0 as int) == Some(s)
                    && s.value.kind() == kind && s.borrow.wf(),
                None => self@.slot(kind, entity.0 as int).is_none(),
            },
    {
        if entity.0 >= self.entities {
            return None;
        }
        let e: usize = entity.0 as usize;
        match self.find_column(kind) {
            Some(c) => {
                proof {
                    assert(self@.columns[c as int].slots[e as int] == self.columns[c as int].slots[e as int]);
                }
                match self.columns[c].slots[e] {
                    Some(s) => Some((c, s)),
                    None => None,
                }
            },
            None => None,
        }
    }

    /// Reads the component of `entity` of the given kind: a read that begins and
    /// ends within the call, so the store is left as it was.
    pub fn peek(&self, entity: &Entity, kind: ComponentKind) -> (r: Result<ComponentValue, AccessError>)
        requires
            self.wf(),
        ensures
            r == self@.read(kind, entity.0 as int),
    {
        match self.slot_at(entity, kind) {
            None => Err(AccessError::NotFound),
            Some((_, s)) => match s.borrow {
                BorrowState::Free => Ok(s.value),
                BorrowState::Shared(n) => if n < usize::MAX {
                    Ok(s.value)
                } else {
                    Err(AccessError::BorrowConflict)
                },
                BorrowState::Exclusive => Err(AccessError::BorrowConflict),
            },
        }
    }

    /// Begins a shared borrow of the component of `entity` of the given kind.
    /// It is granted unless the slot is absent, held exclusively, or cannot count
    /// another reader; a refusal leaves the store as it was.
    pub fn get_entity_component(&mut self, entity: &Entity, kind: ComponentKind) -> (r: Result<
        SharedBorrow,
        AccessError,
    >)
        requires
            old(self).wf(),
        ensures
            final(self).wf(),
            final(self)@ == old(self)@.acquire_shared(kind, entity.0 as int),
            final(self).script_column() == old(self).script_column(),
            match (r, old(self)@.read(kind, entity.0 as int)) {
                (Ok(g), Ok(v)) => g.entity() == *entity && g.value() == v,
                (Err(a), Err(b)) => a == b,
                _ => false,
            },
    {
        match self.slot_at(entity, kind) {
            None => Err(AccessError::NotFound),
            Some((c, s)) => {
                let next = match s.borrow {
                    BorrowState::Free => BorrowState::Shared(1),
                    BorrowState::Shared(n) => if n < usize::MAX {
                        BorrowState::Shared(n + 1)
                    } else {
                        return Err(AccessError::BorrowConflict);
                    },
                    BorrowState::Exclusive => {
                        return Err(AccessError::BorrowConflict);
                    },
                };
                self.set_slot(c, entity.0 as usize, kind, Some(Slot { value: s.value, borrow: next }));
                Ok(SharedBorrow { entity: *entity, value: s.value })
            },
        }
    }

    /// Begins an exclusive borrow of the component of `entity` of the given kind.
    /// It is granted only where the slot is present and free; a refusal leaves
    /// the store as it was.
    pub fn get_entity_component_mut(&mut self, entity: &Entity, kind: ComponentKind) -> (r: Result<
        ExclusiveBorrow,
        AccessError,
    >)
        requires
            old(self).wf(),
        ensures
            final(self).wf(),
            final(self)@ == old(self)@.acquire_exclusive(kind, entity.0 as int),
            final(self).script_column() == old(self).script_column(),
            match (r, old(self)@.claim(kind, entity.0 as int)) {
                (Ok(g), Ok(v)) => g.entity() == *entity && g.value() == v,
                (Err(a), Err(b)) => a == b,
                _ => false,
            },
    {
        match self.slot_at(entity, kind) {
            None => Err(AccessError::NotFound),
            Some((c, s)) => {
                match s.borrow {
                    BorrowState::Free => {
                        self.set_slot(
                            c,
                            entity.0 as usize,
                            kind,
                            Some(Slot { value: s.value, borrow: BorrowState::Exclusive }),
                        );
                        Ok(ExclusiveBorrow { entity: *entity, value: s.value })
                    },
                    _ => Err(AccessError::BorrowConflict),
                }
            },
        }
    }

    /// Ends a shared borrow: the slot counts one reader less.
    pub fn release(&mut self, guard: SharedBorrow)
        requires
            old(self).wf(),
        ensures
            final(self).wf(),
            final(self)@ == old(self)@.release_shared(guard.value().kind(), guard.entity().0 as int),
            final(self).script_column() == old(self).script_column(),
    {
        let kind = guard.value.kind();
        match self.slot_at(&guard.entity, kind) {
            None => {},
            Some((c, s)) => {
                let next = match s.borrow {
                    BorrowState::Shared(n) => if n <= 1 {
                        BorrowState::Free
                    } else {
                        BorrowState::Shared(n - 1)
                    },
                    other => other,
                };
                self.set_slot(c, guard.entity.0 as usize, kind, Some(Slot { value: s.value, borrow: next }));
            },
        }
    }

    /// Ends an exclusive borrow: the slot takes the guard's value and is free
    /// again. A slot that is not held exclusively is left as it is.
    pub fn release_mut(&mut self, guard: ExclusiveBorrow)
        requires
            old(self).wf(),
        ensures
            final(self).wf(),
            final(self)@ == old(self)@.release_exclusive(guard.entity().0 as int, guard.value()),
            final(self).script_column() == old(self).script_column(),
    {
        let kind = guard.value.kind();
        match self.slot_at(&guard.entity, kind) {
            None => {},
            Some((c, s)) => {
                match s.borrow {
                    BorrowState::Exclusive => {
                        self.set_slot(
                            c,
                            guard.entity.0 as usize,
                            kind,
                            Some(Slot { value: guard.value, borrow: BorrowState::Free }),
                        );
                    },
                    _ => {},
                }
            },
        }
    }

    /// The slots of every entity for `kind`, for bulk iteration; `None` where no
    /// component of that kind was ever registered.
    pub fn get_component_vec(&self, kind: ComponentKind) -> (r: Option<Vec<Option<Slot>>>)
        requires
            self.wf(),
        ensures
            match r {
                Some(v) => self@.knows(kind) && v@ == self@.columns[self@.column_of(kind)].slots,
                None => !self@.knows(kind),
            },
    {
        match self.find_column(kind) {
            None => None,
            Some(c) => {
                let mut out: Vec<Option<Slot>> = Vec::new();
                let mut e: usize = 0;
                while e < self.columns[c].slots.len()
                    invariant
                        c < self.columns.len(),
                        e <= self.columns[c as int].slots.len(),
                        out@ =~= self.columns[c as int].slots@.subrange(0, e as int),
                    decreases self.columns[c as int].slots.len() - e,
                {
                    out.push(self.columns[c].slots[e]);
                    e += 1;
                }
                proof {
                    assert(out@ =~= self.columns[c as int].slots@);
                    assert(self@.columns[c as int].slots == self.columns[c as int].slots@);
                }
                Some(out)
            },
        }
    }
}

/// A shared borrow in progress: the entity, and the value that was read.
#[derive(Debug)]
pub struct SharedBorrow {
    entity: Entity,
    value: ComponentValue,
}

#[derive(Debug)]
/// An exclusive borrow in progress: the entity, and the value that the slot
/// takes when the borrow ends.
pub struct ExclusiveBorrow {
    entity: Entity,
    value: ComponentValue,
}

impl SharedBorrow {
    /// The entity whose slot is held.
    pub closed spec fn spec_entity(&self) -> Entity {
        self.entity
    }

    /// The value that was read.
    pub closed spec fn spec_value(&self) -> ComponentValue {
        self.value
    }

    /// The entity whose slot is held.
    #[verifier::when_used_as_spec(spec_entity)]
    pub fn entity(&self) -> (e: Entity)
        ensures
            e == self.spec_entity(),
    {
        self.entity
    }

    /// The value that was read.
    #[verifier::when_used_as_spec(spec_value)]
    pub fn value(&self) -> (v: ComponentValue)
        ensures
            v == self.spec_value(),
    {
        self.value
    }
}

impl ExclusiveBorrow {
    /// The entity whose slot is held.
    pub closed spec fn spec_entity(&self) -> Entity {
        self.entity
    }

    /// The value that the slot takes when the borrow ends.
    pub closed spec fn spec_value(&self) -> ComponentValue {
        self.value
    }

    /// The entity whose slot is held.
    #[verifier::when_used_as_spec(spec_entity)]
    pub fn entity(&self) -> (e: Entity)
        ensures
            e == self.spec_entity(),
    {
        self.entity
    }

    /// The value that the slot takes when the borrow ends.
    #[verifier::when_used_as_spec(spec_value)]
    pub fn value(&self) -> (v: ComponentValue)
        ensures
            v == self.spec_value(),
    {
        self.value
    }

    /// Replaces the value to be stored. A value of another kind is refused: the
    /// guard stays as it is and the answer is `false`.
    pub fn set(&mut self, value: ComponentValue) -> (accepted: bool)
        ensures
            accepted == (value.kind() == old(self).value().kind()),
            final(self).entity() == old(self).entity(),
            final(self).value() == if accepted {
                value
            } else {
                old(self).value()
            },
    {
        if value.kind() == self.value.kind() {
            self.value = value;
            true
        } else {
            false
        }
    }
}

} // verus!

//! The mathematical model of the component store, and what holds of it.
//!
//! The store is modelled as the number of entities and, for every known
//! component kind, a column with one optional slot per entity. The contracts of
//! the store are stated over this model.
use vstd::prelude::*;
use crate::components::{ComponentKind, ComponentValue};
use crate::storage::{AccessError, BorrowState, Slot};

verus! {

/// The model of one column: a component kind and one optional slot per entity.
pub struct ColumnView {
    pub kind: ComponentKind,
    pub slots: Seq<Option<Slot>>,
}

/// The model of the store's data: the entities and the columns.
pub struct StorageView {
    /// How many entities were created.
    pub entities: nat,
    /// The columns of the known component kinds, in the order of first registration.
    pub columns: Seq<ColumnView>,
}

impl StorageView {
    /// The store without entities and without columns.
    pub open spec fn empty() -> StorageView {
        StorageView { entities: 0, columns: Seq::empty() }
    }

    /// The invariant of the model: every column has one slot per entity, no two
    /// columns are of one kind, and every slot holds a value of its column's
    /// kind in a valid access state.
    pub open spec fn wf(self) -> bool {
        &&& self.entities <= u32::MAX
        &&& forall|c: int| 0 <= c < self.columns.len() ==> (#[trigger] self.columns[c]).slots.len() == self.entities
        &&& forall|c: int, d: int|
            0 <= c < self.columns.len() && 0 <= d < self.columns.len() && c != d
                ==> (#[trigger] self.columns[c]).kind != (#[trigger] self.columns[d]).kind
        &&& forall|c: int, e: int|
            0 <= c < self.columns.len() && 0 <= e < self.entities
                ==> match #[trigger] self.columns[c].slots[e] {
                    Some(s) => s.value.kind() == self.columns[c].kind && s.borrow.wf(),
                    None => true,
                }
    }

    /// Whether a column exists for `kind`.
    pub open spec fn knows(self, kind: ComponentKind) -> bool {
        exists|c: int| 0 <= c < self.columns.len() && (#[trigger] self.columns[c]).kind == kind
    }

    /// The index of the column of `kind`, where one exists.
    pub open spec fn column_of(self, kind: ComponentKind) -> int {
        choose|c: int| 0 <= c < self.columns.len() && (#[trigger] self.columns[c]).kind == kind
    }

    /// The slot of `entity` for `kind`: `None` where nothing is registered.
    pub open spec fn slot(self, kind: ComponentKind, entity: int) -> Option<Slot> {
        if self.knows(kind) && 0 <= entity < self.entities {
            self.columns[self.column_of(kind)].slots[entity]
        } else {
            None
        }
    }

    /// The store with the slot of `entity` for a known `kind` replaced.
    pub open spec fn with_slot(self, kind: ComponentKind, entity: int, slot: Option<Slot>) -> StorageView {
        let c = self.column_of(kind);
        StorageView {
            columns: self.columns.update(
                c,
                ColumnView { kind, slots: self.columns[c].slots.update(entity, slot) },
            ),
            ..self
        }
    }

    /// The store after one more entity was created: every column grows by one
    /// empty slot.
    pub open spec fn spawn(self) -> StorageView {
        StorageView {
            entities: self.entities + 1,
            columns: Seq::new(
                self.columns.len(),
                |c: int| ColumnView { kind: self.columns[c].kind, slots: self.columns[c].slots.push(None) },
            ),
        }
    }

    /// The store after `value` was registered for `entity`. A value already there
    /// is replaced and the slot keeps its access state; a kind seen for the first
    /// time gets a new column behind the others. An entity that was never created
    /// leaves the store as it is.
    pub open spec fn register(self, entity: int, value: ComponentValue) -> StorageView {
        let kind = value.kind();
        if !(0 <= entity < self.entities) {
            self
        } else if self.knows(kind) {
            let borrow = match self.slot(kind, entity) {
                Some(s) => s.borrow,
                None => BorrowState::Free,
            };
            self.with_slot(kind, entity, Some(Slot { value, borrow }))
        } else {
            StorageView {
                columns: self.columns.push(
                    ColumnView {
                        kind,
                        slots: Seq::new(
                            self.entities,
                            |e: int| if e == entity {
                                Some(Slot { value, borrow: BorrowState::Free })
                            } else {
                                None
                            },
                        ),
                    },
                ),
                ..self
            }
        }
    }

    /// What a reader finds in the slot of `entity` for `kind`.
    pub open spec fn read(self, kind: ComponentKind, entity: int) -> Result<ComponentValue, AccessError> {
        match self.slot(kind, entity) {
            None => Err(AccessError::NotFound),
            Some(s) => if s.borrow.admits_reader() {
                Ok(s.value)
            } else {
                Err(AccessError::BorrowConflict)
            },
        }
    }

    /// What a writer finds in the slot of `entity` for `kind`.
    pub open spec fn claim(self, kind: ComponentKind, entity: int) -> Result<ComponentValue, AccessError> {
        match self.slot(kind, entity) {
            None => Err(AccessError::NotFound),
            Some(s) => if s.borrow == BorrowState::Free {
                Ok(s.value)
            } else {
                Err(AccessError::BorrowConflict)
            },
        }
    }

    /// The store after a reader asked for the slot: one more reader where the
    /// slot admits one, else no change.
    pub open spec fn acquire_shared(self, kind: ComponentKind, entity: int) -> StorageView {
        match self.slot(kind, entity) {
            Some(s) => if s.borrow.admits_reader() {
                self.with_slot(kind, entity, Some(Slot { value: s.value, borrow: s.borrow.with_reader() }))
            } else {
                self
            },
            None => self,
        }
    }

    /// The store after a writer asked for the slot: held exclusively where it was
    /// free, else no change.
    pub open spec fn acquire_exclusive(self, kind: ComponentKind, entity: int) -> StorageView {
        match self.slot(kind, entity) {
            Some(s) => if s.borrow == BorrowState::Free {
                self.with_slot(kind, entity, Some(Slot { value: s.value, borrow: BorrowState::Exclusive }))
            } else {
                self
            },
            None => self,
        }
    }

    /// The store after one reader left the slot.
    pub open spec fn release_shared(self, kind: ComponentKind, entity: int) -> StorageView {
        match self.slot(kind, entity) {
            Some(s) => self.with_slot(
                kind,
                entity,
                Some(Slot { value: s.value, borrow: s.borrow.without_reader() }),
            ),
            None => self,
        }
    }

    /// The store after an outside writer stored `value` for `entity`: the slot of
    /// its kind takes the value where it is present and free, else nothing
    /// changes.
    pub open spec fn write(self, entity: int, value: ComponentValue) -> StorageView {
        match self.claim(value.kind(), entity) {
            Ok(_) => self.with_slot(value.kind(), entity, Some(Slot { value, borrow: BorrowState::Free })),
            Err(_) => self,
        }
    }

    /// The store after the writer left the slot and stored `value` in it. A slot
    /// that is not held exclusively is left as it is.
    pub open spec fn release_exclusive(self, entity: int, value: ComponentValue) -> StorageView {
        match self.slot(value.kind(), entity) {
            Some(s) => if s.borrow == BorrowState::Exclusive {
                self.with_slot(value.kind(), entity, Some(Slot { value, borrow: BorrowState::Free }))
            } else {
                self
            },
            None => self,
        }
    }
}

/// Replacing a slot keeps the set of known kinds and their columns' positions.
pub proof fn lemma_with_slot_columns(
    v: StorageView,
    kind: ComponentKind,
    entity: int,
    slot: Option<Slot>,
    other: ComponentKind,
)
    requires
        v.wf(),
        v.knows(kind),
        0 <= entity < v.entities,
    ensures
        v.with_slot(kind, entity, slot).knows(other) == v.knows(other),
        v.knows(other) ==> v.with_slot(kind, entity, slot).column_of(other) == v.column_of(other),
        v.with_slot(kind, entity, slot).entities == v.entities,
        v.with_slot(kind, entity, slot).columns.len() == v.columns.len(),
{
    let w = v.with_slot(kind, entity, slot);
    let c = v.column_of(kind);
    assert(v.columns[c].kind == kind);
    assert forall|d: int| 0 <= d < v.columns.len() implies (#[trigger] w.columns[d]).kind
        == v.columns[d].kind by {}
    if v.knows(other) {
        let k = v.column_of(other);
        assert(v.columns[k].kind == other);
        assert(w.columns[k].kind == other);
        let j = w.column_of(other);
        assert(w.columns[j].kind == other);
        assert(v.columns[j].kind == other);
        assert(j == k);
    } else {
        if w.knows(other) {
            let j = w.column_of(other);
            assert(w.columns[j].kind == other);
            assert(v.columns[j].kind == other);
        }
    }
}

/// Replacing a slot changes what is read at that place and nowhere else.
pub proof fn lemma_with_slot_reads(
    v: StorageView,
    kind: ComponentKind,
    entity: int,
    slot: Option<Slot>,
    other: ComponentKind,
    at: int,
)
    requires
        v.wf(),
        v.knows(kind),
        0 <= entity < v.entities,
    ensures
        v.with_slot(kind, entity, slot).slot(other, at) == if other == kind && at == entity {
            slot
        } else {
            v.slot(other, at)
        },
{
    lemma_with_slot_columns(v, kind, entity, slot, other);
    let c = v.column_of(kind);
    assert(v.columns[c].kind == kind);
    assert(v.columns[c].slots.len() == v.entities);
    if v.knows(other) {
        let k = v.column_of(other);
        assert(v.columns[k].kind == other);
    }
}

/// Replacing a slot by a slot of the column's kind keeps the store well formed.
pub proof fn lemma_with_slot_wf(v: StorageView, kind: ComponentKind, entity: int, slot: Option<Slot>)
    requires
        v.wf(),
        v.knows(kind),
        0 <= entity < v.entities,
        match slot {
            Some(s) => s.value.kind() == kind && s.borrow.wf(),
            None => true,
        },
    ensures
        v.with_slot(kind, entity, slot).wf(),
{
    let w = v.with_slot(kind, entity, slot);
    let c = v.column_of(kind);
    assert(v.columns[c].kind == kind);
    assert forall|d: int| 0 <= d < w.columns.len() implies (#[trigger] w.columns[d]).slots.len()
        == w.entities by {
        assert(v.columns[d].slots.len() == v.entities);
    }
    assert forall|d: int, f: int|
        0 <= d < w.columns.len() && 0 <= f < w.columns.len() && d != f implies (#[trigger] w.columns[d]).kind
        != (#[trigger] w.columns[f]).kind by {
        assert(v.columns[d].kind != v.columns[f].kind);
    }
    assert forall|d: int, f: int| 0 <= d < w.columns.len() && 0 <= f < w.entities implies match #[trigger] w.columns[d].slots[f] {
        Some(s) => s.value.kind() == w.columns[d].kind && s.borrow.wf(),
        None => true,
    } by {
        assert(v.columns[d].slots.len() == v.entities);
        if d == c && f == entity {
        } else {
            assert(w.columns[d].slots[f] == v.columns[d].slots[f]);
        }
    }
}

/// Of two replacements at one place only the second shows.
pub proof fn lemma_with_slot_twice(
    v: StorageView,
    kind: ComponentKind,
    entity: int,
    first: Option<Slot>,
    second: Option<Slot>,
)
    requires
        v.wf(),
        v.knows(kind),
        0 <= entity < v.entities,
    ensures
        v.with_slot(kind, entity, first).with_slot(kind, entity, second) == v.with_slot(
            kind,
            entity,
            second,
        ),
{
    lemma_with_slot_columns(v, kind, entity, first, kind);
    let c = v.column_of(kind);
    assert(v.columns[c].kind == kind);
    assert(v.columns[c].slots.len() == v.entities);
    let a = v.with_slot(kind, entity, first).with_slot(kind, entity, second);
    let b = v.with_slot(kind, entity, second);
    assert(a.columns[c].slots =~= b.columns[c].slots);
    assert(a.columns =~= b.columns);
}

/// Replacing a slot by what it holds changes nothing.
pub proof fn lemma_with_slot_same(v: StorageView, kind: ComponentKind, entity: int)
    requires
        v.wf(),
        v.knows(kind),
        0 <= entity < v.entities,
    ensures
        v.with_slot(kind, entity, v.slot(kind, entity)) == v,
{
    let c = v.column_of(kind);
    assert(v.columns[c].kind == kind);
    assert(v.columns[c].slots.len() == v.entities);
    let a = v.with_slot(kind, entity, v.slot(kind, entity));
    assert(a.columns[c].slots =~= v.columns[c].slots);
    assert(a.columns =~= v.columns);
}

/// Registering keeps the store well formed and creates no entity.
pub proof fn lemma_register_wf(v: StorageView, entity: int, value: ComponentValue)
    requires
        v.wf(),
    ensures
        v.register(entity, value).wf(),
        v.register(entity, value).entities == v.entities,
{
    let kind = value.kind();
    let w = v.register(entity, value);
    if 0 <= entity < v.entities {
        if v.knows(kind) {
            let c = v.column_of(kind);
            assert(v.columns[c].kind == kind);
            assert(v.columns[c].slots.len() == v.entities);
            let borrow = match v.slot(kind, entity) {
                Some(s) => s.borrow,
                None => BorrowState::Free,
            };
            assert(v.slot(kind, entity) == v.columns[c].slots[entity]);
            lemma_with_slot_wf(v, kind, entity, Some(Slot { value, borrow }));
        } else {
            let last = v.columns.len() as int;
            assert forall|c: int, d: int|
                0 <= c < w.columns.len() && 0 <= d < w.columns.len() && c != d implies (#[trigger] w.columns[c]).kind
                != (#[trigger] w.columns[d]).kind by {
                if c < last {
                    assert(v.columns[c].kind == w.columns[c].kind);
                }
                if d < last {
                    assert(v.columns[d].kind == w.columns[d].kind);
                }
            }
            assert forall|c: int| 0 <= c < w.columns.len() implies (#[trigger] w.columns[c]).slots.len()
                == w.entities by {
                if c < last {
                    assert(v.columns[c].slots.len() == v.entities);
                }
            }
            assert forall|c: int, f: int| 0 <= c < w.columns.len() && 0 <= f < w.entities implies match #[trigger] w.columns[c].slots[f] {
                Some(s) => s.value.kind() == w.columns[c].kind && s.borrow.wf(),
                None => true,
            } by {
                if c < last {
                    assert(w.columns[c].slots[f] == v.columns[c].slots[f]);
                }
            }
        }
    }
}

/// A slot holds a value of the kind it is found under, in a valid access state.
pub proof fn lemma_slot_kind(v: StorageView, kind: ComponentKind, entity: int)
    requires
        v.wf(),
    ensures
        match v.slot(kind, entity) {
            Some(s) => s.value.kind() == kind && s.borrow.wf() && v.knows(kind) && 0 <= entity
                < v.entities,
            None => true,
        },
{
    if v.knows(kind) && 0 <= entity < v.entities {
        let c = v.column_of(kind);
        assert(v.columns[c].kind == kind);
        assert(v.columns[c].slots.len() == v.entities);
    }
}

/// Registering changes what is found under the value's kind for that entity,
/// and nothing else: the slot holds the value, in the access state it had, or
/// free if it is new.
pub proof fn lemma_register_reads(
    v: StorageView,
    entity: int,
    value: ComponentValue,
    other: ComponentKind,
    at: int,
)
    requires
        v.wf(),
        0 <= entity < v.entities,
    ensures
        v.register(entity, value).slot(other, at) == if other == value.kind() && at == entity {
            Some(
                Slot {
                    value,
                    borrow: match v.slot(other, at) {
                        Some(s) => s.borrow,
                        None => BorrowState::Free,
                    },
                },
            )
        } else {
            v.slot(other, at)
        },
{
    let kind = value.kind();
    let w = v.register(entity, value);
    if v.knows(kind) {
        let borrow = match v.slot(kind, entity) {
            Some(s) => s.borrow,
            None => BorrowState::Free,
        };
        lemma_with_slot_reads(v, kind, entity, Some(Slot { value, borrow }), other, at);
    } else {
        let last = v.columns.len() as int;
        assert(w.columns[last].kind == kind);
        assert forall|d: int| 0 <= d < last implies (#[trigger] w.columns[d]) == v.columns[d] by {}
        if other == kind {
            assert(w.knows(other));
            let j = w.column_of(other);
            assert(w.columns[j].kind == other);
            if j < last {
                assert(v.columns[j].kind == other);
            }
            assert(j == last);
        } else if v.knows(other) {
            let k = v.column_of(other);
            assert(v.columns[k].kind == other);
            assert(w.columns[k].kind == other);
            let j = w.column_of(other);
            assert(w.columns[j].kind == other);
            assert(j < last);
            assert(v.columns[j].kind == other);
            assert(j == k);
        } else {
            if w.knows(other) {
                let j = w.column_of(other);
                assert(w.columns[j].kind == other);
                assert(j < last);
                assert(v.columns[j].kind == other);
            }
        }
    }
}

} // verus!

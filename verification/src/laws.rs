//! What holds of the store and of the synchronization protocol as a whole.
use vstd::prelude::*;
use crate::components::{ComponentKind, ComponentValue};
use crate::script::{
    framed, lemma_published_shape, published, pulled, writes, writes_one,
};
use crate::model::{
    lemma_register_reads, lemma_register_wf, lemma_slot_kind, lemma_with_slot_reads,
    lemma_with_slot_same, lemma_with_slot_twice, lemma_with_slot_wf, StorageView,
};
use crate::storage::{AccessError, BorrowState, Slot};

verus! {

/// A slot is absent until something is registered in it: a new entity has no
/// component of any kind, and creating it changes no slot of the entities
/// before it.
pub proof fn lemma_new_entity_is_bare(v: StorageView, kind: ComponentKind, at: int)
    requires
        v.wf(),
        v.entities < u32::MAX,
    ensures
        v.spawn().wf(),
        v.spawn().knows(kind) == v.knows(kind),
        v.spawn().slot(kind, at) == v.slot(kind, at),
        v.spawn().slot(kind, v.entities as int).is_none(),
{
    let w = v.spawn();
    assert forall|c: int| 0 <= c < w.columns.len() implies (#[trigger] w.columns[c]).slots.len()
        == w.entities by {
        assert(v.columns[c].slots.len() == v.entities);
    }
    assert forall|c: int, d: int|
        0 <= c < w.columns.len() && 0 <= d < w.columns.len() && c != d implies (#[trigger] w.columns[c]).kind
        != (#[trigger] w.columns[d]).kind by {
        assert(v.columns[c].kind != v.columns[d].kind);
    }
    assert forall|c: int, e: int| 0 <= c < w.columns.len() && 0 <= e < w.entities implies match #[trigger] w.columns[c].slots[e] {
        Some(s) => s.value.kind() == w.columns[c].kind && s.borrow.wf(),
        None => true,
    } by {
        assert(v.columns[c].slots.len() == v.entities);
        if e < v.entities {
            assert(w.columns[c].slots[e] == v.columns[c].slots[e]);
        }
    }
    if v.knows(kind) {
        let k = v.column_of(kind);
        assert(v.columns[k].kind == kind);
        assert(w.columns[k].kind == kind);
        let j = w.column_of(kind);
        assert(w.columns[j].kind == kind);
        assert(v.columns[j].kind == kind);
        assert(j == k);
        assert(v.columns[k].slots.len() == v.entities);
    } else {
        if w.knows(kind) {
            let j = w.column_of(kind);
            assert(w.columns[j].kind == kind);
            assert(v.columns[j].kind == kind);
        }
    }
}

/// Uniqueness: after two registrations of one kind for one entity the slot holds
/// the second value and no trace of the first, the second registration adds no
/// column, and a reader gets the second value unless the slot was held against
/// readers before.
pub proof fn lemma_second_registration_wins(
    v: StorageView,
    entity: int,
    first: ComponentValue,
    second: ComponentValue,
)
    requires
        v.wf(),
        0 <= entity < v.entities,
        first.kind() == second.kind(),
    ensures
        ({
            let twice = v.register(entity, first).register(entity, second);
            &&& twice.slot(second.kind(), entity) matches Some(s) && s.value == second
            &&& twice == v.register(entity, second)
            &&& (match v.slot(second.kind(), entity) {
                Some(s) => s.borrow.admits_reader(),
                None => true,
            }) ==> twice.read(second.kind(), entity) == Ok::<ComponentValue, AccessError>(second)
        }),
{
    let kind = second.kind();
    let once = v.register(entity, first);
    lemma_register_wf(v, entity, first);
    lemma_register_reads(v, entity, first, kind, entity);
    lemma_register_reads(once, entity, second, kind, entity);
    lemma_register_reads(v, entity, second, kind, entity);
    lemma_slot_kind(once, kind, entity);
    if v.knows(kind) {
        let borrow = match v.slot(kind, entity) {
            Some(s) => s.borrow,
            None => BorrowState::Free,
        };
        lemma_with_slot_twice(
            v,
            kind,
            entity,
            Some(Slot { value: first, borrow }),
            Some(Slot { value: second, borrow }),
        );
    } else {
        let last = v.columns.len() as int;
        assert(once.columns[last].kind == kind);
        let c = once.column_of(kind);
        assert(once.columns[c].kind == kind);
        assert(c == last);
        let twice = once.register(entity, second);
        let direct = v.register(entity, second);
        assert(twice.columns[last].slots =~= direct.columns[last].slots);
        assert(twice.columns =~= direct.columns);
    }
}

/// Absence and conflict are told apart: a reader is told "not found" exactly
/// where the entity has no component of the kind, and "borrow conflict" exactly
/// where it has one that admits no reader, as one held exclusively.
pub proof fn lemma_absence_is_not_conflict(v: StorageView, kind: ComponentKind, entity: int)
    ensures
        v.read(kind, entity) == Err::<ComponentValue, AccessError>(AccessError::NotFound) <==> v.slot(
            kind,
            entity,
        ).is_none(),
        v.read(kind, entity) == Err::<ComponentValue, AccessError>(AccessError::BorrowConflict) <==> (
        v.slot(kind, entity) matches Some(s) && !s.borrow.admits_reader()),
        (v.slot(kind, entity) matches Some(s) && s.borrow == BorrowState::Exclusive) ==> v.read(
            kind,
            entity,
        ) == Err::<ComponentValue, AccessError>(AccessError::BorrowConflict),
        v.claim(kind, entity) == Err::<ComponentValue, AccessError>(AccessError::NotFound) <==> v.slot(
            kind,
            entity,
        ).is_none(),
        v.claim(kind, entity) == Err::<ComponentValue, AccessError>(AccessError::BorrowConflict) <==> (
        v.slot(kind, entity) matches Some(s) && s.borrow != BorrowState::Free),
{
}

/// Fields that publish nothing one by one publish nothing together.
pub proof fn lemma_silent_fields(fields: Seq<ComponentValue>, entity: int, v: StorageView)
    requires
        forall|i: int| 0 <= i < fields.len() ==> !writes_one(#[trigger] fields[i], entity, v),
    ensures
        published(fields, entity, v) == v,
        writes(fields, entity, v) == 0,
    decreases fields.len(),
{
    if fields.len() > 0 {
        let front = fields.drop_last();
        assert forall|i: int| 0 <= i < front.len() implies !writes_one(#[trigger] front[i], entity, v) by {
            assert(front[i] == fields[i]);
        }
        lemma_silent_fields(front, entity, v);
        assert(fields.last() == fields[fields.len() - 1]);
    }
}

/// A pull followed by a publish, with nothing changed in between, writes nothing
/// and leaves the store as it was, whatever the fields and the store.
pub proof fn lemma_pull_then_publish_is_silent(fields: Seq<ComponentValue>, entity: int, v: StorageView)
    requires
        v.wf(),
    ensures
        published(pulled(fields, entity, v), entity, v) == v,
        writes(pulled(fields, entity, v), entity, v) == 0,
{
    let got = pulled(fields, entity, v);
    assert forall|i: int| 0 <= i < got.len() implies !writes_one(#[trigger] got[i], entity, v) by {
        lemma_slot_kind(v, fields[i].kind(), entity);
    }
    lemma_silent_fields(got, entity, v);
}

/// Sync idempotence: where every field equals the store's component of its
/// kind, a pull changes no field and the publish after it writes nothing: the
/// store is as it was.
pub proof fn lemma_sync_idempotent(fields: Seq<ComponentValue>, entity: int, v: StorageView)
    requires
        v.wf(),
        forall|i: int|
            0 <= i < fields.len() ==> (v.slot((#[trigger] fields[i]).kind(), entity) matches Some(s)
                && s.value == fields[i]),
    ensures
        pulled(fields, entity, v) == fields,
        published(pulled(fields, entity, v), entity, v) == v,
        writes(pulled(fields, entity, v), entity, v) == 0,
{
    assert(pulled(fields, entity, v) =~= fields);
    lemma_pull_then_publish_is_silent(fields, entity, v);
}

/// External override: after an outside writer stored `x` in a component that a
/// script synchronizes, the pull gives the script's field the value `x`.
pub proof fn lemma_pull_takes_outside_write(
    fields: Seq<ComponentValue>,
    i: int,
    entity: int,
    v: StorageView,
    x: ComponentValue,
)
    requires
        v.wf(),
        0 <= i < fields.len(),
        x.kind() == fields[i].kind(),
        v.claim(x.kind(), entity) is Ok,
    ensures
        v.write(entity, x).read(x.kind(), entity) == Ok::<ComponentValue, AccessError>(x),
        pulled(fields, entity, v.write(entity, x))[i] == x,
{
    lemma_slot_kind(v, x.kind(), entity);
    lemma_with_slot_reads(
        v,
        x.kind(),
        entity,
        Some(Slot { value: x, borrow: BorrowState::Free }),
        x.kind(),
        entity,
    );
}

/// External override, whoever wrote: a field whose component a reader is
/// admitted to has the store's value after the pull.
pub proof fn lemma_pull_takes_store_value(
    fields: Seq<ComponentValue>,
    i: int,
    entity: int,
    v: StorageView,
    x: ComponentValue,
)
    requires
        0 <= i < fields.len(),
        v.read(fields[i].kind(), entity) == Ok::<ComponentValue, AccessError>(x),
    ensures
        pulled(fields, entity, v)[i] == x,
{
}

/// Publishing changes no slot's presence or access state, and no slot of
/// another entity.
pub proof fn lemma_published_keeps_access(
    fields: Seq<ComponentValue>,
    entity: int,
    v: StorageView,
    kind: ComponentKind,
    at: int,
)
    requires
        v.wf(),
    ensures
        match (published(fields, entity, v).slot(kind, at), v.slot(kind, at)) {
            (Some(a), Some(b)) => a.borrow == b.borrow && (at != entity ==> a == b),
            (None, None) => true,
            _ => false,
        },
    decreases fields.len(),
{
    if fields.len() > 0 {
        let front = fields.drop_last();
        let before = published(front, entity, v);
        lemma_published_keeps_access(front, entity, v, kind, at);
        lemma_published_shape(front, entity, v);
        let value = fields.last();
        if writes_one(value, entity, before) {
            lemma_slot_kind(before, value.kind(), entity);
            lemma_with_slot_reads(
                before,
                value.kind(),
                entity,
                Some(Slot { value, borrow: BorrowState::Free }),
                kind,
                at,
            );
        }
    }
}

/// Publish-back: after the publish, the store's component equals the field
/// that mirrors it, where the slot is present and free. Of several fields of one
/// kind the last is the one that stays.
pub proof fn lemma_publish_stores_field(fields: Seq<ComponentValue>, i: int, entity: int, v: StorageView)
    requires
        v.wf(),
        0 <= i < fields.len(),
        v.claim(fields[i].kind(), entity) is Ok,
        forall|j: int| i < j < fields.len() ==> (#[trigger] fields[j]).kind() != fields[i].kind(),
    ensures
        published(fields, entity, v).slot(fields[i].kind(), entity) == Some(
            Slot { value: fields[i], borrow: BorrowState::Free },
        ),
        published(fields, entity, v).read(fields[i].kind(), entity) == Ok::<ComponentValue, AccessError>(
            fields[i],
        ),
    decreases fields.len(),
{
    let kind = fields[i].kind();
    let front = fields.drop_last();
    let before = published(front, entity, v);
    let value = fields.last();
    lemma_published_shape(front, entity, v);
    lemma_published_keeps_access(front, entity, v, kind, entity);
    lemma_slot_kind(before, kind, entity);
    if i == fields.len() - 1 {
        if writes_one(value, entity, before) {
            lemma_with_slot_reads(
                before,
                kind,
                entity,
                Some(Slot { value, borrow: BorrowState::Free }),
                kind,
                entity,
            );
        }
    } else {
        assert forall|j: int| i < j < front.len() implies (#[trigger] front[j]).kind() != front[i].kind() by {
            assert(front[j] == fields[j]);
        }
        assert(front[i] == fields[i]);
        lemma_publish_stores_field(front, i, entity, v);
        assert(value == fields[fields.len() - 1]);
        if writes_one(value, entity, before) {
            lemma_slot_kind(before, value.kind(), entity);
            lemma_with_slot_reads(
                before,
                value.kind(),
                entity,
                Some(Slot { value, borrow: BorrowState::Free }),
                kind,
                entity,
            );
        }
    }
}

/// No feedback loop: a frame in which user code changes no field, after a frame
/// in which it left the fields `authored`, writes nothing to the store and
/// leaves it as the first frame left it. What a script published is not read
/// back as an outside change.
pub proof fn lemma_no_feedback(authored: Seq<ComponentValue>, entity: int, v: StorageView)
    requires
        v.wf(),
    ensures
        ({
            let after_first = published(authored, entity, v);
            let second = pulled(authored, entity, after_first);
            &&& writes(second, entity, after_first) == 0
            &&& published(second, entity, after_first) == after_first
            &&& pulled(second, entity, after_first) == second
        }),
{
    let after_first = published(authored, entity, v);
    lemma_published_shape(authored, entity, v);
    lemma_pull_then_publish_is_silent(authored, entity, after_first);
    let second = pulled(authored, entity, after_first);
    assert forall|i: int| 0 <= i < second.len() implies second[i].kind() == authored[i].kind() by {
        lemma_slot_kind(after_first, authored[i].kind(), entity);
    }
    assert(pulled(second, entity, after_first) =~= second);
}

/// A frame keeps the store well formed and creates no entity.
pub proof fn lemma_framed_shape(v: StorageView, scripts: Seq<Option<Seq<ComponentValue>>>, upto: int)
    requires
        v.wf(),
    ensures
        framed(v, scripts, upto).wf(),
        framed(v, scripts, upto).entities == v.entities,
    decreases upto,
{
    if upto > 0 {
        lemma_framed_shape(v, scripts, upto - 1);
        match scripts[upto - 1] {
            Some(fields) => lemma_published_shape(fields, upto - 1, framed(v, scripts, upto - 1)),
            None => {},
        }
    }
}

/// What a publish leaves in the slots of its entity depends on those slots
/// only: on two stores that agree on the entity, the results agree on it.
pub proof fn lemma_published_is_local(
    fields: Seq<ComponentValue>,
    entity: int,
    a: StorageView,
    b: StorageView,
)
    requires
        a.wf(),
        b.wf(),
        forall|k: ComponentKind| a.slot(k, entity) == b.slot(k, entity),
    ensures
        forall|k: ComponentKind| #[trigger]
            published(fields, entity, a).slot(k, entity) == published(fields, entity, b).slot(k, entity),
    decreases fields.len(),
{
    if fields.len() > 0 {
        let front = fields.drop_last();
        let value = fields.last();
        let pa = published(front, entity, a);
        let pb = published(front, entity, b);
        lemma_published_is_local(front, entity, a, b);
        lemma_published_shape(front, entity, a);
        lemma_published_shape(front, entity, b);
        assert(pa.slot(value.kind(), entity) == pb.slot(value.kind(), entity));
        assert forall|k: ComponentKind| #[trigger]
            published(fields, entity, a).slot(k, entity) == published(fields, entity, b).slot(
                k,
                entity,
            ) by {
            assert(pa.slot(k, entity) == pb.slot(k, entity));
            if writes_one(value, entity, pa) {
                lemma_slot_kind(pa, value.kind(), entity);
                lemma_slot_kind(pb, value.kind(), entity);
                let slot = Some(Slot { value, borrow: BorrowState::Free });
                lemma_with_slot_reads(pa, value.kind(), entity, slot, k, entity);
                lemma_with_slot_reads(pb, value.kind(), entity, slot, k, entity);
            }
        }
    }
}

/// A frame is local to each entity: after it, the slots of an entity with a
/// script are what the publish of that script alone leaves in them, and the
/// slots of an entity without script are as before.
pub proof fn lemma_frame_is_local(
    v: StorageView,
    scripts: Seq<Option<Seq<ComponentValue>>>,
    upto: int,
    kind: ComponentKind,
    entity: int,
)
    requires
        v.wf(),
        0 <= upto <= scripts.len(),
    ensures
        framed(v, scripts, upto).slot(kind, entity) == if 0 <= entity < upto && scripts[entity] is Some {
            published(scripts[entity].unwrap(), entity, v).slot(kind, entity)
        } else {
            v.slot(kind, entity)
        },
    decreases upto,
{
    if upto > 0 {
        let last = upto - 1;
        let before = framed(v, scripts, last);
        lemma_frame_is_local(v, scripts, last, kind, entity);
        lemma_framed_shape(v, scripts, last);
        match scripts[last] {
            Some(fields) => {
                if entity == last {
                    assert forall|k: ComponentKind| before.slot(k, last) == v.slot(k, last) by {
                        lemma_frame_is_local(v, scripts, last, k, last);
                    }
                    lemma_published_is_local(fields, last, before, v);
                } else {
                    lemma_published_keeps_access(fields, last, before, kind, entity);
                }
            },
            None => {},
        }
    }
}

/// Publish-back over a whole frame: after the frame, the store's component of
/// an entity equals the field of the entity's script that mirrors it, where the
/// slot was present and free before the frame. Of several fields of one kind
/// the last is the one that stays.
pub proof fn lemma_frame_publishes_field(
    v: StorageView,
    scripts: Seq<Option<Seq<ComponentValue>>>,
    entity: int,
    i: int,
)
    requires
        v.wf(),
        scripts.len() == v.entities,
        0 <= entity < v.entities,
        scripts[entity] is Some,
        0 <= i < scripts[entity].unwrap().len(),
        v.claim(scripts[entity].unwrap()[i].kind(), entity) is Ok,
        forall|j: int|
            i < j < scripts[entity].unwrap().len() ==> (#[trigger] scripts[entity].unwrap()[j]).kind()
                != scripts[entity].unwrap()[i].kind(),
    ensures
        framed(v, scripts, v.entities as int).read(scripts[entity].unwrap()[i].kind(), entity) == Ok::<
            ComponentValue,
            AccessError,
        >(scripts[entity].unwrap()[i]),
{
    let fields = scripts[entity].unwrap();
    lemma_frame_is_local(v, scripts, v.entities as int, fields[i].kind(), entity);
    lemma_publish_stores_field(fields, i, entity, v);
}

/// The script column after every script pulled its fields from `v` and its
/// user code changed none.
pub open spec fn all_pulled(scripts: Seq<Option<Seq<ComponentValue>>>, v: StorageView) -> Seq<
    Option<Seq<ComponentValue>>,
> {
    Seq::new(
        scripts.len(),
        |e: int|
            match scripts[e] {
                Some(fields) => Some(pulled(fields, e, v)),
                None => None,
            },
    )
}

/// No feedback loop over a whole frame: a frame in which no script's user code
/// changes a field leaves the store as it was, whatever the scripts published
/// in the frames before.
pub proof fn lemma_idle_frame_is_silent(
    v: StorageView,
    scripts: Seq<Option<Seq<ComponentValue>>>,
    upto: int,
)
    requires
        v.wf(),
        0 <= upto <= scripts.len(),
    ensures
        framed(v, all_pulled(scripts, v), upto) == v,
    decreases upto,
{
    if upto > 0 {
        lemma_idle_frame_is_silent(v, scripts, upto - 1);
        match scripts[upto - 1] {
            Some(fields) => lemma_pull_then_publish_is_silent(fields, upto - 1, v),
            None => {},
        }
    }
}

/// While a slot is held exclusively, neither a reader nor a second writer gets
/// it; when the writer leaves without a change, the store is as it was.
pub proof fn lemma_exclusive_borrow(v: StorageView, kind: ComponentKind, entity: int)
    requires
        v.wf(),
        v.claim(kind, entity) is Ok,
    ensures
        ({
            let held = v.acquire_exclusive(kind, entity);
            &&& held.wf()
            &&& held.read(kind, entity) == Err::<ComponentValue, AccessError>(AccessError::BorrowConflict)
            &&& held.claim(kind, entity) == Err::<ComponentValue, AccessError>(AccessError::BorrowConflict)
            &&& held.release_exclusive(entity, v.claim(kind, entity).unwrap()) == v
        }),
{
    let s = v.slot(kind, entity).unwrap();
    let taken = Some(Slot { value: s.value, borrow: BorrowState::Exclusive });
    lemma_slot_kind(v, kind, entity);
    lemma_with_slot_wf(v, kind, entity, taken);
    lemma_with_slot_reads(v, kind, entity, taken, kind, entity);
    lemma_with_slot_twice(v, kind, entity, taken, Some(s));
    lemma_with_slot_same(v, kind, entity);
}

/// While readers hold a slot, no writer gets it; more readers do, as long as
/// they can be counted; and when the reader leaves, the store is as it was.
pub proof fn lemma_shared_borrow(v: StorageView, kind: ComponentKind, entity: int)
    requires
        v.wf(),
        v.read(kind, entity) is Ok,
    ensures
        ({
            let held = v.acquire_shared(kind, entity);
            &&& held.wf()
            &&& held.claim(kind, entity) == Err::<ComponentValue, AccessError>(AccessError::BorrowConflict)
            &&& held.slot(kind, entity).unwrap().borrow.admits_reader() ==> held.read(kind, entity)
                == v.read(kind, entity)
            &&& held.release_shared(kind, entity) == v
        }),
{
    let s = v.slot(kind, entity).unwrap();
    let taken = Some(Slot { value: s.value, borrow: s.borrow.with_reader() });
    lemma_slot_kind(v, kind, entity);
    lemma_with_slot_wf(v, kind, entity, taken);
    lemma_with_slot_reads(v, kind, entity, taken, kind, entity);
    lemma_with_slot_twice(v, kind, entity, taken, Some(s));
    lemma_with_slot_same(v, kind, entity);
}

} // verus!

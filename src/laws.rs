//! Properties that hold across several operations of the service.
use vstd::prelude::*;
use crate::cascade::{items_without, preferences_without, users_without};
use crate::model::{
    Error, Item, ItemPayload, Kind, SystemView, User, UserPayload, UserPreference,
    UserPreferencePayload,
};
use crate::service::{
    ServiceState, add_item_step, add_item_to_system_step, add_preference_step,
    add_preference_to_system_step, add_system_step, add_user_step, add_user_to_system_step,
    delete_item_step, delete_preference_step, delete_system_step, delete_user_step,
    update_item_step, update_preference_step, update_user_step, user_payload_valid,
    item_payload_valid, preference_payload_valid, lookup, listed, nonempty, user_members,
    item_members, preference_members, empty_system,
};

verus! {

/// An operation that changes the service's state.
pub ghost enum Operation {
    AddUser { payload: UserPayload, now: u64 },
    UpdateUser { id: u64, payload: UserPayload, now: u64 },
    DeleteUser { id: u64 },
    AddItem { payload: ItemPayload, now: u64 },
    UpdateItem { id: u64, payload: ItemPayload, now: u64 },
    DeleteItem { id: u64 },
    AddPreference { payload: UserPreferencePayload, now: u64 },
    UpdatePreference { id: u64, payload: UserPreferencePayload, now: u64 },
    DeletePreference { id: u64 },
    AddSystem,
    DeleteSystem { id: u64 },
    AddUserToSystem { system_id: u64, member_id: u64 },
    AddItemToSystem { system_id: u64, member_id: u64 },
    AddPreferenceToSystem { system_id: u64, member_id: u64 },
}

/// The state after `op`.
pub open spec fn apply(s: ServiceState, op: Operation) -> ServiceState {
    match op {
        Operation::AddUser { payload, now } => add_user_step(s, payload, now).0,
        Operation::UpdateUser { id, payload, now } => update_user_step(s, id, payload, now).0,
        Operation::DeleteUser { id } => delete_user_step(s, id).0,
        Operation::AddItem { payload, now } => add_item_step(s, payload, now).0,
        Operation::UpdateItem { id, payload, now } => update_item_step(s, id, payload, now).0,
        Operation::DeleteItem { id } => delete_item_step(s, id).0,
        Operation::AddPreference { payload, now } => add_preference_step(s, payload, now).0,
        Operation::UpdatePreference { id, payload, now } => update_preference_step(
            s,
            id,
            payload,
            now,
        ).0,
        Operation::DeletePreference { id } => delete_preference_step(s, id).0,
        Operation::AddSystem => add_system_step(s).0,
        Operation::DeleteSystem { id } => delete_system_step(s, id).0,
        Operation::AddUserToSystem { system_id, member_id } => add_user_to_system_step(
            s,
            system_id,
            member_id,
        ).0,
        Operation::AddItemToSystem { system_id, member_id } => add_item_to_system_step(
            s,
            system_id,
            member_id,
        ).0,
        Operation::AddPreferenceToSystem { system_id, member_id } => add_preference_to_system_step(
            s,
            system_id,
            member_id,
        ).0,
    }
}

/// The id of the record of the given kind that `op` creates, if it creates one.
pub open spec fn created_id(s: ServiceState, op: Operation, kind: Kind) -> Option<u64> {
    match (op, kind) {
        (Operation::AddUser { payload, now }, Kind::User) => match add_user_step(
            s,
            payload,
            now,
        ).1 {
            Ok(r) => Some(r.id),
            Err(_) => None,
        },
        (Operation::AddItem { payload, now }, Kind::Item) => match add_item_step(
            s,
            payload,
            now,
        ).1 {
            Ok(r) => Some(r.id),
            Err(_) => None,
        },
        (
            Operation::AddPreference { payload, now },
            Kind::UserPreference,
        ) => match add_preference_step(s, payload, now).1 {
            Ok(r) => Some(r.id),
            Err(_) => None,
        },
        (Operation::AddSystem, Kind::RecommendationSystem) => Some(add_system_step(s).1.id),
        _ => None,
    }
}

/// The last id issued for the given kind.
pub open spec fn last_id(s: ServiceState, kind: Kind) -> u64 {
    match kind {
        Kind::User => s.last_user_id,
        Kind::Item => s.last_item_id,
        Kind::UserPreference => s.last_preference_id,
        Kind::RecommendationSystem => s.last_system_id,
    }
}

/// The state after running `ops` in order.
pub open spec fn run(s: ServiceState, ops: Seq<Operation>) -> ServiceState
    decreases ops.len(),
{
    if ops.len() == 0 {
        s
    } else {
        run(apply(s, ops[0]), ops.drop_first())
    }
}

/// The ids of the records of the given kind that `ops` create, in order.
pub open spec fn created_ids(s: ServiceState, ops: Seq<Operation>, kind: Kind) -> Seq<u64>
    decreases ops.len(),
{
    if ops.len() == 0 {
        Seq::empty()
    } else {
        let rest = created_ids(apply(s, ops[0]), ops.drop_first(), kind);
        match created_id(s, ops[0], kind) {
            Some(id) => seq![id].add(rest),
            None => rest,
        }
    }
}

proof fn lemma_one_step(s: ServiceState, op: Operation, kind: Kind)
    requires
        last_id(s, kind) < u64::MAX,
    ensures
        last_id(s, kind) <= last_id(apply(s, op), kind) <= last_id(s, kind) + 1,
        match created_id(s, op, kind) {
            Some(id) => id == last_id(apply(s, op), kind) && id == last_id(s, kind) + 1,
            None => last_id(apply(s, op), kind) == last_id(s, kind),
        },
{
}

/// Ids are never reused: over any run of operations, the ids created for one
/// kind strictly increase, and each is above every id issued for that kind
/// before the run, deleted records included.
pub proof fn lemma_ids_strictly_increase(s: ServiceState, ops: Seq<Operation>, kind: Kind)
    requires
        last_id(s, kind) + ops.len() < u64::MAX,
    ensures
        forall|i: int, j: int|
            0 <= i < j < created_ids(s, ops, kind).len() ==> created_ids(s, ops, kind)[i]
                < created_ids(s, ops, kind)[j],
        forall|i: int|
            0 <= i < created_ids(s, ops, kind).len() ==> last_id(s, kind) < #[trigger] created_ids(
                s,
                ops,
                kind,
            )[i] <= last_id(run(s, ops), kind),
        last_id(s, kind) <= last_id(run(s, ops), kind),
    decreases ops.len(),
{
    if ops.len() > 0 {
        let t = apply(s, ops[0]);
        lemma_one_step(s, ops[0], kind);
        lemma_ids_strictly_increase(t, ops.drop_first(), kind);
        let rest = created_ids(t, ops.drop_first(), kind);
        match created_id(s, ops[0], kind) {
            Some(id) => {
                let all = seq![id].add(rest);
                assert forall|i: int, j: int| 0 <= i < j < all.len() implies all[i] < all[j] by {
                    if i > 0 {
                        assert(all[i] == rest[i - 1]);
                    }
                    assert(all[j] == rest[j - 1]);
                }
                assert forall|i: int| 0 <= i < all.len() implies last_id(s, kind)
                    < #[trigger] all[i] <= last_id(run(s, ops), kind) by {
                    if i > 0 {
                        assert(all[i] == rest[i - 1]);
                    }
                }
            },
            None => {},
        }
    }
}

/// Reading a user back right after creating it gives the created record.
pub proof fn lemma_user_round_trip(s: ServiceState, p: UserPayload, now: u64)
    requires
        s.last_user_id < u64::MAX,
        user_payload_valid(p),
    ensures
        add_user_step(s, p, now).1 is Ok,
        lookup(
            add_user_step(s, p, now).0.users,
            Kind::User,
            add_user_step(s, p, now).1->Ok_0.id,
        ) == add_user_step(s, p, now).1,
{
}

/// Updating a user right after creating it keeps its creation time and stamps
/// the update time, which is not before the creation time when the clock
/// did not go back.
pub proof fn lemma_user_update_keeps_created_at(
    s: ServiceState,
    first: UserPayload,
    now1: u64,
    second: UserPayload,
    now2: u64,
)
    requires
        s.last_user_id < u64::MAX,
        user_payload_valid(first),
        user_payload_valid(second),
        now1 <= now2,
    ensures
        ({
            let (t, created) = add_user_step(s, first, now1);
            let id = created->Ok_0.id;
            let updated = update_user_step(t, id, second, now2).1;
            &&& updated is Ok
            &&& updated->Ok_0.created_at == created->Ok_0.created_at
            &&& updated->Ok_0.updated_at == Some(now2)
            &&& now2 >= created->Ok_0.created_at
        }),
{
}

/// Deleting a user that was added to a recommendation system leaves none of
/// its copies there: listing the system's users then gives the other
/// copies, or `EmptyResult` when there are none.
pub proof fn lemma_user_delete_cascades(s: ServiceState, system_id: u64, member_id: u64)
    requires
        s.valid(),
        s.systems.contains_key(system_id),
        s.users.contains_key(member_id),
    ensures
        ({
            let t = add_user_to_system_step(s, system_id, member_id).0;
            let (w, deleted) = delete_user_step(t, member_id);
            &&& deleted == Ok::<(), Error>(())
            &&& user_members(w, system_id) == nonempty(
                users_without(t.systems[system_id].users, member_id),
            )
            &&& match user_members(w, system_id) {
                Ok(v) => forall|i: int| 0 <= i < v.len() ==> #[trigger] v[i].id != member_id,
                Err(e) => e == Error::EmptyResult,
            }
        }),
{
    let t = add_user_to_system_step(s, system_id, member_id).0;
    let w = delete_user_step(t, member_id).0;
    let kept = users_without(t.systems[system_id].users, member_id);
    assert(w.systems.contains_key(system_id));
    assert forall|i: int| 0 <= i < kept.len() implies #[trigger] kept[i].id != member_id by {
        t.systems[system_id].users.lemma_filter_pred(|x: User| x.id != member_id, i);
    }
}

/// A recommendation system holds a copy of a user taken when it was added:
/// updating the user afterwards does not change what the system lists.
pub proof fn lemma_user_copy_is_a_snapshot(
    s: ServiceState,
    system_id: u64,
    member_id: u64,
    p: UserPayload,
    now: u64,
)
    requires
        s.systems.contains_key(system_id),
        s.users.contains_key(member_id),
    ensures
        ({
            let t = add_user_to_system_step(s, system_id, member_id).0;
            let w = update_user_step(t, member_id, p, now).0;
            &&& user_members(w, system_id) == user_members(t, system_id)
            &&& user_members(t, system_id) == Ok::<Seq<User>, Error>(
                s.systems[system_id].users.push(s.users[member_id]),
            )
        }),
{
    let t = add_user_to_system_step(s, system_id, member_id).0;
    assert(t.systems[system_id].users.len() > 0);
}

/// Reading an item back right after creating it gives the created record.
pub proof fn lemma_item_round_trip(s: ServiceState, p: ItemPayload, now: u64)
    requires
        s.last_item_id < u64::MAX,
        item_payload_valid(p),
    ensures
        add_item_step(s, p, now).1 is Ok,
        lookup(
            add_item_step(s, p, now).0.items,
            Kind::Item,
            add_item_step(s, p, now).1->Ok_0.id,
        ) == add_item_step(s, p, now).1,
{
}

/// Updating an item right after creating it keeps its creation time and stamps
/// the update time, which is not before the creation time when the clock
/// did not go back.
pub proof fn lemma_item_update_keeps_created_at(
    s: ServiceState,
    first: ItemPayload,
    now1: u64,
    second: ItemPayload,
    now2: u64,
)
    requires
        s.last_item_id < u64::MAX,
        item_payload_valid(first),
        item_payload_valid(second),
        now1 <= now2,
    ensures
        ({
            let (t, created) = add_item_step(s, first, now1);
            let id = created->Ok_0.id;
            let updated = update_item_step(t, id, second, now2).1;
            &&& updated is Ok
            &&& updated->Ok_0.created_at == created->Ok_0.created_at
            &&& updated->Ok_0.updated_at == Some(now2)
            &&& now2 >= created->Ok_0.created_at
        }),
{
}

/// Deleting a item that was added to a recommendation system leaves none of
/// its copies there: listing the system's items then gives the other
/// copies, or `EmptyResult` when there are none.
pub proof fn lemma_item_delete_cascades(s: ServiceState, system_id: u64, member_id: u64)
    requires
        s.valid(),
        s.systems.contains_key(system_id),
        s.items.contains_key(member_id),
    ensures
        ({
            let t = add_item_to_system_step(s, system_id, member_id).0;
            let (w, deleted) = delete_item_step(t, member_id);
            &&& deleted == Ok::<(), Error>(())
            &&& item_members(w, system_id) == nonempty(
                items_without(t.systems[system_id].items, member_id),
            )
            &&& match item_members(w, system_id) {
                Ok(v) => forall|i: int| 0 <= i < v.len() ==> #[trigger] v[i].id != member_id,
                Err(e) => e == Error::EmptyResult,
            }
        }),
{
    let t = add_item_to_system_step(s, system_id, member_id).0;
    let w = delete_item_step(t, member_id).0;
    let kept = items_without(t.systems[system_id].items, member_id);
    assert(w.systems.contains_key(system_id));
    assert forall|i: int| 0 <= i < kept.len() implies #[trigger] kept[i].id != member_id by {
        t.systems[system_id].items.lemma_filter_pred(|x: Item| x.id != member_id, i);
    }
}

/// A recommendation system holds a copy of an item taken when it was added:
/// updating the item afterwards does not change what the system lists.
pub proof fn lemma_item_copy_is_a_snapshot(
    s: ServiceState,
    system_id: u64,
    member_id: u64,
    p: ItemPayload,
    now: u64,
)
    requires
        s.systems.contains_key(system_id),
        s.items.contains_key(member_id),
    ensures
        ({
            let t = add_item_to_system_step(s, system_id, member_id).0;
            let w = update_item_step(t, member_id, p, now).0;
            &&& item_members(w, system_id) == item_members(t, system_id)
            &&& item_members(t, system_id) == Ok::<Seq<Item>, Error>(
                s.systems[system_id].items.push(s.items[member_id]),
            )
        }),
{
    let t = add_item_to_system_step(s, system_id, member_id).0;
    assert(t.systems[system_id].items.len() > 0);
}

/// Reading a preference back right after creating it gives the created record.
pub proof fn lemma_preference_round_trip(s: ServiceState, p: UserPreferencePayload, now: u64)
    requires
        s.last_preference_id < u64::MAX,
        preference_payload_valid(p),
    ensures
        add_preference_step(s, p, now).1 is Ok,
        lookup(
            add_preference_step(s, p, now).0.preferences,
            Kind::UserPreference,
            add_preference_step(s, p, now).1->Ok_0.id,
        ) == add_preference_step(s, p, now).1,
{
}

/// Updating a preference right after creating it keeps its creation time and stamps
/// the update time, which is not before the creation time when the clock
/// did not go back.
pub proof fn lemma_preference_update_keeps_created_at(
    s: ServiceState,
    first: UserPreferencePayload,
    now1: u64,
    second: UserPreferencePayload,
    now2: u64,
)
    requires
        s.last_preference_id < u64::MAX,
        preference_payload_valid(first),
        preference_payload_valid(second),
        now1 <= now2,
    ensures
        ({
            let (t, created) = add_preference_step(s, first, now1);
            let id = created->Ok_0.id;
            let updated = update_preference_step(t, id, second, now2).1;
            &&& updated is Ok
            &&& updated->Ok_0.created_at == created->Ok_0.created_at
            &&& updated->Ok_0.updated_at == Some(now2)
            &&& now2 >= created->Ok_0.created_at
        }),
{
}

/// Deleting a preference that was added to a recommendation system leaves none of
/// its copies there: listing the system's preferences then gives the other
/// copies, or `EmptyResult` when there are none.
pub proof fn lemma_preference_delete_cascades(s: ServiceState, system_id: u64, member_id: u64)
    requires
        s.valid(),
        s.systems.contains_key(system_id),
        s.preferences.contains_key(member_id),
    ensures
        ({
            let t = add_preference_to_system_step(s, system_id, member_id).0;
            let (w, deleted) = delete_preference_step(t, member_id);
            &&& deleted == Ok::<(), Error>(())
            &&& preference_members(w, system_id) == nonempty(
                preferences_without(t.systems[system_id].user_preferences, member_id),
            )
            &&& match preference_members(w, system_id) {
                Ok(v) => forall|i: int| 0 <= i < v.len() ==> #[trigger] v[i].id != member_id,
                Err(e) => e == Error::EmptyResult,
            }
        }),
{
    let t = add_preference_to_system_step(s, system_id, member_id).0;
    let w = delete_preference_step(t, member_id).0;
    let kept = preferences_without(t.systems[system_id].user_preferences, member_id);
    assert(w.systems.contains_key(system_id));
    assert forall|i: int| 0 <= i < kept.len() implies #[trigger] kept[i].id != member_id by {
        t.systems[system_id].user_preferences.lemma_filter_pred(
            |x: UserPreference| x.id != member_id,
            i,
        );
    }
}

/// A recommendation system holds a copy of a preference taken when it was added:
/// updating the preference afterwards does not change what the system lists.
pub proof fn lemma_preference_copy_is_a_snapshot(
    s: ServiceState,
    system_id: u64,
    member_id: u64,
    p: UserPreferencePayload,
    now: u64,
)
    requires
        s.systems.contains_key(system_id),
        s.preferences.contains_key(member_id),
    ensures
        ({
            let t = add_preference_to_system_step(s, system_id, member_id).0;
            let w = update_preference_step(t, member_id, p, now).0;
            &&& preference_members(w, system_id) == preference_members(t, system_id)
            &&& preference_members(t, system_id) == Ok::<Seq<UserPreference>, Error>(
                s.systems[system_id].user_preferences.push(s.preferences[member_id]),
            )
        }),
{
    let t = add_preference_to_system_step(s, system_id, member_id).0;
    assert(t.systems[system_id].user_preferences.len() > 0);
}

/// Reading a recommendation system back right after creating it gives the
/// created system, with no members.
pub proof fn lemma_system_round_trip(s: ServiceState)
    requires
        s.last_system_id < u64::MAX,
    ensures
        lookup(
            add_system_step(s).0.systems,
            Kind::RecommendationSystem,
            add_system_step(s).1.id,
        ) == Ok::<SystemView, Error>(add_system_step(s).1),
        add_system_step(s).1 == empty_system(add_system_step(s).1.id),
{
}

/// Listing a store that holds no records gives `EmptyResult`, not an empty
/// list.
pub proof fn lemma_empty_store_lists_nothing<V>(r: Result<Seq<V>, Error>)
    requires
        listed(Map::<u64, V>::empty(), r),
    ensures
        r == Err::<Seq<V>, Error>(Error::EmptyResult),
{
}

} // verus!

//! The operations on users, items, preferences and recommendation systems.
use vstd::prelude::*;
use crate::cascade::{Member, scrub_kind, scrubbed_all};
use crate::ids::IdAllocator;
use crate::model::{
    Error, Item, ItemPayload, Kind, RecommendationSystem, SystemView, User, UserPayload,
    UserPreference, UserPreferencePayload,
};
use crate::store::{EntityStore, in_key_order, lemma_listing_empty};

verus! {

/// What the service holds: the last id issued for each kind, and the records
/// of each kind by id.
pub ghost struct ServiceState {
    pub last_user_id: u64,
    pub last_item_id: u64,
    pub last_preference_id: u64,
    pub last_system_id: u64,
    pub users: Map<u64, User>,
    pub items: Map<u64, Item>,
    pub preferences: Map<u64, UserPreference>,
    pub systems: Map<u64, SystemView>,
}

impl ServiceState {
    /// Every record is filed under its own id, and no record carries an id
    /// that was not issued yet.
    pub open spec fn valid(self) -> bool {
        &&& filed(self.users, |u: User| u.id, self.last_user_id)
        &&& filed(self.items, |t: Item| t.id, self.last_item_id)
        &&& filed(self.preferences, |p: UserPreference| p.id, self.last_preference_id)
        &&& filed(self.systems, |v: SystemView| v.id, self.last_system_id)
    }
}

/// Each record of `m` is filed under its own id, which is at most `last`.
pub open spec fn filed<V>(m: Map<u64, V>, id_of: spec_fn(V) -> u64, last: u64) -> bool {
    forall|k: u64| #[trigger] m.contains_key(k) ==> id_of(m[k]) == k && k <= last
}

proof fn lemma_filed_insert<V>(
    m: Map<u64, V>,
    id_of: spec_fn(V) -> u64,
    last: u64,
    k: u64,
    v: V,
    new_last: u64,
)
    requires
        filed(m, id_of, last),
        id_of(v) == k,
        k <= new_last,
        last <= new_last,
    ensures
        filed(m.insert(k, v), id_of, new_last),
{
    assert forall|q: u64| #[trigger] m.insert(k, v).contains_key(q) implies id_of(
        m.insert(k, v)[q],
    ) == q && q <= new_last by {
        if q != k {
            assert(m.contains_key(q));
        }
    }
}

proof fn lemma_filed_remove<V>(m: Map<u64, V>, id_of: spec_fn(V) -> u64, last: u64, k: u64)
    requires
        filed(m, id_of, last),
    ensures
        filed(m.remove(k), id_of, last),
{
    assert forall|q: u64| #[trigger] m.remove(k).contains_key(q) implies id_of(m.remove(k)[q]) == q
        && q <= last by {
        assert(m.contains_key(q));
    }
}

/// The record under `id`, or `NotFound` for the given kind.
pub open spec fn lookup<V>(m: Map<u64, V>, kind: Kind, id: u64) -> Result<V, Error> {
    if m.contains_key(id) {
        Ok(m[id])
    } else {
        Err(Error::NotFound { kind, id })
    }
}

/// What a listing of `m` returns: its records in ascending id order, or
/// `EmptyResult` when there are none.
pub open spec fn listed<V>(m: Map<u64, V>, r: Result<Seq<V>, Error>) -> bool {
    match r {
        Ok(v) => m != Map::<u64, V>::empty() && in_key_order(m, v),
        Err(e) => e == Error::EmptyResult && m == Map::<u64, V>::empty(),
    }
}

/// A listing result seen as sequences.
pub open spec fn seq_result<T>(r: Result<Vec<T>, Error>) -> Result<Seq<T>, Error> {
    match r {
        Ok(v) => Ok(v@),
        Err(e) => Err(e),
    }
}

/// What an embedded list returns: the copies in their order, or
/// `EmptyResult` when there are none.
pub open spec fn nonempty<V>(s: Seq<V>) -> Result<Seq<V>, Error> {
    if s.len() == 0 {
        Err(Error::EmptyResult)
    } else {
        Ok(s)
    }
}

/// A user payload has every field filled in.
pub open spec fn user_payload_valid(p: UserPayload) -> bool {
    p.name@.len() > 0 && p.email@.len() > 0 && p.password@.len() > 0
}

/// The user that `p` creates under `id` at time `now`.
pub open spec fn new_user(id: u64, p: UserPayload, now: u64) -> User {
    User {
        id,
        name: p.name,
        email: p.email,
        password: p.password,
        created_at: now,
        updated_at: None,
    }
}

/// A user `r` with the fields of `p` written over it at time `now`.
pub open spec fn updated_user(r: User, p: UserPayload, now: u64) -> User {
    User { name: p.name, email: p.email, password: p.password, updated_at: Some(now), ..r }
}

/// The state after creating a user from `p` at time `now`, and the result.
pub open spec fn add_user_step(s: ServiceState, p: UserPayload, now: u64) -> (
    ServiceState,
    Result<User, Error>,
) {
    if !user_payload_valid(p) {
        (s, Err(Error::InvalidPayload))
    } else {
        let id = (s.last_user_id + 1) as u64;
        let r = new_user(id, p, now);
        (ServiceState { last_user_id: id, users: s.users.insert(id, r), ..s }, Ok(r))
    }
}

/// The state after updating user `id` from `p` at time `now`, and the
/// result.
pub open spec fn update_user_step(s: ServiceState, id: u64, p: UserPayload, now: u64) -> (
    ServiceState,
    Result<User, Error>,
) {
    if !user_payload_valid(p) {
        (s, Err(Error::InvalidPayload))
    } else if !s.users.contains_key(id) {
        (s, Err(Error::NotFound { kind: Kind::User, id }))
    } else {
        let r = updated_user(s.users[id], p, now);
        (ServiceState { users: s.users.insert(id, r), ..s }, Ok(r))
    }
}

/// The state after deleting user `id`, and the result: the record leaves
/// its store and its copies leave every recommendation system.
pub open spec fn delete_user_step(s: ServiceState, id: u64) -> (ServiceState, Result<(), Error>) {
    if !s.users.contains_key(id) {
        (s, Err(Error::NotFound { kind: Kind::User, id }))
    } else {
        (
            ServiceState {
                users: s.users.remove(id),
                systems: scrubbed_all(s.systems, Member::User, id),
                ..s
            },
            Ok(()),
        )
    }
}

/// An item payload has every field filled in.
pub open spec fn item_payload_valid(p: ItemPayload) -> bool {
    p.name@.len() > 0 && p.category@.len() > 0 && p.description@.len() > 0
}

/// The item that `p` creates under `id` at time `now`.
pub open spec fn new_item(id: u64, p: ItemPayload, now: u64) -> Item {
    Item {
        id,
        name: p.name,
        category: p.category,
        description: p.description,
        created_at: now,
        updated_at: None,
    }
}

/// An item `r` with the fields of `p` written over it at time `now`.
pub open spec fn updated_item(r: Item, p: ItemPayload, now: u64) -> Item {
    Item {
        name: p.name,
        category: p.category,
        description: p.description,
        updated_at: Some(now),
        ..r
    }
}

/// The state after creating an item from `p` at time `now`, and the result.
pub open spec fn add_item_step(s: ServiceState, p: ItemPayload, now: u64) -> (
    ServiceState,
    Result<Item, Error>,
) {
    if !item_payload_valid(p) {
        (s, Err(Error::InvalidPayload))
    } else {
        let id = (s.last_item_id + 1) as u64;
        let r = new_item(id, p, now);
        (ServiceState { last_item_id: id, items: s.items.insert(id, r), ..s }, Ok(r))
    }
}

/// The state after updating item `id` from `p` at time `now`, and the
/// result.
pub open spec fn update_item_step(s: ServiceState, id: u64, p: ItemPayload, now: u64) -> (
    ServiceState,
    Result<Item, Error>,
) {
    if !item_payload_valid(p) {
        (s, Err(Error::InvalidPayload))
    } else if !s.items.contains_key(id) {
        (s, Err(Error::NotFound { kind: Kind::Item, id }))
    } else {
        let r = updated_item(s.items[id], p, now);
        (ServiceState { items: s.items.insert(id, r), ..s }, Ok(r))
    }
}

/// The state after deleting item `id`, and the result: the record leaves
/// its store and its copies leave every recommendation system.
pub open spec fn delete_item_step(s: ServiceState, id: u64) -> (ServiceState, Result<(), Error>) {
    if !s.items.contains_key(id) {
        (s, Err(Error::NotFound { kind: Kind::Item, id }))
    } else {
        (
            ServiceState {
                items: s.items.remove(id),
                systems: scrubbed_all(s.systems, Member::Item, id),
                ..s
            },
            Ok(()),
        )
    }
}

/// A preference payload has a nonzero rating.
pub open spec fn preference_payload_valid(p: UserPreferencePayload) -> bool {
    p.rating != 0
}

/// The user preference that `p` creates under `id` at time `now`.
pub open spec fn new_preference(id: u64, p: UserPreferencePayload, now: u64) -> UserPreference {
    UserPreference {
        id,
        user_id: p.user_id,
        item_id: p.item_id,
        rating: p.rating,
        created_at: now,
        updated_at: None,
    }
}

/// A user preference `r` with the fields of `p` written over it at time `now`.
pub open spec fn updated_preference(
    r: UserPreference,
    p: UserPreferencePayload,
    now: u64,
) -> UserPreference {
    UserPreference {
        user_id: p.user_id,
        item_id: p.item_id,
        rating: p.rating,
        updated_at: Some(now),
        ..r
    }
}

/// The state after creating a user preference from `p` at time `now`, and the result.
pub open spec fn add_preference_step(s: ServiceState, p: UserPreferencePayload, now: u64) -> (
    ServiceState,
    Result<UserPreference, Error>,
) {
    if !preference_payload_valid(p) {
        (s, Err(Error::InvalidPayload))
    } else {
        let id = (s.last_preference_id + 1) as u64;
        let r = new_preference(id, p, now);
        (
            ServiceState { last_preference_id: id, preferences: s.preferences.insert(id, r), ..s },
            Ok(r),
        )
    }
}

/// The state after updating user preference `id` from `p` at time `now`, and the
/// result.
pub open spec fn update_preference_step(
    s: ServiceState,
    id: u64,
    p: UserPreferencePayload,
    now: u64,
) -> (
    ServiceState,
    Result<UserPreference, Error>,
) {
    if !preference_payload_valid(p) {
        (s, Err(Error::InvalidPayload))
    } else if !s.preferences.contains_key(id) {
        (s, Err(Error::NotFound { kind: Kind::UserPreference, id }))
    } else {
        let r = updated_preference(s.preferences[id], p, now);
        (ServiceState { preferences: s.preferences.insert(id, r), ..s }, Ok(r))
    }
}

/// The state after deleting user preference `id`, and the result: the record leaves
/// its store and its copies leave every recommendation system.
pub open spec fn delete_preference_step(s: ServiceState, id: u64) -> (
    ServiceState,
    Result<(), Error>,
) {
    if !s.preferences.contains_key(id) {
        (s, Err(Error::NotFound { kind: Kind::UserPreference, id }))
    } else {
        (
            ServiceState {
                preferences: s.preferences.remove(id),
                systems: scrubbed_all(s.systems, Member::UserPreference, id),
                ..s
            },
            Ok(()),
        )
    }
}

/// A recommendation system result seen through the system's view.
pub open spec fn system_result(r: Result<RecommendationSystem, Error>) -> Result<
    SystemView,
    Error,
> {
    match r {
        Ok(v) => Ok(v@),
        Err(e) => Err(e),
    }
}

/// A listing of recommendation systems seen through their views.
pub open spec fn systems_result(r: Result<Vec<RecommendationSystem>, Error>) -> Result<
    Seq<SystemView>,
    Error,
> {
    match r {
        Ok(v) => Ok(v@.map_values(|t: RecommendationSystem| t@)),
        Err(e) => Err(e),
    }
}

/// A recommendation system with id `id` and no members.
pub open spec fn empty_system(id: u64) -> SystemView {
    SystemView { id, users: Seq::empty(), items: Seq::empty(), user_preferences: Seq::empty() }
}

/// The state after creating a recommendation system, and the system.
pub open spec fn add_system_step(s: ServiceState) -> (ServiceState, SystemView) {
    let id = (s.last_system_id + 1) as u64;
    (
        ServiceState {
            last_system_id: id,
            systems: s.systems.insert(id, empty_system(id)),
            ..s
        },
        empty_system(id),
    )
}

/// The state after deleting recommendation system `id`, and the result.
/// Its members stay in their own stores.
pub open spec fn delete_system_step(s: ServiceState, id: u64) -> (
    ServiceState,
    Result<SystemView, Error>,
) {
    if !s.systems.contains_key(id) {
        (s, Err(Error::NotFound { kind: Kind::RecommendationSystem, id }))
    } else {
        (ServiceState { systems: s.systems.remove(id), ..s }, Ok(s.systems[id]))
    }
}

/// The state after appending a copy of user `member_id` to recommendation
/// system `system_id`, and the result.
pub open spec fn add_user_to_system_step(s: ServiceState, system_id: u64, member_id: u64) -> (
    ServiceState,
    Result<SystemView, Error>,
) {
    if !s.systems.contains_key(system_id) {
        (s, Err(Error::NotFound { kind: Kind::RecommendationSystem, id: system_id }))
    } else if !s.users.contains_key(member_id) {
        (s, Err(Error::NotFound { kind: Kind::User, id: member_id }))
    } else {
        let v = SystemView {
            users: s.systems[system_id].users.push(s.users[member_id]),
            ..s.systems[system_id]
        };
        (ServiceState { systems: s.systems.insert(system_id, v), ..s }, Ok(v))
    }
}

/// The user copies of recommendation system `system_id`, or why there are
/// none to list.
pub open spec fn user_members(s: ServiceState, system_id: u64) -> Result<Seq<User>, Error> {
    match lookup(s.systems, Kind::RecommendationSystem, system_id) {
        Ok(v) => nonempty(v.users),
        Err(e) => Err(e),
    }
}

/// The state after appending a copy of item `member_id` to recommendation
/// system `system_id`, and the result.
pub open spec fn add_item_to_system_step(s: ServiceState, system_id: u64, member_id: u64) -> (
    ServiceState,
    Result<SystemView, Error>,
) {
    if !s.systems.contains_key(system_id) {
        (s, Err(Error::NotFound { kind: Kind::RecommendationSystem, id: system_id }))
    } else if !s.items.contains_key(member_id) {
        (s, Err(Error::NotFound { kind: Kind::Item, id: member_id }))
    } else {
        let v = SystemView {
            items: s.systems[system_id].items.push(s.items[member_id]),
            ..s.systems[system_id]
        };
        (ServiceState { systems: s.systems.insert(system_id, v), ..s }, Ok(v))
    }
}

/// The item copies of recommendation system `system_id`, or why there are
/// none to list.
pub open spec fn item_members(s: ServiceState, system_id: u64) -> Result<Seq<Item>, Error> {
    match lookup(s.systems, Kind::RecommendationSystem, system_id) {
        Ok(v) => nonempty(v.items),
        Err(e) => Err(e),
    }
}

/// The state after appending a copy of user preference `member_id` to recommendation
/// system `system_id`, and the result.
pub open spec fn add_preference_to_system_step(s: ServiceState, system_id: u64, member_id: u64) -> (
    ServiceState,
    Result<SystemView, Error>,
) {
    if !s.systems.contains_key(system_id) {
        (s, Err(Error::NotFound { kind: Kind::RecommendationSystem, id: system_id }))
    } else if !s.preferences.contains_key(member_id) {
        (s, Err(Error::NotFound { kind: Kind::UserPreference, id: member_id }))
    } else {
        let v = SystemView {
            user_preferences: s.systems[system_id].user_preferences.push(s.preferences[member_id]),
            ..s.systems[system_id]
        };
        (ServiceState { systems: s.systems.insert(system_id, v), ..s }, Ok(v))
    }
}

/// The user preference copies of recommendation system `system_id`, or why there are
/// none to list.
pub open spec fn preference_members(s: ServiceState, system_id: u64) -> Result<
    Seq<UserPreference>,
    Error,
> {
    match lookup(s.systems, Kind::RecommendationSystem, system_id) {
        Ok(v) => nonempty(v.user_preferences),
        Err(e) => Err(e),
    }
}

proof fn lemma_scrub_keeps_valid(m: Map<u64, SystemView>, kind: Member, id: u64, last: u64)
    requires
        filed(m, |v: SystemView| v.id, last),
    ensures
        filed(scrubbed_all(m, kind, id), |v: SystemView| v.id, last),
{
    let r = scrubbed_all(m, kind, id);
    assert forall|k: u64| #[trigger] r.contains_key(k) implies r[k].id == k && k <= last by {
        assert(m.contains_key(k));
    }
}

/// The records of every kind, and the id allocators.
pub struct RecommendationService {
    user_ids: IdAllocator,
    item_ids: IdAllocator,
    preference_ids: IdAllocator,
    system_ids: IdAllocator,
    users: EntityStore<User>,
    items: EntityStore<Item>,
    preferences: EntityStore<UserPreference>,
    systems: EntityStore<RecommendationSystem>,
}

impl View for RecommendationService {
    type V = ServiceState;

    closed spec fn view(&self) -> ServiceState {
        ServiceState {
            last_user_id: self.user_ids@,
            last_item_id: self.item_ids@,
            last_preference_id: self.preference_ids@,
            last_system_id: self.system_ids@,
            users: self.users@,
            items: self.items@,
            preferences: self.preferences@,
            systems: self.systems@,
        }
    }
}

impl RecommendationService {
    /// The stores keep their order, and the state is valid.
    pub open spec fn wf(&self) -> bool {
        self.stores_wf() && self@.valid()
    }

    /// The stores keep their entries in key order.
    pub closed spec fn stores_wf(&self) -> bool {
        &&& self.users.wf()
        &&& self.items.wf()
        &&& self.preferences.wf()
        &&& self.systems.wf()
    }

    /// A service with no records, whose allocators have issued nothing.
    pub fn new() -> (r: Self)
        ensures
            r.wf(),
            r@.last_user_id == 0,
            r@.last_item_id == 0,
            r@.last_preference_id == 0,
            r@.last_system_id == 0,
            r@.users == Map::<u64, User>::empty(),
            r@.items == Map::<u64, Item>::empty(),
            r@.preferences == Map::<u64, UserPreference>::empty(),
            r@.systems == Map::<u64, SystemView>::empty(),
    {
        RecommendationService {
            user_ids: IdAllocator::new(),
            item_ids: IdAllocator::new(),
            preference_ids: IdAllocator::new(),
            system_ids: IdAllocator::new(),
            users: EntityStore::new(),
            items: EntityStore::new(),
            preferences: EntityStore::new(),
            systems: EntityStore::new(),
        }
    }

    /// The last id issued for the given kind, or 0 when none has been.
    /// Another record of that kind can be created while it is below
    /// `u64::MAX`.
    pub fn last_issued(&self, kind: Kind) -> (r: u64)
        ensures
            r == match kind {
                Kind::User => self@.last_user_id,
                Kind::Item => self@.last_item_id,
                Kind::UserPreference => self@.last_preference_id,
                Kind::RecommendationSystem => self@.last_system_id,
            },
    {
        match kind {
            Kind::User => self.user_ids.current(),
            Kind::Item => self.item_ids.current(),
            Kind::UserPreference => self.preference_ids.current(),
            Kind::RecommendationSystem => self.system_ids.current(),
        }
    }

    /// All users in ascending id order; `EmptyResult` when there are none.
    pub fn get_users(&self) -> (r: Result<Vec<User>, Error>)
        requires
            self.wf(),
        ensures
            listed(self@.users, seq_result(r)),
    {
        let all = self.users.list_all();
        proof {
            assert(all@.map_values(|t: User| t@) =~= all@);
            lemma_listing_empty(self@.users, all@);
        }
        if all.len() == 0 {
            Err(Error::EmptyResult)
        } else {
            Ok(all)
        }
    }

    /// The user with id `id`.
    pub fn get_user_by_id(&self, id: u64) -> (r: Result<User, Error>)
        requires
            self.wf(),
        ensures
            r == lookup(self@.users, Kind::User, id),
    {
        match self.users.get(id) {
            Some(r) => Ok(r),
            None => Err(Error::NotFound { kind: Kind::User, id }),
        }
    }

    /// Creates a user from `payload`, stamped with `now`.
    pub fn add_user(&mut self, payload: UserPayload, now: u64) -> (r: Result<User, Error>)
        requires
            old(self).wf(),
            old(self)@.last_user_id < u64::MAX,
        ensures
            final(self).wf(),
            (final(self)@, r) == add_user_step(old(self)@, payload, now),
    {
        if payload.name.as_str().is_empty() || payload.email.as_str().is_empty()
            || payload.password.as_str().is_empty() {
            return Err(Error::InvalidPayload);
        }
        let id = self.user_ids.next();
        let record = User {
            id,
            name: payload.name,
            email: payload.email,
            password: payload.password,
            created_at: now,
            updated_at: None,
        };
        self.users.put(id, record.clone());
        proof {
            assert(self@.users == old(self)@.users.insert(id, self@.users[id]));
            lemma_filed_insert(
                old(self)@.users,
                |u: User| u.id,
                old(self)@.last_user_id,
                id,
                self@.users[id],
                self@.last_user_id,
            );
            assert(self@.items == old(self)@.items);
            assert(self@.preferences == old(self)@.preferences);
            assert(self@.systems == old(self)@.systems);
        }
        Ok(record)
    }

    /// Writes the fields of `payload` over user `id`, stamped with `now`.
    pub fn update_user(&mut self, id: u64, payload: UserPayload, now: u64) -> (r: Result<
        User,
        Error,
    >)
        requires
            old(self).wf(),
        ensures
            final(self).wf(),
            (final(self)@, r) == update_user_step(old(self)@, id, payload, now),
    {
        if payload.name.as_str().is_empty() || payload.email.as_str().is_empty()
            || payload.password.as_str().is_empty() {
            return Err(Error::InvalidPayload);
        }
        match self.users.get(id) {
            Some(mut record) => {
                record.name = payload.name;
                record.email = payload.email;
                record.password = payload.password;
                record.updated_at = Some(now);
                self.users.put(id, record.clone());
                proof {
                    assert(self@.users == old(self)@.users.insert(id, self@.users[id]));
                    lemma_filed_insert(
                        old(self)@.users,
                        |u: User| u.id,
                        old(self)@.last_user_id,
                        id,
                        self@.users[id],
                        self@.last_user_id,
                    );
                    assert(self@.items == old(self)@.items);
                    assert(self@.preferences == old(self)@.preferences);
                    assert(self@.systems == old(self)@.systems);
                }
                Ok(record)
            },
            None => Err(Error::NotFound { kind: Kind::User, id }),
        }
    }

    /// Deletes user `id` and takes its copies out of every recommendation
    /// system.
    pub fn delete_user(&mut self, id: u64) -> (r: Result<(), Error>)
        requires
            old(self).wf(),
        ensures
            final(self).wf(),
            (final(self)@, r) == delete_user_step(old(self)@, id),
    {
        match self.users.remove(id) {
            Some(_) => {
                proof {
                    lemma_filed_remove(
                        old(self)@.users,
                        |u: User| u.id,
                        old(self)@.last_user_id,
                        id,
                    );
                    assert(self@.systems == old(self)@.systems);
                }
                self.remove_user_from_recommendation_system(id);
                Ok(())
            },
            None => Err(Error::NotFound { kind: Kind::User, id }),
        }
    }

    /// Takes the copies of user `user_id` out of every recommendation
    /// system.
    pub fn remove_user_from_recommendation_system(&mut self, user_id: u64)
        requires
            old(self).wf(),
        ensures
            final(self).wf(),
            final(self)@ == (ServiceState {
                systems: scrubbed_all(old(self)@.systems, Member::User, user_id),
                ..old(self)@
            }),
    {
        scrub_kind(&mut self.systems, user_id, Member::User);
        proof {
            lemma_scrub_keeps_valid(
                old(self)@.systems,
                Member::User,
                user_id,
                self@.last_system_id,
            );
        }
    }

    /// All items in ascending id order; `EmptyResult` when there are none.
    pub fn get_items(&self) -> (r: Result<Vec<Item>, Error>)
        requires
            self.wf(),
        ensures
            listed(self@.items, seq_result(r)),
    {
        let all = self.items.list_all();
        proof {
            assert(all@.map_values(|t: Item| t@) =~= all@);
            lemma_listing_empty(self@.items, all@);
        }
        if all.len() == 0 {
            Err(Error::EmptyResult)
        } else {
            Ok(all)
        }
    }

    /// The item with id `id`.
    pub fn get_item_by_id(&self, id: u64) -> (r: Result<Item, Error>)
        requires
            self.wf(),
        ensures
            r == lookup(self@.items, Kind::Item, id),
    {
        match self.items.get(id) {
            Some(r) => Ok(r),
            None => Err(Error::NotFound { kind: Kind::Item, id }),
        }
    }

    /// Creates an item from `payload`, stamped with `now`.
    pub fn add_item(&mut self, payload: ItemPayload, now: u64) -> (r: Result<Item, Error>)
        requires
            old(self).wf(),
            old(self)@.last_item_id < u64::MAX,
        ensures
            final(self).wf(),
            (final(self)@, r) == add_item_step(old(self)@, payload, now),
    {
        if payload.name.as_str().is_empty() || payload.category.as_str().is_empty()
            || payload.description.as_str().is_empty() {
            return Err(Error::InvalidPayload);
        }
        let id = self.item_ids.next();
        let record = Item {
            id,
            name: payload.name,
            category: payload.category,
            description: payload.description,
            created_at: now,
            updated_at: None,
        };
        self.items.put(id, record.clone());
        proof {
            assert(self@.items == old(self)@.items.insert(id, self@.items[id]));
            lemma_filed_insert(
                old(self)@.items,
                |t: Item| t.id,
                old(self)@.last_item_id,
                id,
                self@.items[id],
                self@.last_item_id,
            );
            assert(self@.users == old(self)@.users);
            assert(self@.preferences == old(self)@.preferences);
            assert(self@.systems == old(self)@.systems);
        }
        Ok(record)
    }

    /// Writes the fields of `payload` over item `id`, stamped with `now`.
    pub fn update_item(&mut self, id: u64, payload: ItemPayload, now: u64) -> (r: Result<
        Item,
        Error,
    >)
        requires
            old(self).wf(),
        ensures
            final(self).wf(),
            (final(self)@, r) == update_item_step(old(self)@, id, payload, now),
    {
        if payload.name.as_str().is_empty() || payload.category.as_str().is_empty()
            || payload.description.as_str().is_empty() {
            return Err(Error::InvalidPayload);
        }
        match self.items.get(id) {
            Some(mut record) => {
                record.name = payload.name;
                record.category = payload.category;
                record.description = payload.description;
                record.updated_at = Some(now);
                self.items.put(id, record.clone());
                proof {
                    assert(self@.items == old(self)@.items.insert(id, self@.items[id]));
                    lemma_filed_insert(
                        old(self)@.items,
                        |t: Item| t.id,
                        old(self)@.last_item_id,
                        id,
                        self@.items[id],
                        self@.last_item_id,
                    );
                    assert(self@.users == old(self)@.users);
                    assert(self@.preferences == old(self)@.preferences);
                    assert(self@.systems == old(self)@.systems);
                }
                Ok(record)
            },
            None => Err(Error::NotFound { kind: Kind::Item, id }),
        }
    }

    /// Deletes item `id` and takes its copies out of every recommendation
    /// system.
    pub fn delete_item(&mut self, id: u64) -> (r: Result<(), Error>)
        requires
            old(self).wf(),
        ensures
            final(self).wf(),
            (final(self)@, r) == delete_item_step(old(self)@, id),
    {
        match self.items.remove(id) {
            Some(_) => {
                proof {
                    lemma_filed_remove(
                        old(self)@.items,
                        |t: Item| t.id,
                        old(self)@.last_item_id,
                        id,
                    );
                    assert(self@.systems == old(self)@.systems);
                }
                self.remove_item_from_recommendation_system(id);
                Ok(())
            },
            None => Err(Error::NotFound { kind: Kind::Item, id }),
        }
    }

    /// Takes the copies of item `item_id` out of every recommendation
    /// system.
    pub fn remove_item_from_recommendation_system(&mut self, item_id: u64)
        requires
            old(self).wf(),
        ensures
            final(self).wf(),
            final(self)@ == (ServiceState {
                systems: scrubbed_all(old(self)@.systems, Member::Item, item_id),
                ..old(self)@
            }),
    {
        scrub_kind(&mut self.systems, item_id, Member::Item);
        proof {
            lemma_scrub_keeps_valid(
                old(self)@.systems,
                Member::Item,
                item_id,
                self@.last_system_id,
            );
        }
    }

    /// All user preferences in ascending id order; `EmptyResult` when there are none.
    pub fn get_user_preferences(&self) -> (r: Result<Vec<UserPreference>, Error>)
        requires
            self.wf(),
        ensures
            listed(self@.preferences, seq_result(r)),
    {
        let all = self.preferences.list_all();
        proof {
            assert(all@.map_values(|t: UserPreference| t@) =~= all@);
            lemma_listing_empty(self@.preferences, all@);
        }
        if all.len() == 0 {
            Err(Error::EmptyResult)
        } else {
            Ok(all)
        }
    }

    /// The user preference with id `id`.
    pub fn get_user_preference_by_id(&self, id: u64) -> (r: Result<UserPreference, Error>)
        requires
            self.wf(),
        ensures
            r == lookup(self@.preferences, Kind::UserPreference, id),
    {
        match self.preferences.get(id) {
            Some(r) => Ok(r),
            None => Err(Error::NotFound { kind: Kind::UserPreference, id }),
        }
    }

    /// Creates a user preference from `payload`, stamped with `now`.
    pub fn add_user_preference(&mut self, payload: UserPreferencePayload, now: u64) -> (r: Result<
        UserPreference,
        Error,
    >)
        requires
            old(self).wf(),
            old(self)@.last_preference_id < u64::MAX,
        ensures
            final(self).wf(),
            (final(self)@, r) == add_preference_step(old(self)@, payload, now),
    {
        if payload.rating == 0 {
            return Err(Error::InvalidPayload);
        }
        let id = self.preference_ids.next();
        let record = UserPreference {
            id,
            user_id: payload.user_id,
            item_id: payload.item_id,
            rating: payload.rating,
            created_at: now,
            updated_at: None,
        };
        self.preferences.put(id, record.clone());
        proof {
            assert(self@.preferences == old(self)@.preferences.insert(id, self@.preferences[id]));
            lemma_filed_insert(
                old(self)@.preferences,
                |p: UserPreference| p.id,
                old(self)@.last_preference_id,
                id,
                self@.preferences[id],
                self@.last_preference_id,
            );
            assert(self@.users == old(self)@.users);
            assert(self@.items == old(self)@.items);
            assert(self@.systems == old(self)@.systems);
        }
        Ok(record)
    }

    /// Writes the fields of `payload` over user preference `id`, stamped with `now`.
    pub fn update_user_preference(
        &mut self,
        id: u64,
        payload: UserPreferencePayload,
        now: u64,
    ) -> (r: Result<UserPreference, Error>)
        requires
            old(self).wf(),
        ensures
            final(self).wf(),
            (final(self)@, r) == update_preference_step(old(self)@, id, payload, now),
    {
        if payload.rating == 0 {
            return Err(Error::InvalidPayload);
        }
        match self.preferences.get(id) {
            Some(mut record) => {
                record.user_id = payload.user_id;
                record.item_id = payload.item_id;
                record.rating = payload.rating;
                record.updated_at = Some(now);
                self.preferences.put(id, record.clone());
                proof {
                    assert(self@.preferences == old(self)@.preferences.insert(
                        id,
                        self@.preferences[id],
                    ));
                    lemma_filed_insert(
                        old(self)@.preferences,
                        |p: UserPreference| p.id,
                        old(self)@.last_preference_id,
                        id,
                        self@.preferences[id],
                        self@.last_preference_id,
                    );
                    assert(self@.users == old(self)@.users);
                    assert(self@.items == old(self)@.items);
                    assert(self@.systems == old(self)@.systems);
                }
                Ok(record)
            },
            None => Err(Error::NotFound { kind: Kind::UserPreference, id }),
        }
    }

    /// Deletes user preference `id` and takes its copies out of every recommendation
    /// system.
    pub fn delete_user_preference(&mut self, id: u64) -> (r: Result<(), Error>)
        requires
            old(self).wf(),
        ensures
            final(self).wf(),
            (final(self)@, r) == delete_preference_step(old(self)@, id),
    {
        match self.preferences.remove(id) {
            Some(_) => {
                proof {
                    lemma_filed_remove(
                        old(self)@.preferences,
                        |p: UserPreference| p.id,
                        old(self)@.last_preference_id,
                        id,
                    );
                    assert(self@.systems == old(self)@.systems);
                }
                self.remove_user_preference_from_recommendation_system(id);
                Ok(())
            },
            None => Err(Error::NotFound { kind: Kind::UserPreference, id }),
        }
    }

    /// Takes the copies of user preference `user_preference_id` out of every recommendation
    /// system.
    pub fn remove_user_preference_from_recommendation_system(&mut self, user_preference_id: u64)
        requires
            old(self).wf(),
        ensures
            final(self).wf(),
            final(self)@ == (ServiceState {
                systems: scrubbed_all(
                    old(self)@.systems,
                    Member::UserPreference,
                    user_preference_id,
                ),
                ..old(self)@
            }),
    {
        scrub_kind(&mut self.systems, user_preference_id, Member::UserPreference);
        proof {
            lemma_scrub_keeps_valid(
                old(self)@.systems,
                Member::UserPreference,
                user_preference_id,
                self@.last_system_id,
            );
        }
    }
    /// All recommendation systems in ascending id order; `EmptyResult` when
    /// there are none.
    pub fn get_recommendation_systems(&self) -> (r: Result<Vec<RecommendationSystem>, Error>)
        requires
            self.wf(),
        ensures
            listed(self@.systems, systems_result(r)),
    {
        let all = self.systems.list_all();
        proof {
            lemma_listing_empty(self@.systems, all@.map_values(|t: RecommendationSystem| t@));
        }
        if all.len() == 0 {
            Err(Error::EmptyResult)
        } else {
            Ok(all)
        }
    }

    /// The recommendation system with id `id`.
    pub fn get_recommendation_system_by_id(&self, id: u64) -> (r: Result<
        RecommendationSystem,
        Error,
    >)
        requires
            self.wf(),
        ensures
            system_result(r) == lookup(self@.systems, Kind::RecommendationSystem, id),
    {
        match self.systems.get(id) {
            Some(r) => Ok(r),
            None => Err(Error::NotFound { kind: Kind::RecommendationSystem, id }),
        }
    }

    /// Creates a recommendation system with no members.
    pub fn add_recommendation_system(&mut self) -> (r: RecommendationSystem)
        requires
            old(self).wf(),
            old(self)@.last_system_id < u64::MAX,
        ensures
            final(self).wf(),
            (final(self)@, r@) == add_system_step(old(self)@),
    {
        let id = self.system_ids.next();
        let system = RecommendationSystem {
            id,
            users: Vec::new(),
            items: Vec::new(),
            user_preferences: Vec::new(),
        };
        self.systems.put(id, system.clone());
        proof {
            assert(system@ == empty_system(id));
            assert(self@.systems == old(self)@.systems.insert(id, self@.systems[id]));
            lemma_filed_insert(
                old(self)@.systems,
                |v: SystemView| v.id,
                old(self)@.last_system_id,
                id,
                self@.systems[id],
                self@.last_system_id,
            );
            assert(self@.users == old(self)@.users);
            assert(self@.items == old(self)@.items);
            assert(self@.preferences == old(self)@.preferences);
        }
        system
    }

    /// Writes recommendation system `id` back unchanged and returns it.
    pub fn update_recommendation_system(&mut self, id: u64) -> (r: Result<
        RecommendationSystem,
        Error,
    >)
        requires
            old(self).wf(),
        ensures
            final(self).wf(),
            final(self)@ == old(self)@,
            system_result(r) == lookup(old(self)@.systems, Kind::RecommendationSystem, id),
    {
        match self.systems.get(id) {
            Some(system) => {
                self.systems.put(id, system.clone());
                proof {
                    assert(self@.systems =~= old(self)@.systems);
                }
                Ok(system)
            },
            None => Err(Error::NotFound { kind: Kind::RecommendationSystem, id }),
        }
    }

    /// Deletes recommendation system `id` and returns it. Its members stay.
    pub fn delete_recommendation_system(&mut self, id: u64) -> (r: Result<
        RecommendationSystem,
        Error,
    >)
        requires
            old(self).wf(),
        ensures
            final(self).wf(),
            (final(self)@, system_result(r)) == delete_system_step(old(self)@, id),
    {
        match self.systems.remove(id) {
            Some(system) => {
                proof {
                    lemma_filed_remove(
                        old(self)@.systems,
                        |v: SystemView| v.id,
                        old(self)@.last_system_id,
                        id,
                    );
                    assert(self@.users == old(self)@.users);
                    assert(self@.items == old(self)@.items);
                    assert(self@.preferences == old(self)@.preferences);
                }
                Ok(system)
            },
            None => Err(Error::NotFound { kind: Kind::RecommendationSystem, id }),
        }
    }

    /// Appends a copy of user `user_id` to recommendation system
    /// `recommendation_system_id` and returns the system. The copy keeps the
    /// values it has now: later updates of the user do not reach it.
    pub fn add_user_to_recommendation_system(
        &mut self,
        recommendation_system_id: u64,
        user_id: u64,
    ) -> (r: Result<RecommendationSystem, Error>)
        requires
            old(self).wf(),
        ensures
            final(self).wf(),
            (final(self)@, system_result(r)) == add_user_to_system_step(
                old(self)@,
                recommendation_system_id,
                user_id,
            ),
    {
        let mut system = match self.systems.get(recommendation_system_id) {
            Some(system) => system,
            None => {
                return Err(
                    Error::NotFound {
                        kind: Kind::RecommendationSystem,
                        id: recommendation_system_id,
                    },
                );
            },
        };
        let member = match self.users.get(user_id) {
            Some(member) => member,
            None => {
                return Err(Error::NotFound { kind: Kind::User, id: user_id });
            },
        };
        system.users.push(member);
        self.systems.put(recommendation_system_id, system.clone());
        proof {
            let v = add_user_to_system_step(old(self)@, recommendation_system_id, user_id).1->Ok_0;
            assert(system@ == v);
            lemma_filed_insert(
                old(self)@.systems,
                |v: SystemView| v.id,
                old(self)@.last_system_id,
                recommendation_system_id,
                v,
                old(self)@.last_system_id,
            );
            assert(self@.users == old(self)@.users);
            assert(self@.items == old(self)@.items);
            assert(self@.preferences == old(self)@.preferences);
        }
        Ok(system)
    }

    /// The user copies of recommendation system
    /// `recommendation_system_id`, in the order they were added;
    /// `EmptyResult` when it has none.
    pub fn get_users_in_recommendation_system(&self, recommendation_system_id: u64) -> (r: Result<
        Vec<User>,
        Error,
    >)
        requires
            self.wf(),
        ensures
            seq_result(r) == user_members(self@, recommendation_system_id),
    {
        let system = match self.systems.get(recommendation_system_id) {
            Some(system) => system,
            None => {
                return Err(
                    Error::NotFound {
                        kind: Kind::RecommendationSystem,
                        id: recommendation_system_id,
                    },
                );
            },
        };
        if system.users.len() == 0 {
            Err(Error::EmptyResult)
        } else {
            Ok(system.users)
        }
    }

    /// Appends a copy of item `item_id` to recommendation system
    /// `recommendation_system_id` and returns the system. The copy keeps the
    /// values it has now: later updates of the item do not reach it.
    pub fn add_item_to_recommendation_system(
        &mut self,
        recommendation_system_id: u64,
        item_id: u64,
    ) -> (r: Result<RecommendationSystem, Error>)
        requires
            old(self).wf(),
        ensures
            final(self).wf(),
            (final(self)@, system_result(r)) == add_item_to_system_step(
                old(self)@,
                recommendation_system_id,
                item_id,
            ),
    {
        let mut system = match self.systems.get(recommendation_system_id) {
            Some(system) => system,
            None => {
                return Err(
                    Error::NotFound {
                        kind: Kind::RecommendationSystem,
                        id: recommendation_system_id,
                    },
                );
            },
        };
        let member = match self.items.get(item_id) {
            Some(member) => member,
            None => {
                return Err(Error::NotFound { kind: Kind::Item, id: item_id });
            },
        };
        system.items.push(member);
        self.systems.put(recommendation_system_id, system.clone());
        proof {
            let v = add_item_to_system_step(old(self)@, recommendation_system_id, item_id).1->Ok_0;
            assert(system@ == v);
            lemma_filed_insert(
                old(self)@.systems,
                |v: SystemView| v.id,
                old(self)@.last_system_id,
                recommendation_system_id,
                v,
                old(self)@.last_system_id,
            );
            assert(self@.users == old(self)@.users);
            assert(self@.items == old(self)@.items);
            assert(self@.preferences == old(self)@.preferences);
        }
        Ok(system)
    }

    /// The item copies of recommendation system
    /// `recommendation_system_id`, in the order they were added;
    /// `EmptyResult` when it has none.
    pub fn get_items_in_recommendation_system(&self, recommendation_system_id: u64) -> (r: Result<
        Vec<Item>,
        Error,
    >)
        requires
            self.wf(),
        ensures
            seq_result(r) == item_members(self@, recommendation_system_id),
    {
        let system = match self.systems.get(recommendation_system_id) {
            Some(system) => system,
            None => {
                return Err(
                    Error::NotFound {
                        kind: Kind::RecommendationSystem,
                        id: recommendation_system_id,
                    },
                );
            },
        };
        if system.items.len() == 0 {
            Err(Error::EmptyResult)
        } else {
            Ok(system.items)
        }
    }

    /// Appends a copy of user preference `user_preference_id` to recommendation system
    /// `recommendation_system_id` and returns the system. The copy keeps the
    /// values it has now: later updates of the user preference do not reach it.
    pub fn add_user_preference_to_recommendation_system(
        &mut self,
        recommendation_system_id: u64,
        user_preference_id: u64,
    ) -> (r: Result<RecommendationSystem, Error>)
        requires
            old(self).wf(),
        ensures
            final(self).wf(),
            (final(self)@, system_result(r)) == add_preference_to_system_step(
                old(self)@,
                recommendation_system_id,
                user_preference_id,
            ),
    {
        let mut system = match self.systems.get(recommendation_system_id) {
            Some(system) => system,
            None => {
                return Err(
                    Error::NotFound {
                        kind: Kind::RecommendationSystem,
                        id: recommendation_system_id,
                    },
                );
            },
        };
        let member = match self.preferences.get(user_preference_id) {
            Some(member) => member,
            None => {
                return Err(Error::NotFound { kind: Kind::UserPreference, id: user_preference_id });
            },
        };
        system.user_preferences.push(member);
        self.systems.put(recommendation_system_id, system.clone());
        proof {
            let v = add_preference_to_system_step(
                old(self)@,
                recommendation_system_id,
                user_preference_id,
            ).1->Ok_0;
            assert(system@ == v);
            lemma_filed_insert(
                old(self)@.systems,
                |v: SystemView| v.id,
                old(self)@.last_system_id,
                recommendation_system_id,
                v,
                old(self)@.last_system_id,
            );
            assert(self@.users == old(self)@.users);
            assert(self@.items == old(self)@.items);
            assert(self@.preferences == old(self)@.preferences);
        }
        Ok(system)
    }

    /// The user preference copies of recommendation system
    /// `recommendation_system_id`, in the order they were added;
    /// `EmptyResult` when it has none.
    pub fn get_user_preferences_in_recommendation_system(
        &self,
        recommendation_system_id: u64,
    ) -> (r: Result<Vec<UserPreference>, Error>)
        requires
            self.wf(),
        ensures
            seq_result(r) == preference_members(self@, recommendation_system_id),
    {
        let system = match self.systems.get(recommendation_system_id) {
            Some(system) => system,
            None => {
                return Err(
                    Error::NotFound {
                        kind: Kind::RecommendationSystem,
                        id: recommendation_system_id,
                    },
                );
            },
        };
        if system.user_preferences.len() == 0 {
            Err(Error::EmptyResult)
        } else {
            Ok(system.user_preferences)
        }
    }
}

} // verus!
